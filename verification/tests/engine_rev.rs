use pkwiz_solver::protocol::{version, ENGINE_COMPATIBLE_REVS, ENGINE_FORMAT, ENGINE_REV, PROTOCOL_VERSION};

#[test]
fn engine_rev_is_a_full_commit_hash() {
    assert_eq!(
        ENGINE_REV.len(),
        40,
        "ENGINE_REV should be a full 40-character hash"
    );
    assert!(
        ENGINE_REV
            .chars()
            .all(|c| c.is_ascii_hexdigit() && !c.is_ascii_uppercase()),
        "ENGINE_REV should be lowercase hex: {ENGINE_REV}"
    );
}

#[test]
fn engine_rev_is_the_first_compatible_rev() {
    assert_eq!(
        ENGINE_COMPATIBLE_REVS.first(),
        Some(&ENGINE_REV),
        "the running revision must head the compatibility list"
    );
}

#[test]
fn version_reports_the_engine_it_was_built_against() {
    let v = version();
    assert_eq!(v.version, "0.1.0");
    assert_eq!(v.protocol_version, PROTOCOL_VERSION);
    assert_eq!(v.engine_rev, ENGINE_REV);
    assert_eq!(v.engine_format, ENGINE_FORMAT);
    assert_eq!(v.engine_compatible_revs.len(), 4);
    assert_eq!(v.engine_compatible_revs[0], ENGINE_REV);
    assert_eq!(v.engine_compatible_revs[3], "6f485efcbc08744c3875748d7e3750a773e1075d");
}
