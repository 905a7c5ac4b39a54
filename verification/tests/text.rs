use pkwiz_solver::text::{chars_of, parse_i64};

#[test]
fn decimal_text_reads_back_as_its_number() {
    for n in [0i64, 7, 42, 2147483647, -5, i64::MAX, i64::MIN] {
        let text = n.to_string();
        assert_eq!(parse_i64(&chars_of(&text)), Some(n), "{text}");
    }
    assert_eq!(parse_i64(&chars_of("")), None);
    assert_eq!(parse_i64(&chars_of("12a")), None);
    assert_eq!(parse_i64(&chars_of("9223372036854775808")), None);
}
