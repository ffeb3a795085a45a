use mpris_bridge::numbertext::check_json_number;
use mpris_bridge::numbertext::NumberText;

#[test]
fn plain_renderings_pass() {
    for s in ["0", "5", "42", "1.5", "-2.25", "0.75", "-0.5", "123.456"] {
        assert!(check_json_number(s), "{} should pass", s);
    }
}

#[test]
fn exponent_renderings_pass() {
    for s in ["1e30", "1E30", "2e-7", "3.5e+2", "-1.25e-3", "0e0"] {
        assert!(check_json_number(s), "{} should pass", s);
    }
}

#[test]
fn malformed_renderings_fail() {
    for s in [
        "", "-", "01", "1.", ".5", "+1", "1e", "1e+", "abc", "--1", "1.2.3", "1f5", "NaN", "inf",
        " 1", "1 ",
    ] {
        assert!(!check_json_number(s), "{} should fail", s);
    }
}

#[test]
fn make_accepts_exactly_the_grammar() {
    let t = NumberText::make(String::from("1.5")).expect("valid rendering");
    assert_eq!(t.as_text(), "1.5");
    assert!(NumberText::make(String::from("01")).is_none());
    assert!(NumberText::make(String::from("")).is_none());
}
