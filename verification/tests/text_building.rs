use downloader::text::{push_decimal, push_escape, push_quoted};

fn decimal(n: u64) -> String {
    let mut out = String::new();
    push_decimal(&mut out, n);
    out
}

fn quoted(text: &str) -> String {
    let mut out = String::new();
    push_quoted(&mut out, text);
    out
}

#[test]
fn decimal_writes_numerals_without_leading_zeros() {
    assert_eq!(decimal(0), "0");
    assert_eq!(decimal(7), "7");
    assert_eq!(decimal(10), "10");
    assert_eq!(decimal(401), "401");
    assert_eq!(decimal(1000), "1000");
    assert_eq!(decimal(u64::MAX), "18446744073709551615");
}

#[test]
fn decimal_appends_to_what_is_there() {
    let mut out = String::from("code ");
    push_decimal(&mut out, 299);
    assert_eq!(out, "code 299");
}

#[test]
fn quoted_leaves_plain_text_as_it_stands() {
    assert_eq!(quoted(""), "\"\"");
    assert_eq!(quoted("alice"), "\"alice\"");
    assert_eq!(quoted("p@ss w0rd/~\u{7f}"), "\"p@ss w0rd/~\u{7f}\"");
    assert_eq!(quoted("gr\u{fc}\u{df}e \u{1f600}"), "\"gr\u{fc}\u{df}e \u{1f600}\"");
}

#[test]
fn quoted_escapes_marks_backslashes_and_controls() {
    assert_eq!(quoted("a\"b"), r#""a\"b""#);
    assert_eq!(quoted("a\\b"), r#""a\\b""#);
    assert_eq!(quoted("\u{8}\t\n\u{c}\r"), r#""\b\t\n\f\r""#);
    assert_eq!(quoted("\u{0}\u{1}\u{1f}"), r#""\u0000\u0001\u001f""#);
    assert_eq!(quoted("\u{b}\u{e}\u{1a}"), r#""\u000b\u000e\u001a""#);
}

#[test]
fn escape_appends_one_character() {
    let mut out = String::from("x");
    push_escape(&mut out, '"');
    push_escape(&mut out, 'y');
    push_escape(&mut out, '\u{10}');
    assert_eq!(out, "x\\\"y\\u0010");
}

#[test]
fn quoted_agrees_with_the_json_encoder_on_every_low_character() {
    for code in 0u32..0x300 {
        let c = char::from_u32(code).unwrap();
        let text = format!("a{}b", c);
        assert_eq!(quoted(&text), serde_json::to_string(&text).unwrap());
    }
}

#[test]
fn quoted_is_read_back_by_the_json_decoder() {
    let text = "q\"uo\\te \u{0}\u{7}\n\t\u{1f} \u{e9}\u{4e2d}\u{1f600} end";
    let back: String = serde_json::from_str(&quoted(text)).unwrap();
    assert_eq!(back, text);
}
