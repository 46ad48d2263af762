use copygum::text::chars_eq;
use copygum::text::chars_of;
use copygum::text::chars_to_string;
use copygum::text::contains_pat;
use copygum::text::push_dec_u64;
use copygum::text::push_hex_byte_upper;
use copygum::text::push_hex_u64;
use copygum::text::str_eq;
use copygum::text::to_lower_chars;
use copygum::text::trim_chars;

#[test]
fn test_chars_roundtrip() {
    let v = chars_of("héllo wörld");
    assert_eq!(chars_to_string(&v), "héllo wörld");
    assert_eq!(v.len(), 11);
}

#[test]
fn test_trim_chars() {
    let v = chars_of("  \t padded \n ");
    assert_eq!(chars_to_string(&trim_chars(&v)), "padded");
    let v = chars_of("untouched");
    assert_eq!(chars_to_string(&trim_chars(&v)), "untouched");
    let v = chars_of(" \t\r\n");
    assert_eq!(chars_to_string(&trim_chars(&v)), "");
}

#[test]
fn test_trim_chars_unicode_whitespace() {
    // the whitespace class is Unicode White_Space, as str::trim uses
    let padded = "\u{00A0}\u{2003}kept\u{205F}\u{3000}";
    let v = chars_of(padded);
    assert_eq!(chars_to_string(&trim_chars(&v)), "kept");
    assert_eq!(padded.trim(), "kept");
}

#[test]
fn test_ascii_lowercase() {
    let v = chars_of("MiXeD 123 ÄÖ");
    // only ASCII letters are folded; everything else stays
    assert_eq!(chars_to_string(&to_lower_chars(&v)), "mixed 123 ÄÖ");
}

#[test]
fn test_contains_pat() {
    let hay = chars_of("one two three");
    assert!(contains_pat(&hay, &chars_of("two")));
    assert!(contains_pat(&hay, &chars_of("one")));
    assert!(contains_pat(&hay, &chars_of("ree")));
    assert!(!contains_pat(&hay, &chars_of("four")));
    assert!(contains_pat(&hay, &chars_of("")));
}

#[test]
fn test_string_comparisons() {
    assert!(str_eq("same", "same"));
    assert!(!str_eq("same", "Same"));
    assert!(!str_eq("same", "sames"));
    assert!(chars_eq(&chars_of("ab"), &chars_of("ab")));
    assert!(!chars_eq(&chars_of("ab"), &chars_of("ba")));
}

#[test]
fn test_integer_rendering() {
    let mut v: Vec<char> = Vec::new();
    push_dec_u64(&mut v, 0);
    assert_eq!(chars_to_string(&v), "0");
    let mut v: Vec<char> = Vec::new();
    push_dec_u64(&mut v, 9081726354);
    assert_eq!(chars_to_string(&v), "9081726354");
    let mut v: Vec<char> = Vec::new();
    push_hex_u64(&mut v, 0xdeadbeef);
    assert_eq!(chars_to_string(&v), "deadbeef");
    let mut v: Vec<char> = Vec::new();
    push_hex_byte_upper(&mut v, 0x0a);
    push_hex_byte_upper(&mut v, 0xff);
    assert_eq!(chars_to_string(&v), "0AFF");
}
