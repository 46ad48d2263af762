use copygum::content_detector::detect_content_type;
use copygum::content_detector::ContentType;

#[test]
fn test_hex_color_detection() {
    // Valid hex colors
    assert_eq!(detect_content_type("#FFF"), ContentType::Color);
    assert_eq!(detect_content_type("#FFFFFF"), ContentType::Color);
    assert_eq!(detect_content_type("#FF5733"), ContentType::Color);
    assert_eq!(detect_content_type("#ff5733"), ContentType::Color);
    assert_eq!(detect_content_type("#FF5733AA"), ContentType::Color); // With alpha

    // Invalid hex colors
    assert_ne!(detect_content_type("#GGG"), ContentType::Color);
    assert_ne!(detect_content_type("FF5733"), ContentType::Color); // Missing #
    assert_ne!(detect_content_type("#FF57"), ContentType::Color); // Wrong length
}

#[test]
fn test_url_detection() {
    // Valid URLs
    assert_eq!(detect_content_type("https://example.com"), ContentType::Url);
    assert_eq!(detect_content_type("http://example.com"), ContentType::Url);
    assert_eq!(detect_content_type("www.example.com"), ContentType::Url);
    assert_eq!(detect_content_type("example.com"), ContentType::Url);
    assert_eq!(detect_content_type("example.io/path"), ContentType::Url);
    assert_eq!(detect_content_type("api.example.co"), ContentType::Url);

    // Invalid URLs
    assert_ne!(detect_content_type("not a url"), ContentType::Url);
    assert_ne!(detect_content_type("example"), ContentType::Url);
}

#[test]
fn test_email_detection() {
    // Valid emails
    assert_eq!(detect_content_type("user@example.com"), ContentType::Email);
    assert_eq!(detect_content_type("test.user@example.co.uk"), ContentType::Email);
    assert_eq!(detect_content_type("name+tag@domain.org"), ContentType::Email);

    // Invalid emails
    assert_ne!(detect_content_type("not an email"), ContentType::Email);
    assert_ne!(detect_content_type("@example.com"), ContentType::Email);
    assert_ne!(detect_content_type("user@"), ContentType::Email);
}

#[test]
fn test_phone_detection() {
    // Valid phone numbers
    assert_eq!(detect_content_type("555-123-4567"), ContentType::Phone);
    assert_eq!(detect_content_type("(555) 123-4567"), ContentType::Phone);
    assert_eq!(detect_content_type("5551234567"), ContentType::Phone);
    assert_eq!(detect_content_type("+1 555 123 4567"), ContentType::Phone);

    // Invalid phone numbers
    assert_ne!(detect_content_type("123"), ContentType::Phone);
    assert_ne!(detect_content_type("not a phone"), ContentType::Phone);
}

#[test]
fn test_number_detection() {
    // Valid numbers
    assert_eq!(detect_content_type("123"), ContentType::Number);
    assert_eq!(detect_content_type("123.456"), ContentType::Number);
    assert_eq!(detect_content_type("-123"), ContentType::Number);
    assert_eq!(detect_content_type("+456.78"), ContentType::Number);
    assert_eq!(detect_content_type(".5"), ContentType::Number);

    // Invalid numbers
    assert_ne!(detect_content_type("123abc"), ContentType::Number);
    assert_ne!(detect_content_type("not a number"), ContentType::Number);
}

#[test]
fn test_code_detection() {
    // Valid code patterns
    assert_eq!(detect_content_type("function test() { return 42; }"), ContentType::Code);
    assert_eq!(detect_content_type("const value = 123;"), ContentType::Code);
    assert_eq!(detect_content_type("let x = 10;"), ContentType::Code);
    assert_eq!(detect_content_type("class MyClass {}"), ContentType::Code);
    assert_eq!(detect_content_type("def my_function():"), ContentType::Code);
    assert_eq!(detect_content_type("import React from 'react';"), ContentType::Code);
    assert_eq!(detect_content_type("public static void main()"), ContentType::Code);

    // Not code
    assert_ne!(detect_content_type("This is plain text"), ContentType::Code);
}

#[test]
fn test_text_default() {
    // Everything else defaults to text
    assert_eq!(detect_content_type("Hello World"), ContentType::Text);
    assert_eq!(detect_content_type("Some random text"), ContentType::Text);
    assert_eq!(detect_content_type("Lorem ipsum dolor sit amet"), ContentType::Text);
    assert_eq!(detect_content_type(""), ContentType::Text);
}

#[test]
fn test_priority_order() {
    // Hex color has highest priority
    assert_eq!(detect_content_type("#123"), ContentType::Color);

    // URL before email before phone before number
    // (This is ensured by the detection order in detect_content_type)
}

#[test]
fn test_email_beats_bare_domain() {
    // An address ending in a TLD-like suffix is still an e-mail, not a URL
    assert_eq!(detect_content_type("someone@mail.com"), ContentType::Email);
    assert_eq!(detect_content_type("dev@company.io"), ContentType::Email);
}

#[test]
fn test_category_strings() {
    assert_eq!(ContentType::Color.as_str(), "color");
    assert_eq!(ContentType::Url.as_str(), "links");
    assert_eq!(ContentType::Email.as_str(), "email");
    assert_eq!(ContentType::Phone.as_str(), "phone");
    assert_eq!(ContentType::Number.as_str(), "number");
    assert_eq!(ContentType::Code.as_str(), "code");
    assert_eq!(ContentType::Text.as_str(), "text");
}

#[test]
fn test_trimming_before_classification() {
    assert_eq!(detect_content_type("  #FFF  "), ContentType::Color);
    assert_eq!(detect_content_type("\t42\n"), ContentType::Number);
    assert_eq!(detect_content_type("   "), ContentType::Text);
}

#[test]
fn test_code_statement_and_scope_cues() {
    assert_eq!(detect_content_type("do the thing;"), ContentType::Code);
    assert_eq!(detect_content_type("a => b"), ContentType::Code);
    assert_eq!(detect_content_type("std::collections"), ContentType::Code);
}

#[test]
fn test_www_prefixed_address_is_url() {
    // an explicit www. prefix outranks the e-mail pattern
    assert_eq!(detect_content_type("www.a@b.com"), ContentType::Url);
}

#[test]
fn test_unicode_whitespace_is_trimmed() {
    // non-breaking spaces and other Unicode whitespace are stripped before
    // classification, as str::trim would strip them
    assert_eq!(detect_content_type("\u{00A0}#FFF\u{00A0}"), ContentType::Color);
    assert_eq!(detect_content_type("\u{2003}42\u{2009}"), ContentType::Number);
}
