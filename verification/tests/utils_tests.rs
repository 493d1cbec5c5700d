use scrape_core::utils::{url_decode, url_decode_strict, url_normalize, origin_of, from_hex};
use scrape_core::textnorm::normalize;

#[test]
fn decode_simple() {
    assert_eq!(url_decode("hello%20world"), "hello world");
    assert_eq!(url_decode("a+b+c"), "a b c");
}

#[test]
fn decode_utf8() {
    // %E3%81%82 is the UTF-8 encoding of U+3042
    assert_eq!(url_decode("%E3%81%82"), "\u{3042}");
}

#[test]
fn strict_errors() {
    assert!(url_decode_strict("%E3%81").is_err()); // incomplete
    assert!(url_decode_strict("%ZZ").is_err()); // invalid hex
}

#[test]
fn fallback_lossy() {
    // malformed percent -> leaves '%' as-is when strict fails
    assert_eq!(url_decode("%ZZ"), "%ZZ");
}

#[test]
fn decode_invalid_utf8_is_replaced() {
    // %FF decodes to a byte that is not valid UTF-8
    assert_eq!(url_decode("%FF"), "\u{FFFD}");
}

#[test]
fn decode_strict_ok() {
    assert_eq!(url_decode_strict("a%20b+c").unwrap(), "a b c");
    assert_eq!(url_decode_strict("").unwrap(), "");
}

#[test]
fn hex_digits() {
    assert_eq!(from_hex(b'0'), Some(0));
    assert_eq!(from_hex(b'f'), Some(15));
    assert_eq!(from_hex(b'A'), Some(10));
    assert_eq!(from_hex(b'g'), None);
}

#[test]
fn normalize_collapses_whitespace() {
    assert_eq!(normalize("a\n\nb  c"), "a b c");
    assert_eq!(normalize(""), "");
    assert_eq!(normalize("   "), "");
    assert_eq!(normalize("\t x\r\ny \t"), "x y");
}

#[test]
fn absolutize_root_relative() {
    let origin = origin_of("https://x.test/dir/page");
    assert_eq!(origin, "https://x.test");
    assert_eq!(url_normalize(&origin, "/p.png"), "https://x.test/p.png");
}

#[test]
fn absolutize_absolute_is_noop() {
    assert_eq!(
        url_normalize("https://x.test", "https://other.test/a.png"),
        "https://other.test/a.png"
    );
    assert_eq!(url_normalize("https://x.test", "http://y.test/"), "http://y.test/");
}

#[test]
fn absolutize_relative() {
    assert_eq!(url_normalize("https://x.test/", "img/a.png"), "https://x.test/img/a.png");
    assert_eq!(url_normalize("https://x.test", "//cdn/a.png"), "https://x.test/cdn/a.png");
}

#[test]
fn origin_of_short_urls() {
    assert_eq!(origin_of("https://x.test"), "https://x.test");
    assert_eq!(origin_of("no-slashes"), "no-slashes");
}
