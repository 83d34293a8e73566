use vite_plugin_norg_parser::text::{blank, escape_html, into_slug, trim};

#[test]
fn test_into_slug() {
    assert_eq!(into_slug("Hello World"), "hello-world");
    assert_eq!(into_slug("Special!@#Characters"), "special-characters");
    assert_eq!(into_slug("Multiple   Spaces"), "multiple-spaces");
    assert_eq!(into_slug(""), "");
    assert_eq!(into_slug("!!!"), "");
    assert_eq!(into_slug("123"), "123");
}

#[test]
fn test_slug_from_text_edge_cases() {
    assert_eq!(into_slug("---"), "");
    assert_eq!(into_slug("123"), "123");
    assert_eq!(into_slug("Test-Case"), "test-case");
    assert_eq!(into_slug("  Leading Spaces  "), "leading-spaces");
    assert_eq!(into_slug("CamelCase"), "camelcase");
}

#[test]
fn slug_lowercases_unicode_and_keeps_letters() {
    assert_eq!(into_slug("ÜBER Straße"), "über-straße");
    assert_eq!(into_slug("--a--b--"), "a-b");
}

#[test]
fn escape_replaces_the_five_special_characters() {
    assert_eq!(
        escape_html("a<b>&\"'c"),
        "a&lt;b&gt;&amp;&quot;&#x27;c"
    );
}

#[test]
fn escape_leaves_plain_text_unchanged() {
    let plain = "Plain text, 123 and more.";
    assert_eq!(escape_html(plain), plain);
    assert_eq!(escape_html(""), "");
}

#[test]
fn escape_twice_escapes_twice() {
    assert_eq!(escape_html(&escape_html("&")), "&amp;amp;");
}

#[test]
fn trim_and_blank_use_unicode_white_space() {
    assert_eq!(trim("  \t a b \n\u{3000}"), "a b");
    assert_eq!(trim("   "), "");
    assert!(blank(" \t\r\n\u{A0}"));
    assert!(blank(""));
    assert!(!blank(" x "));
}
