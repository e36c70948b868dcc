//! Reading of the method selector.

use stats_summary::error::StatsError;
use stats_summary::method::{as_method, method_kind, Method};

#[test]
fn names_and_short_names_are_read() {
    assert_eq!(as_method("population"), Some(Method::Population));
    assert_eq!(as_method("pop"), Some(Method::Population));
    assert_eq!(as_method("sample"), Some(Method::Sample));
    assert_eq!(as_method("samp"), Some(Method::Sample));
}

#[test]
fn case_and_surrounding_space_do_not_matter() {
    assert_eq!(as_method("Population"), Some(Method::Population));
    assert_eq!(as_method(" pop "), Some(Method::Population));
    assert_eq!(as_method("sample"), Some(Method::Sample));
    assert_eq!(as_method("SAMP"), Some(Method::Sample));
    assert_eq!(as_method("\t\n PoPuLaTiOn\r\n"), Some(Method::Population));
    assert_eq!(as_method("\u{a0}\u{2003}Sample\u{3000}"), Some(Method::Sample));
}

#[test]
fn other_text_names_no_method() {
    for text in [
        "bogus", "", "   ", "populatio", "populations", "po p", "sam", "sample!", "pop\u{0}",
        "s\u{e4}mple", "p\u{d6}p", "popsample", "`OP", "pop pop",
    ] {
        assert_eq!(as_method(text), None, "{:?}", text);
    }
}

#[test]
fn reading_agrees_with_trim_and_lowercase() {
    let texts: [&str; 12] = [
        "POP", " Samp", "sample ", "PoPulation", "x", "pOp\u{2028}", "\u{feff}pop", "samp\u{200b}",
        "\u{212a}", "populat\u{130}on", "sAMPLE", "\u{1680}samp\u{205f}",
    ];
    for text in texts {
        let expected: Option<Method> = match text.trim().to_lowercase().as_str() {
            "population" | "pop" => Some(Method::Population),
            "sample" | "samp" => Some(Method::Sample),
            _ => None,
        };
        assert_eq!(as_method(text), expected, "{:?}", text);
    }
}

#[test]
fn method_kind_rejects_unknown_text() {
    assert_eq!(method_kind("Population"), Ok(Method::Population));
    assert_eq!(method_kind(" pop "), Ok(Method::Population));
    assert_eq!(method_kind("sample"), Ok(Method::Sample));
    assert_eq!(method_kind("SAMP"), Ok(Method::Sample));
    assert_eq!(method_kind("bogus"), Err(StatsError::InvalidMethod));
    assert_eq!(method_kind(""), Err(StatsError::InvalidMethod));
}
