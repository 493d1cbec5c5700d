use scrape_core::extract::{apply_rule, extract_fields, scrape_document};
use scrape_core::schema::{FieldRule, OutputKind};

fn text_rule(name: &str, selector: &str) -> FieldRule {
    FieldRule {
        name: name.to_string(),
        selector: selector.to_string(),
        first_only: false,
        unique_only: false,
        output_kind: OutputKind::Text,
        normalize_override: None,
    }
}

const DOC: &str = "<html lang=\"en\"><head><title>My Page</title>\
<link rel=\"icon\" href=\"/favicon.ico\">\
<script>var x = 1;</script></head>\
<body><p>beta</p><p>alpha</p><p>beta</p>\
<a href=\"/one\">one</a><a href=\"https://other.test/two\">two</a>\
<style>p { color: red; }</style></body></html>";

#[test]
fn unique_only_sorts_and_dedups() {
    let mut rule = text_rule("p", "p");
    rule.unique_only = true;
    let vals = apply_rule(DOC, "https://x.test", &rule, true, false);
    assert_eq!(vals, vec!["alpha".to_string(), "beta".to_string()]);
}

#[test]
fn document_order_without_unique() {
    let rule = text_rule("p", "p");
    let vals = apply_rule(DOC, "https://x.test", &rule, true, false);
    assert_eq!(vals, vec!["beta".to_string(), "alpha".to_string(), "beta".to_string()]);
}

#[test]
fn first_only_takes_first() {
    let mut rule = text_rule("p", "p");
    rule.first_only = true;
    let vals = apply_rule(DOC, "https://x.test", &rule, true, false);
    assert_eq!(vals, vec!["beta".to_string()]);
}

#[test]
fn attribute_absolutized() {
    let rule = FieldRule {
        name: "links".to_string(),
        selector: "a[href]".to_string(),
        first_only: false,
        unique_only: false,
        output_kind: OutputKind::Attribute { attr: "href".to_string(), absolutize: true },
        normalize_override: Some(false),
    };
    let vals = apply_rule(DOC, "https://x.test", &rule, true, false);
    assert_eq!(vals, vec!["https://x.test/one".to_string(), "https://other.test/two".to_string()]);
}

#[test]
fn missing_attribute_yields_no_value() {
    let rule = FieldRule {
        name: "ids".to_string(),
        selector: "p".to_string(),
        first_only: false,
        unique_only: false,
        output_kind: OutputKind::Attribute { attr: "id".to_string(), absolutize: false },
        normalize_override: None,
    };
    let vals = apply_rule(DOC, "https://x.test", &rule, true, false);
    assert!(vals.is_empty());
}

#[test]
fn script_and_style_skipped() {
    let rule = text_rule("sc", "script");
    let vals = apply_rule(DOC, "https://x.test", &rule, true, false);
    assert!(vals.is_empty());
    let rule2 = text_rule("st", "style");
    let vals2 = apply_rule(DOC, "https://x.test", &rule2, true, false);
    assert!(vals2.is_empty());
}

#[test]
fn malformed_selector_never_fatal() {
    let rule = text_rule("bad", "p[");
    let vals = apply_rule(DOC, "https://x.test", &rule, true, false);
    assert!(vals.is_empty());
    // a malformed rule beside a good one degrades only its own field
    let rules = vec![text_rule("bad", "p["), text_rule("good", "title")];
    let fields = extract_fields(DOC, "https://x.test", &rules, true, false);
    assert_eq!(fields.len(), 2);
    assert_eq!(fields[0].0, "bad");
    assert!(fields[0].1.is_empty());
    assert_eq!(fields[1].1, vec!["My Page".to_string()]);
}

#[test]
fn html_kind_keeps_markup() {
    let rule = FieldRule {
        name: "t".to_string(),
        selector: "title".to_string(),
        first_only: true,
        unique_only: false,
        output_kind: OutputKind::Html,
        normalize_override: None,
    };
    let vals = apply_rule(DOC, "https://x.test", &rule, true, false);
    assert_eq!(vals, vec!["My Page".to_string()]);
}

#[test]
fn fields_accumulate_by_name() {
    let rules = vec![text_rule("k", "title"), text_rule("k", "p")];
    let fields = extract_fields(DOC, "https://x.test", &rules, true, false);
    assert_eq!(fields.len(), 1);
    assert_eq!(fields[0].0, "k");
    assert_eq!(fields[0].1.len(), 4);
    assert_eq!(fields[0].1[0], "My Page");
}

#[test]
fn visibility_filter_drops_unmarked() {
    let marked = "<html><body><p data-visible=\"1\">seen</p><p>hidden</p></body></html>";
    let rule = text_rule("p", "p");
    let all = apply_rule(marked, "https://x.test", &rule, true, false);
    assert_eq!(all.len(), 2);
    let filtered = apply_rule(marked, "https://x.test", &rule, true, true);
    assert_eq!(filtered, vec!["seen".to_string()]);
}

#[test]
fn scrape_document_assembles_results() {
    let selectors = vec!["p".to_string()];
    let r = scrape_document("https://x.test/dir/page", DOC, &selectors, "visible text");
    assert_eq!(r.url, "https://x.test/dir/page");
    assert_eq!(r.title, Some("My Page".to_string()));
    assert_eq!(r.lang, Some("en".to_string()));
    assert_eq!(r.favicon, Some("https://x.test/favicon.ico".to_string()));
    // links come back sorted
    assert_eq!(
        r.links,
        vec!["https://other.test/two".to_string(), "https://x.test/one".to_string()]
    );
    assert_eq!(r.text, "visible text");
    assert_eq!(r.document, DOC);
    assert_eq!(r.contents.len(), 1);
    assert_eq!(r.contents[0].0, "p");
    assert_eq!(r.contents[0].1, vec!["beta".to_string(), "alpha".to_string(), "beta".to_string()]);
}
