use crude::map::StrMap;
use crude::page::{join_kept_texts, run_extraction, selector_is_valid, BadSelector, Page, Scope};
use crude::workflow::{BindValue, ExecContext, Extraction};

fn s(x: &str) -> String {
    x.to_string()
}

fn lit(x: &str) -> BindValue<String> {
    BindValue::new(s(x))
}

const DOC: &str = "<html><body>\
    <div class=\"card\"><h2> One </h2><a href=\"/1\">go</a><p>  </p></div>\
    <div class=\"card\"><h2>Two</h2><p>first</p><p> second </p></div>\
    </body></html>";

fn only(m: StrMap<String>) -> (String, String) {
    let e = m.into_entries();
    assert_eq!(e.len(), 1);
    e.into_iter().next().unwrap()
}

#[test]
fn selectors_are_checked() {
    assert!(selector_is_valid("div.card > h2"));
    assert!(selector_is_valid("a[href]"));
    assert!(!selector_is_valid("div[["));
}

#[test]
fn page_queries() {
    let p = Page::parse(s(DOC));
    assert_eq!(p.html(), DOC);
    assert_eq!(p.count("div.card"), 2);
    assert_eq!(p.count("table"), 0);
    assert_eq!(p.texts("h2"), vec![s(" One "), s("Two")]);
}

#[test]
fn document_extractions() {
    let p = Page::parse(s(DOC));
    let ctx = ExecContext::new();
    let d = Scope::Document;
    let t = Extraction::Text { selector_string: lit("h2"), field_name: lit("title") };
    assert_eq!(only(run_extraction(&t, &p, &d, &ctx).unwrap()), (s("title"), s("One")));
    let c = Extraction::Count { selector_string: lit("p"), field_name: lit("n") };
    assert_eq!(only(run_extraction(&c, &p, &d, &ctx).unwrap()), (s("n"), s("3")));
    let a = Extraction::Attribute { selector_string: lit("a"), field_name: lit("link"), attr_str: lit("href") };
    assert_eq!(only(run_extraction(&a, &p, &d, &ctx).unwrap()), (s("link"), s("/1")));
    let a = Extraction::Attribute { selector_string: lit("a"), field_name: lit("t"), attr_str: lit("title") };
    assert_eq!(only(run_extraction(&a, &p, &d, &ctx).unwrap()), (s("t"), s("")));
    let e = Extraction::Exists { selector_string: lit("table"), field_name: lit("has") };
    assert_eq!(only(run_extraction(&e, &p, &d, &ctx).unwrap()), (s("has"), s("false")));
    let m = Extraction::MultipleText { selector_string: lit("p"), field_name: lit("ps") };
    assert_eq!(only(run_extraction(&m, &p, &d, &ctx).unwrap()), (s("ps"), s("first, second")));
    let none = Extraction::Text { selector_string: lit("table"), field_name: lit("x") };
    assert_eq!(only(run_extraction(&none, &p, &d, &ctx).unwrap()), (s("x"), s("")));
}

#[test]
fn element_scope_extractions() {
    let p = Page::parse(s(DOC));
    let ctx = ExecContext::new();
    let second = Scope::Element { selector: s("div.card"), index: 1 };
    let t = Extraction::Text { selector_string: lit("h2"), field_name: lit("title") };
    assert_eq!(only(run_extraction(&t, &p, &second, &ctx).unwrap()), (s("title"), s("Two")));
    let a = Extraction::Exists { selector_string: lit("a"), field_name: lit("link") };
    assert_eq!(only(run_extraction(&a, &p, &second, &ctx).unwrap()), (s("link"), s("false")));
    let first = Scope::Element { selector: s("div.card"), index: 0 };
    assert_eq!(only(run_extraction(&a, &p, &first, &ctx).unwrap()), (s("link"), s("true")));
    let href = Extraction::Attribute { selector_string: lit("a"), field_name: lit("h"), attr_str: lit("href") };
    assert_eq!(only(run_extraction(&href, &p, &first, &ctx).unwrap()), (s("h"), s("/1")));
    assert_eq!(only(run_extraction(&href, &p, &second, &ctx).unwrap()), (s("h"), s("")));
    let ps = Extraction::MultipleText { selector_string: lit("p"), field_name: lit("ps") };
    assert_eq!(only(run_extraction(&ps, &p, &second, &ctx).unwrap()), (s("ps"), s("first, second")));
    let n = Extraction::Count { selector_string: lit("p"), field_name: lit("n") };
    assert_eq!(only(run_extraction(&n, &p, &first, &ctx).unwrap()), (s("n"), s("1")));
}

#[test]
fn bound_field_and_selector() {
    let p = Page::parse(s(DOC));
    let mut ctx = ExecContext::new();
    ctx.bindings.insert(s("sel"), s("a"));
    ctx.bindings.insert(s("name"), s("anchor"));
    let t = Extraction::Text {
        selector_string: BindValue::with_binding(s("h2"), "sel"),
        field_name: BindValue::with_binding(s("x"), "name"),
    };
    assert_eq!(only(run_extraction(&t, &p, &Scope::Document, &ctx).unwrap()), (s("anchor"), s("go")));
}

#[test]
fn invalid_selector_is_reported() {
    let p = Page::parse(s(DOC));
    let ctx = ExecContext::new();
    let t = Extraction::Count { selector_string: lit("p[["), field_name: lit("n") };
    assert_eq!(run_extraction(&t, &p, &Scope::Document, &ctx).unwrap_err(), BadSelector { selector: s("p[[") });
}

#[test]
fn kept_texts_are_trimmed_and_joined() {
    assert_eq!(join_kept_texts(&vec![s(" a "), s(""), s("  "), s("b")]), "a, b");
    assert_eq!(join_kept_texts(&vec![]), "");
    assert_eq!(join_kept_texts(&vec![s(" ")]), "");
}

#[test]
fn extraction_methods_on_page_and_element() {
    let p = Page::parse(s(DOC));
    let ctx = ExecContext::new();
    let t = Extraction::Text { selector_string: lit("h2"), field_name: lit("title") };
    assert_eq!(only(t.execute_html(&p, &ctx).unwrap()), (s("title"), s("One")));
    assert_eq!(only(t.execute_element(&p, "div.card", 1, &ctx).unwrap()), (s("title"), s("Two")));
    let bad = Extraction::Exists { selector_string: lit(":::"), field_name: lit("x") };
    assert_eq!(bad.execute_html(&p, &ctx).unwrap_err(), BadSelector { selector: s(":::") });
}
