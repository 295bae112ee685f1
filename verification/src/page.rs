//! Page snapshots and CSS queries over them (through `scraper`), and the
//! extractions that turn query results into data fields.
use vstd::prelude::*;
use crate::map::StrMap;
use crate::text::{trim, trim_spec, dec_string, usize_to_string};
use crate::workflow::{Extraction, ExecContext, resolve_text, env_of};

verus! {

#[verifier::external_type_specification]
#[verifier::external_body]
pub struct ExHtml(scraper::Html);

/// Whether `scraper::Selector::parse` accepts a selector text.
pub uninterp spec fn css_selector_valid(selector: Seq<char>) -> bool;

/// The texts (`ElementRef::text`, concatenated) of the elements of the
/// document `html` that `selector` matches, in document order.
pub uninterp spec fn css_texts(html: Seq<char>, selector: Seq<char>) -> Seq<Seq<char>>;

/// The value of attribute `attr` on the first element of `html` that
/// `selector` matches, if there is such an element and it has the attribute.
pub uninterp spec fn css_first_attr(html: Seq<char>, selector: Seq<char>, attr: Seq<char>) -> Option<Seq<char>>;

/// As `css_texts`, among the descendants of the `index`-th element that
/// `scope` matches in `html`.
pub uninterp spec fn css_texts_within(html: Seq<char>, scope: Seq<char>, index: int, selector: Seq<char>) -> Seq<Seq<char>>;

/// As `css_first_attr`, among the descendants of the `index`-th element
/// that `scope` matches in `html`.
pub uninterp spec fn css_first_attr_within(
    html: Seq<char>,
    scope: Seq<char>,
    index: int,
    selector: Seq<char>,
    attr: Seq<char>,
) -> Option<Seq<char>>;

/// A snapshot of a page: its HTML source and the document parsed from it.
pub struct Page {
    source: String,
    doc: scraper::Html,
}

/// `scraper::Html::parse_document`; nothing is stated of the tree it builds
/// beyond what the query functions below state over the source text.
#[verifier::external_body]
fn parse_document(source: &str) -> scraper::Html {
    scraper::Html::parse_document(source)
}

/// `scraper::Selector::parse`, reduced to whether it succeeds.
#[verifier::external_body]
fn selector_parses(selector: &str) -> (b: bool)
    ensures
        b == css_selector_valid(selector@),
{
    scraper::Selector::parse(selector).is_ok()
}

/// `Html::select` then `ElementRef::text` on each match, on the document
/// parsed from `page.source`.
#[verifier::external_body]
fn select_texts(page: &Page, selector: &str) -> (r: Vec<String>)
    requires
        css_selector_valid(selector@),
    ensures
        r@.map_values(|s: String| s@) == css_texts(page.source@, selector@),
{
    let sel = scraper::Selector::parse(selector).unwrap();
    page.doc.select(&sel).map(|e| e.text().collect::<String>()).collect()
}

/// `Html::select`, first match, `ElementRef::attr`.
#[verifier::external_body]
fn select_first_attr(page: &Page, selector: &str, attr: &str) -> (r: Option<String>)
    requires
        css_selector_valid(selector@),
    ensures
        r matches Some(s) ==> css_first_attr(page.source@, selector@, attr@) == Some(s@),
        r is None ==> css_first_attr(page.source@, selector@, attr@) is None,
{
    let sel = scraper::Selector::parse(selector).unwrap();
    page.doc.select(&sel).next().and_then(|e| e.value().attr(attr)).map(|s| s.to_string())
}

/// `ElementRef::select` then `ElementRef::text`, under the `index`-th match
/// of `scope`.
#[verifier::external_body]
fn select_texts_within(page: &Page, scope: &str, index: usize, selector: &str) -> (r: Vec<String>)
    requires
        css_selector_valid(scope@),
        css_selector_valid(selector@),
        index < css_texts(page.source@, scope@).len(),
    ensures
        r@.map_values(|s: String| s@) == css_texts_within(page.source@, scope@, index as int, selector@),
{
    let scope_sel = scraper::Selector::parse(scope).unwrap();
    let sel = scraper::Selector::parse(selector).unwrap();
    let elem = page.doc.select(&scope_sel).nth(index).unwrap();
    elem.select(&sel).map(|e| e.text().collect::<String>()).collect()
}

/// `ElementRef::select`, first match, `ElementRef::attr`, under the
/// `index`-th match of `scope`.
#[verifier::external_body]
fn select_first_attr_within(page: &Page, scope: &str, index: usize, selector: &str, attr: &str) -> (r: Option<String>)
    requires
        css_selector_valid(scope@),
        css_selector_valid(selector@),
        index < css_texts(page.source@, scope@).len(),
    ensures
        r matches Some(s) ==> css_first_attr_within(page.source@, scope@, index as int, selector@, attr@) == Some(s@),
        r is None ==> css_first_attr_within(page.source@, scope@, index as int, selector@, attr@) is None,
{
    let scope_sel = scraper::Selector::parse(scope).unwrap();
    let sel = scraper::Selector::parse(selector).unwrap();
    let elem = page.doc.select(&scope_sel).nth(index).unwrap();
    elem.select(&sel).next().and_then(|e| e.value().attr(attr)).map(|s| s.to_string())
}

/// Whether a CSS selector text is one that `scraper` accepts.
pub fn selector_is_valid(selector: &str) -> (b: bool)
    ensures
        b == css_selector_valid(selector@),
{
    selector_parses(selector)
}

impl Page {
    /// The snapshot of a page with HTML source `source`.
    pub fn parse(source: String) -> (p: Page)
        ensures
            p.source() == source@,
    {
        let doc = parse_document(source.as_str());
        Page { source, doc }
    }

    /// The HTML source of the snapshot.
    pub closed spec fn source(self) -> Seq<char> {
        self.source@
    }

    /// The HTML source of the snapshot.
    pub fn html(&self) -> (s: &str)
        ensures
            s@ == self.source(),
    {
        self.source.as_str()
    }

    /// The texts of the elements that a valid selector matches.
    pub fn texts(&self, selector: &str) -> (r: Vec<String>)
        requires
            css_selector_valid(selector@),
        ensures
            r@.map_values(|s: String| s@) == css_texts(self.source(), selector@),
    {
        select_texts(self, selector)
    }

    /// How many elements a valid selector matches.
    pub fn count(&self, selector: &str) -> (n: usize)
        requires
            css_selector_valid(selector@),
        ensures
            n == css_texts(self.source(), selector@).len(),
    {
        let v = select_texts(self, selector);
        assert(v@.map_values(|s: String| s@).len() == v@.len());
        v.len()
    }
}

/// Where an extraction looks: the whole document, or the descendants of the
/// `index`-th element that a container selector matches.
#[derive(Debug, PartialEq, Eq)]
pub enum Scope {
    Document,
    Element { selector: String, index: usize },
}

pub ghost enum ScopeV {
    Document,
    Element { selector: Seq<char>, index: int },
}

impl View for Scope {
    type V = ScopeV;

    open spec fn view(&self) -> ScopeV {
        match self {
            Scope::Document => ScopeV::Document,
            Scope::Element { selector, index } => ScopeV::Element { selector: selector@, index: *index as int },
        }
    }
}

/// The texts of the matches of `selector` within `scope`.
pub open spec fn scope_texts(html: Seq<char>, scope: ScopeV, selector: Seq<char>) -> Seq<Seq<char>> {
    match scope {
        ScopeV::Document => css_texts(html, selector),
        ScopeV::Element { selector: s, index } => css_texts_within(html, s, index, selector),
    }
}

/// The attribute of the first match of `selector` within `scope`.
pub open spec fn scope_first_attr(html: Seq<char>, scope: ScopeV, selector: Seq<char>, attr: Seq<char>) -> Option<Seq<char>> {
    match scope {
        ScopeV::Document => css_first_attr(html, selector, attr),
        ScopeV::Element { selector: s, index } => css_first_attr_within(html, s, index, selector, attr),
    }
}

/// A scope that queries can be made in.
pub open spec fn scope_ok(html: Seq<char>, scope: ScopeV) -> bool {
    match scope {
        ScopeV::Document => true,
        ScopeV::Element { selector, index } => css_selector_valid(selector) && 0 <= index < css_texts(
            html,
            selector,
        ).len(),
    }
}

/// The non-empty trimmed texts among `ts`, in order.
pub open spec fn kept_texts(ts: Seq<Seq<char>>) -> Seq<Seq<char>>
    decreases ts.len(),
{
    if ts.len() == 0 {
        Seq::empty()
    } else {
        let rest = kept_texts(ts.drop_last());
        let t = trim_spec(ts.last());
        if t.len() > 0 {
            rest.push(t)
        } else {
            rest
        }
    }
}

/// The parts joined by `sep`.
pub open spec fn join_spec(parts: Seq<Seq<char>>, sep: Seq<char>) -> Seq<char>
    decreases parts.len(),
{
    if parts.len() == 0 {
        Seq::empty()
    } else if parts.len() == 1 {
        parts[0]
    } else {
        join_spec(parts.drop_last(), sep) + sep + parts.last()
    }
}

/// The value that an extraction stores, given the texts of the matches and
/// the attribute of the first match.
pub open spec fn extraction_value(e: Extraction, texts: Seq<Seq<char>>, first_attr: Option<Seq<char>>) -> Seq<char> {
    match e {
        Extraction::Text { .. } => if texts.len() > 0 {
            trim_spec(texts[0])
        } else {
            Seq::empty()
        },
        Extraction::Count { .. } => dec_string(texts.len()),
        Extraction::Attribute { .. } => match first_attr {
            Some(a) => a,
            None => Seq::empty(),
        },
        Extraction::Exists { .. } => if texts.len() > 0 {
            "true"@
        } else {
            "false"@
        },
        Extraction::MultipleText { .. } => join_spec(kept_texts(texts), ", "@),
    }
}

/// The attribute name that an extraction reads (empty for the others).
pub open spec fn attr_param_text(e: Extraction, env: Option<Map<Seq<char>, Seq<char>>>) -> Seq<char> {
    match e {
        Extraction::Attribute { attr_str, .. } => resolve_text(attr_str, env),
        _ => Seq::empty(),
    }
}

/// The value an extraction takes on `page` within `scope` in context `env`,
/// its selector being valid.
pub open spec fn extraction_result(
    e: Extraction,
    html: Seq<char>,
    scope: ScopeV,
    env: Option<Map<Seq<char>, Seq<char>>>,
) -> Seq<char> {
    let sel = resolve_text(e.selector_param(), env);
    extraction_value(
        e,
        scope_texts(html, scope, sel),
        scope_first_attr(html, scope, sel, attr_param_text(e, env)),
    )
}

/// The texts of `ts`, trimmed, empty ones dropped, joined with `", "`.
pub fn join_kept_texts(ts: &Vec<String>) -> (r: String)
    ensures
        r@ == join_spec(kept_texts(ts@.map_values(|s: String| s@)), ", "@),
{
    let ghost tv = ts@.map_values(|s: String| s@);
    let mut out = String::new();
    let mut any = false;
    let mut i: usize = 0;
    while i < ts.len()
        invariant
            i <= ts@.len(),
            tv == ts@.map_values(|s: String| s@),
            out@ == join_spec(kept_texts(tv.subrange(0, i as int)), ", "@),
            any == (kept_texts(tv.subrange(0, i as int)).len() > 0),
        decreases ts@.len() - i,
    {
        let t = trim(ts[i].as_str());
        let ghost pre = tv.subrange(0, i as int);
        let ghost nxt = tv.subrange(0, i + 1);
        assert(nxt.drop_last() =~= pre);
        assert(nxt.last() == ts@[i as int]@);
        if !t.as_str().is_empty() {
            if any {
                out.append(", ");
            }
            out.append(t.as_str());
            proof {
                let parts = kept_texts(pre);
                assert(kept_texts(nxt) == parts.push(t@));
                if parts.len() > 0 {
                    assert(parts.push(t@).drop_last() =~= parts);
                } else {
                    assert(out@ =~= t@);
                }
            }
            any = true;
        } else {
            proof {
                assert(kept_texts(nxt) == kept_texts(pre));
            }
        }
        i = i + 1;
    }
    assert(tv.subrange(0, ts@.len() as int) =~= tv);
    out
}

/// Why a query could not be made.
#[derive(Debug, PartialEq, Eq)]
pub struct BadSelector {
    pub selector: String,
}

/// Runs an extraction on `page` within `scope`: the map from the resolved
/// field name to the extracted value, or the resolved selector when it is
/// not valid CSS.
pub fn run_extraction(e: &Extraction, page: &Page, scope: &Scope, ctx: &ExecContext) -> (r: Result<StrMap<String>, BadSelector>)
    requires
        scope_ok(page.source(), scope@),
    ensures
        ({
            let env = env_of(Some(ctx));
            let sel = resolve_text(e.selector_param(), env);
            match r {
                Ok(m) => css_selector_valid(sel) && m.texts() == map![
                    resolve_text(e.field_param(), env) => extraction_result(*e, page.source(), scope@, env)],
                Err(b) => !css_selector_valid(sel) && b.selector@ == sel,
            }
        }),
{
    let sel = e.selector().resolve(Some(ctx));
    if !selector_parses(sel) {
        return Err(BadSelector { selector: sel.to_string() });
    }
    let field = e.field().resolve(Some(ctx));
    let texts: Vec<String> = match scope {
        Scope::Document => select_texts(page, sel),
        Scope::Element { selector, index } => select_texts_within(page, selector.as_str(), *index, sel),
    };
    let ghost tv = texts@.map_values(|s: String| s@);
    assert(tv.len() == texts@.len());
    let value: String = match e {
        Extraction::Text { .. } => {
            if texts.len() > 0 {
                assert(tv[0] == texts@[0]@);
                trim(texts[0].as_str())
            } else {
                String::new()
            }
        },
        Extraction::Count { .. } => usize_to_string(texts.len()),
        Extraction::Attribute { attr_str, .. } => {
            let attr = attr_str.resolve(Some(ctx));
            let a = match scope {
                Scope::Document => select_first_attr(page, sel, attr),
                Scope::Element { selector, index } => select_first_attr_within(
                    page,
                    selector.as_str(),
                    *index,
                    sel,
                    attr,
                ),
            };
            match a {
                Some(s) => s,
                None => String::new(),
            }
        },
        Extraction::Exists { .. } => {
            if texts.len() > 0 {
                String::from_str("true")
            } else {
                String::from_str("false")
            }
        },
        Extraction::MultipleText { .. } => join_kept_texts(&texts),
    };
    let mut m: StrMap<String> = StrMap::new();
    let ghost fv = field@;
    m.insert(field.to_string(), value);
    proof {
        assert(m.texts() =~= map![fv => value@]);
    }
    Ok(m)
}

impl Extraction {
    /// Runs the extraction on the whole page.
    pub fn execute_html(&self, page: &Page, ctx: &ExecContext) -> (r: Result<StrMap<String>, BadSelector>)
        ensures
            ({
                let env = env_of(Some(ctx));
                let sel = resolve_text(self.selector_param(), env);
                match r {
                    Ok(m) => css_selector_valid(sel) && m.texts() == map![
                        resolve_text(self.field_param(), env) => extraction_result(*self, page.source(), ScopeV::Document, env)],
                    Err(b) => !css_selector_valid(sel) && b.selector@ == sel,
                }
            }),
    {
        run_extraction(self, page, &Scope::Document, ctx)
    }

    /// Runs the extraction among the descendants of the `index`-th element
    /// that the valid selector `container` matches.
    pub fn execute_element(&self, page: &Page, container: &str, index: usize, ctx: &ExecContext) -> (r: Result<
        StrMap<String>,
        BadSelector,
    >)
        requires
            css_selector_valid(container@),
            index < css_texts(page.source(), container@).len(),
        ensures
            ({
                let env = env_of(Some(ctx));
                let sel = resolve_text(self.selector_param(), env);
                let scope = ScopeV::Element { selector: container@, index: index as int };
                match r {
                    Ok(m) => css_selector_valid(sel) && m.texts() == map![
                        resolve_text(self.field_param(), env) => extraction_result(*self, page.source(), scope, env)],
                    Err(b) => !css_selector_valid(sel) && b.selector@ == sel,
                }
            }),
    {
        let sc = Scope::Element { selector: container.to_string(), index };
        run_extraction(self, page, &sc, ctx)
    }
}

} // verus!
