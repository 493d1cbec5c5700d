//! The DOM extractor: runs declarative field rules against a parsed
//! document and produces an insertion-ordered name-to-values mapping.
//!
//! CSS selection itself is delegated to the `scraper` crate behind one
//! trusted wrapper; everything the rules say — skipping `script`/`style`,
//! visibility filtering, output-kind dispatch, normalization,
//! absolutization, dropping empties, `firstOnly`, `uniqueOnly`, and
//! accumulation by name — is verified here.

use vstd::prelude::*;
use vstd::relations::sorted_by;
use crate::schema::{FieldRule, FieldRuleView, OutputKind, OutputKindView, ScrapeResults};
use crate::textnorm::{normalize, spec_normalize};
use crate::utils::{url_normalize, spec_url_normalize, origin_of, spec_origin_of};
use crate::strorder::{
    sort_strings, dedup_adjacent, spec_dedup_adjacent, lex_leq_f, lemma_lex_total,
    lemma_dedup_adjacent, adj_distinct,
};
use vstd::string::StrSliceExecFns;
use vstd::string::StringExecFns;

verus! {

broadcast use vstd::seq_lib::group_to_multiset_ensures;

/// One element matched by a selector, as the DOM library reports it: tag
/// name, concatenated text, inner markup, the requested attribute's value,
/// and the visibility-marker attribute's value.
pub struct RawElem {
    pub tag: String,
    pub text: String,
    pub inner_html: String,
    pub attr_val: Option<String>,
    pub marker_val: Option<String>,
}

impl View for RawElem {
    type V = (Seq<char>, Seq<char>, Seq<char>, Option<Seq<char>>, Option<Seq<char>>);

    open spec fn view(&self) -> (Seq<char>, Seq<char>, Seq<char>, Option<Seq<char>>, Option<
        Seq<char>,
    >) {
        (self.tag@, self.text@, self.inner_html@, self.attr_val.deep_view(),
        self.marker_val.deep_view())
    }
}

/// What the DOM library reports for a document, selector, attribute name
/// and marker-attribute name: `None` exactly when the selector is
/// malformed, else the matched elements in document order.  A function of
/// the four strings alone.
pub uninterp spec fn raw_elems(doc: Seq<char>, sel: Seq<char>, attr: Seq<char>, marker: Seq<char>)
    -> Option<Seq<(Seq<char>, Seq<char>, Seq<char>, Option<Seq<char>>, Option<Seq<char>>)>>;

/// Relies on scraper's `Html::parse_document`, `Selector::parse` and
/// `Html::select` with `ElementRef`'s accessors: parsing and selection are
/// deterministic in the document and selector strings, `Selector::parse`
/// fails exactly on malformed CSS, and matches come in document order.
#[verifier::external_body]
fn select_raw(doc: &str, sel: &str, attr: &str, marker: &str) -> (r: Option<Vec<RawElem>>)
    ensures
        match r {
            Some(v) => raw_elems(doc@, sel@, attr@, marker@) == Some(
                v@.map(|i: int, e: RawElem| e@),
            ),
            None => raw_elems(doc@, sel@, attr@, marker@) is None,
        },
{
    let parsed = scraper::Html::parse_document(doc);
    let selector = match scraper::Selector::parse(sel) {
        Ok(s) => s,
        Err(_) => return None,
    };
    Some(parsed.select(&selector).map(|e| RawElem {
        tag: e.value().name().to_string(),
        text: e.text().collect::<String>(),
        inner_html: e.inner_html(),
        attr_val: e.attr(attr).map(|v| v.to_string()),
        marker_val: e.attr(marker).map(|v| v.to_string()),
    }).collect())
}

/// The attribute a rule asks the DOM library for; empty when the rule does
/// not read an attribute.
pub open spec fn spec_attr_name(k: OutputKindView) -> Seq<char> {
    match k {
        OutputKindView::Attribute { attr, .. } => attr,
        _ => ""@,
    }
}

/// Name of the attribute that marks an element as visible at render time.
pub open spec fn marker_name() -> Seq<char> {
    "data-visible"@
}

/// Effective normalization for a rule: the field-level override wins, then
/// the output kind's own default (markup is never normalized), then the
/// request-level default.
pub open spec fn spec_effective_normalize(rule: FieldRuleView, default: bool) -> bool {
    match rule.normalize_override {
        Some(b) => b,
        None => match rule.output_kind {
            OutputKindView::Html => false,
            _ => default,
        },
    }
}

/// An element passes the fixed filters: its tag is not `script` or `style`,
/// and, when the visibility filter is active, it carries the marker.
pub open spec fn spec_keep_elem(
    e: (Seq<char>, Seq<char>, Seq<char>, Option<Seq<char>>, Option<Seq<char>>),
    filter_visible: bool,
) -> bool {
    e.0 != "script"@ && e.0 != "style"@ && (filter_visible ==> e.4 is Some)
}

/// The raw output value one element yields under an output kind; a missing
/// attribute yields no value, never an error.
pub open spec fn spec_elem_value(
    e: (Seq<char>, Seq<char>, Seq<char>, Option<Seq<char>>, Option<Seq<char>>),
    kind: OutputKindView,
    base: Seq<char>,
) -> Option<Seq<char>> {
    match kind {
        OutputKindView::Text => Some(e.1),
        OutputKindView::Html => Some(e.2),
        OutputKindView::Attribute { attr, absolutize } => match e.3 {
            Some(v) => Some(
                if absolutize {
                    spec_url_normalize(base, v)
                } else {
                    v
                },
            ),
            None => None,
        },
    }
}

/// The values a rule collects from the elements starting at `i`, in
/// document order, before `firstOnly`/`uniqueOnly` post-processing:
/// filtered, dispatched on the output kind, normalized, empties dropped.
pub open spec fn collect_from(
    elems: Seq<(Seq<char>, Seq<char>, Seq<char>, Option<Seq<char>>, Option<Seq<char>>)>,
    i: int,
    rule: FieldRuleView,
    base: Seq<char>,
    default: bool,
    filter_visible: bool,
) -> Seq<Seq<char>>
    decreases elems.len() - i,
{
    if i < 0 || i >= elems.len() {
        Seq::empty()
    } else {
        let rest = collect_from(elems, i + 1, rule, base, default, filter_visible);
        if !spec_keep_elem(elems[i], filter_visible) {
            rest
        } else {
            match spec_elem_value(elems[i], rule.output_kind, base) {
                None => rest,
                Some(v0) => {
                    let v = if spec_effective_normalize(rule, default) {
                        spec_normalize(v0)
                    } else {
                        v0
                    };
                    if v.len() == 0 {
                        rest
                    } else {
                        seq![v] + rest
                    }
                },
            }
        }
    }
}

/// Whether a rule's visibility filter is active: the page was rendered and
/// the rule does not target the whole document.
pub open spec fn spec_filter_active(rule: FieldRuleView, rendered: bool) -> bool {
    rendered && rule.selector != "html"@
}

/// The ordered value sequence one rule produces for a document: the
/// collected values, cut to the first under `firstOnly`, sorted and
/// adjacent-deduplicated under `uniqueOnly`.  A malformed selector yields
/// no values, never an error.
pub open spec fn spec_rule_values(
    doc: Seq<char>,
    base: Seq<char>,
    rule: FieldRuleView,
    default: bool,
    rendered: bool,
) -> Seq<Seq<char>> {
    match raw_elems(doc, rule.selector, spec_attr_name(rule.output_kind), marker_name()) {
        None => Seq::empty(),
        Some(elems) => {
            let c = collect_from(
                elems,
                0,
                rule,
                base,
                default,
                spec_filter_active(rule, rendered),
            );
            let c1 = if rule.first_only && c.len() > 0 {
                seq![c[0]]
            } else {
                c
            };
            if rule.unique_only {
                spec_dedup_adjacent(c1.sort_by(lex_leq_f()))
            } else {
                c1
            }
        },
    }
}

/// Law: a `uniqueOnly` rule's output is sorted and holds no adjacent
/// duplicates, whatever the document.
pub proof fn lemma_unique_only_sorted(
    doc: Seq<char>,
    base: Seq<char>,
    rule: FieldRuleView,
    default: bool,
    rendered: bool,
)
    requires
        rule.unique_only,
    ensures
        sorted_by(spec_rule_values(doc, base, rule, default, rendered), lex_leq_f()),
        adj_distinct(spec_rule_values(doc, base, rule, default, rendered)),
{
    lemma_lex_total();
    match raw_elems(doc, rule.selector, spec_attr_name(rule.output_kind), marker_name()) {
        None => {
        },
        Some(elems) => {
            let c = collect_from(elems, 0, rule, base, default, spec_filter_active(rule, rendered));
            let c1 = if rule.first_only && c.len() > 0 {
                seq![c[0]]
            } else {
                c
            };
            c1.lemma_sort_by_ensures(lex_leq_f());
            lemma_dedup_adjacent(c1.sort_by(lex_leq_f()));
        },
    }
}

/// String equality, character by character.
pub fn str_eq(a: &str, b: &str) -> (r: bool)
    ensures
        r == (a@ == b@),
{
    let alen: usize = a.unicode_len();
    let blen: usize = b.unicode_len();
    if alen != blen {
        return false;
    }
    let mut i: usize = 0;
    while i < alen
        invariant
            alen == a@.len(),
            alen == b@.len(),
            i <= alen,
            forall|j: int| 0 <= j < i ==> a@[j] == b@[j],
        decreases alen - i,
    {
        if a.get_char(i) != b.get_char(i) {
            return false;
        }
        i = i + 1;
    }
    proof {
        assert(a@ =~= b@);
    }
    true
}

/// Runs one field rule against a document.  The result is exactly what the
/// rule's declarative semantics owe; under `uniqueOnly` it is sorted with
/// no adjacent duplicates.
pub fn apply_rule(
    doc: &str,
    base: &str,
    rule: &FieldRule,
    normalize_default: bool,
    rendered: bool,
) -> (r: Vec<String>)
    ensures
        r.deep_view() == spec_rule_values(doc@, base@, rule@, normalize_default, rendered),
        rule.unique_only ==> sorted_by(r.deep_view(), lex_leq_f()) && adj_distinct(r.deep_view()),
{
    let attr: &str = match &rule.output_kind {
        OutputKind::Attribute { attr, absolutize } => attr.as_str(),
        _ => "",
    };
    let elems_opt = select_raw(doc, rule.selector.as_str(), attr, "data-visible");
    let out: Vec<String> = match elems_opt {
        None => {
            let empty_out: Vec<String> = Vec::new();
            proof {
                assert(empty_out.deep_view() =~= Seq::<Seq<char>>::empty());
            }
            empty_out
        },
        Some(elems) => {
            let ghost ev = elems@.map(|i: int, e: RawElem| e@);
            let filter_visible = rendered && !str_eq(rule.selector.as_str(), "html");
            let n: usize = elems.len();
            let mut collected: Vec<String> = Vec::new();
            let mut i: usize = 0;
            proof {
                assert(collected.deep_view() =~= Seq::<Seq<char>>::empty());
            }
            while i < n
                invariant
                    n == elems@.len(),
                    ev == elems@.map(|i: int, e: RawElem| e@),
                    i <= n,
                    filter_visible == spec_filter_active(rule@, rendered),
                    collect_from(ev, 0, rule@, base@, normalize_default, filter_visible)
                        == collected.deep_view() + collect_from(
                        ev,
                        i as int,
                        rule@,
                        base@,
                        normalize_default,
                        filter_visible,
                    ),
                decreases n - i,
            {
                let ghost col0 = collected.deep_view();
                let e = &elems[i];
                proof {
                    assert(ev[i as int] == elems@[i as int]@);
                }
                let mut skip = false;
                if str_eq(e.tag.as_str(), "script") || str_eq(e.tag.as_str(), "style") {
                    skip = true;
                }
                if filter_visible && e.marker_val.is_none() {
                    skip = true;
                }
                if !skip {
                    let value_opt: Option<String> = match &rule.output_kind {
                        OutputKind::Text => Some(e.text.clone()),
                        OutputKind::Html => Some(e.inner_html.clone()),
                        OutputKind::Attribute { attr: a, absolutize } => match &e.attr_val {
                            Some(v) => Some(
                                if *absolutize {
                                    url_normalize(base, v.as_str())
                                } else {
                                    v.clone()
                                },
                            ),
                            None => None,
                        },
                    };
                    match value_opt {
                        Some(v0) => {
                            let v = if effective_normalize(rule, normalize_default) {
                                normalize(v0.as_str())
                            } else {
                                v0
                            };
                            if !v.as_str().is_empty() {
                                collected.push(v);
                                proof {
                                    let tail = collect_from(
                                        ev,
                                        i as int + 1,
                                        rule@,
                                        base@,
                                        normalize_default,
                                        filter_visible,
                                    );
                                    assert(collected.deep_view() =~= col0.push(
                                        collected.deep_view()[col0.len() as int],
                                    ));
                                    assert(col0 + (seq![
                                        collected.deep_view()[col0.len() as int],
                                    ] + tail) =~= collected.deep_view() + tail);
                                }
                            }
                        },
                        None => {
                        },
                    }
                }
                i = i + 1;
            }
            proof {
                assert(collected.deep_view() + collect_from(
                    ev,
                    n as int,
                    rule@,
                    base@,
                    normalize_default,
                    filter_visible,
                ) =~= collected.deep_view());
            }
            collected
        },
    };
    let cut: Vec<String> = if rule.first_only && out.len() > 1 {
        let mut first: Vec<String> = Vec::new();
        first.push(out[0].clone());
        proof {
            assert(first.deep_view() =~= seq![out.deep_view()[0]]);
        }
        first
    } else {
        proof {
            if rule.first_only && out.deep_view().len() > 0 {
                assert(out.deep_view() =~= seq![out.deep_view()[0]]);
            }
        }
        out
    };
    if rule.unique_only {
        let sorted = sort_strings(&cut);
        let r = dedup_adjacent(&sorted);
        proof {
            lemma_lex_total();
            cut.deep_view().lemma_sort_by_ensures(lex_leq_f());
            lemma_dedup_adjacent(cut.deep_view().sort_by(lex_leq_f()));
            if cut.deep_view().len() == 0 {
                assert(cut.deep_view().to_multiset().len() == cut.deep_view().len());
                assert(cut.deep_view().sort_by(lex_leq_f()).to_multiset().len()
                    == cut.deep_view().sort_by(lex_leq_f()).len());
                assert(cut.deep_view().sort_by(lex_leq_f()).len() == 0);
                assert(cut.deep_view().sort_by(lex_leq_f()) =~= Seq::<Seq<char>>::empty());
            }
        }
        r
    } else {
        cut
    }
}

/// Effective normalization decision, mirroring `spec_effective_normalize`.
fn effective_normalize(rule: &FieldRule, default: bool) -> (r: bool)
    ensures
        r == spec_effective_normalize(rule@, default),
{
    match rule.normalize_override {
        Some(b) => b,
        None => match &rule.output_kind {
            OutputKind::Html => false,
            _ => default,
        },
    }
}

/// Adds values under a name in the ordered mapping: appended to the
/// existing entry when the name is present, else as a new last entry.
pub open spec fn spec_upsert(
    acc: Seq<(Seq<char>, Seq<Seq<char>>)>,
    name: Seq<char>,
    vals: Seq<Seq<char>>,
) -> Seq<(Seq<char>, Seq<Seq<char>>)>
    decreases acc.len(),
{
    if acc.len() == 0 {
        seq![(name, vals)]
    } else if acc[0].0 == name {
        seq![(name, acc[0].1 + vals)] + acc.drop_first()
    } else {
        seq![acc[0]] + spec_upsert(acc.drop_first(), name, vals)
    }
}

proof fn lemma_upsert_no_match(
    acc: Seq<(Seq<char>, Seq<Seq<char>>)>,
    name: Seq<char>,
    vals: Seq<Seq<char>>,
)
    requires
        forall|t: int| 0 <= t < acc.len() ==> (#[trigger] acc[t]).0 != name,
    ensures
        spec_upsert(acc, name, vals) == acc + seq![(name, vals)],
    decreases acc.len(),
{
    if acc.len() == 0 {
        assert(spec_upsert(acc, name, vals) =~= acc + seq![(name, vals)]);
    } else {
        lemma_upsert_no_match(acc.drop_first(), name, vals);
        assert(seq![acc[0]] + (acc.drop_first() + seq![(name, vals)]) =~= acc + seq![
            (name, vals),
        ]);
    }
}

proof fn lemma_upsert_match(
    acc: Seq<(Seq<char>, Seq<Seq<char>>)>,
    name: Seq<char>,
    vals: Seq<Seq<char>>,
    j: int,
)
    requires
        0 <= j < acc.len(),
        acc[j].0 == name,
        forall|t: int| 0 <= t < j ==> (#[trigger] acc[t]).0 != name,
    ensures
        spec_upsert(acc, name, vals) == acc.update(j, (name, acc[j].1 + vals)),
    decreases j,
{
    if j == 0 {
        assert(spec_upsert(acc, name, vals) =~= acc.update(0, (name, acc[0].1 + vals)));
    } else {
        lemma_upsert_match(acc.drop_first(), name, vals, j - 1);
        assert(seq![acc[0]] + acc.drop_first().update(j - 1, (name, acc[j].1 + vals))
            =~= acc.update(j, (name, acc[j].1 + vals)));
    }
}

/// Appends `vals` to the entry named `name`, or pushes a new entry.
fn upsert(acc: &mut Vec<(String, Vec<String>)>, name: &String, vals: Vec<String>)
    ensures
        final(acc).deep_view() == spec_upsert(old(acc).deep_view(), name@, vals.deep_view()),
{
    let ghost acc0 = acc.deep_view();
    let n: usize = acc.len();
    let mut j: usize = 0;
    while j < n && !str_eq(acc[j].0.as_str(), name.as_str())
        invariant
            n == acc@.len(),
            j <= n,
            acc.deep_view() == acc0,
            forall|t: int| 0 <= t < j ==> (#[trigger] acc.deep_view()[t]).0 != name@,
        decreases n - j,
    {
        j = j + 1;
    }
    if j == n {
        acc.push((name.clone(), vals));
        proof {
            lemma_upsert_no_match(acc0, name@, vals.deep_view());
            assert(acc.deep_view() =~= acc0 + seq![(name@, vals.deep_view())]);
        }
    } else {
        proof {
            assert(acc.deep_view()[j as int].0 == name@);
        }
        let entry = acc.remove(j);
        let mut vs = entry.1;
        let ghost vs0 = vs.deep_view();
        let m: usize = vals.len();
        let mut k: usize = 0;
        proof {
            assert(vs.deep_view() =~= vs0 + vals.deep_view().subrange(0, 0));
        }
        while k < m
            invariant
                m == vals@.len(),
                k <= m,
                vs.deep_view() == vs0 + vals.deep_view().subrange(0, k as int),
            decreases m - k,
        {
            let x = vals[k].clone();
            let ghost pre = vs.deep_view();
            vs.push(x);
            proof {
                assert(vs.deep_view() =~= pre.push(vals.deep_view()[k as int]));
                assert(pre.push(vals.deep_view()[k as int])
                    =~= vs0 + vals.deep_view().subrange(0, k as int + 1));
            }
            k = k + 1;
        }
        proof {
            assert(vals.deep_view().subrange(0, m as int) =~= vals.deep_view());
        }
        acc.insert(j, (entry.0, vs));
        proof {
            lemma_upsert_match(acc0, name@, vals.deep_view(), j as int);
            assert(acc.deep_view() =~= acc0.update(
                j as int,
                (name@, acc0[j as int].1 + vals.deep_view()),
            ));
        }
    }
}

/// The mapping the extractor owes after running the rules from `i` on,
/// starting from the accumulated mapping `acc`.
pub open spec fn spec_extract_from(
    doc: Seq<char>,
    base: Seq<char>,
    rules: Seq<FieldRuleView>,
    i: int,
    default: bool,
    rendered: bool,
    acc: Seq<(Seq<char>, Seq<Seq<char>>)>,
) -> Seq<(Seq<char>, Seq<Seq<char>>)>
    decreases rules.len() - i,
{
    if i < 0 || i >= rules.len() {
        acc
    } else {
        spec_extract_from(
            doc,
            base,
            rules,
            i + 1,
            default,
            rendered,
            spec_upsert(acc, rules[i].name, spec_rule_values(doc, base, rules[i], default, rendered)),
        )
    }
}

/// The mapping the extractor owes for a document and a rule sequence.
pub open spec fn spec_extract(
    doc: Seq<char>,
    base: Seq<char>,
    rules: Seq<FieldRuleView>,
    default: bool,
    rendered: bool,
) -> Seq<(Seq<char>, Seq<Seq<char>>)> {
    spec_extract_from(doc, base, rules, 0, default, rendered, Seq::empty())
}

/// Runs every field rule in declared order and accumulates the results by
/// name into an insertion-ordered mapping.
pub fn extract_fields(
    doc: &str,
    base: &str,
    rules: &Vec<FieldRule>,
    normalize_default: bool,
    rendered: bool,
) -> (out: Vec<(String, Vec<String>)>)
    ensures
        out.deep_view() == spec_extract(
            doc@,
            base@,
            rules@.map_values(|r: FieldRule| r@),
            normalize_default,
            rendered,
        ),
{
    let ghost rv = rules@.map_values(|r: FieldRule| r@);
    let mut acc: Vec<(String, Vec<String>)> = Vec::new();
    let n: usize = rules.len();
    let mut i: usize = 0;
    proof {
        assert(acc.deep_view() =~= Seq::<(Seq<char>, Seq<Seq<char>>)>::empty());
    }
    while i < n
        invariant
            n == rules@.len(),
            i <= n,
            rv == rules@.map_values(|r: FieldRule| r@),
            spec_extract(doc@, base@, rv, normalize_default, rendered) == spec_extract_from(
                doc@,
                base@,
                rv,
                i as int,
                normalize_default,
                rendered,
                acc.deep_view(),
            ),
        decreases n - i,
    {
        proof {
            assert(rv[i as int] == rules@[i as int]@);
        }
        let vals = apply_rule(doc, base, &rules[i], normalize_default, rendered);
        upsert(&mut acc, &rules[i].name, vals);
        i = i + 1;
    }
    acc
}

/// The rule behind the `links` output: every `href` of an anchor,
/// absolutized against the final URL's origin.
pub open spec fn links_rule() -> FieldRuleView {
    FieldRuleView {
        name: "links"@,
        selector: "a[href]"@,
        first_only: false,
        unique_only: false,
        output_kind: OutputKindView::Attribute { attr: "href"@, absolutize: true },
        normalize_override: Some(false),
    }
}

/// The rule behind the `favicon` output: the first icon link's `href`,
/// absolutized.
pub open spec fn favicon_rule() -> FieldRuleView {
    FieldRuleView {
        name: "favicon"@,
        selector: "link[rel=\"icon\"]"@,
        first_only: true,
        unique_only: false,
        output_kind: OutputKindView::Attribute { attr: "href"@, absolutize: true },
        normalize_override: Some(false),
    }
}

/// The rule behind the `title` output: the first `title` element's markup.
pub open spec fn title_rule() -> FieldRuleView {
    FieldRuleView {
        name: "title"@,
        selector: "title"@,
        first_only: true,
        unique_only: false,
        output_kind: OutputKindView::Html,
        normalize_override: None,
    }
}

/// The rule behind the `lang` output: the root element's `lang` attribute.
pub open spec fn lang_rule() -> FieldRuleView {
    FieldRuleView {
        name: "lang"@,
        selector: "html"@,
        first_only: true,
        unique_only: false,
        output_kind: OutputKindView::Attribute { attr: "lang"@, absolutize: false },
        normalize_override: Some(false),
    }
}

/// The rule a requested content selector turns into: the normalized text
/// of every match, keyed by the selector itself.
pub open spec fn text_rule(sel: Seq<char>) -> FieldRuleView {
    FieldRuleView {
        name: sel,
        selector: sel,
        first_only: false,
        unique_only: false,
        output_kind: OutputKindView::Text,
        normalize_override: None,
    }
}

/// The first collected value, if any.
pub open spec fn first_opt(s: Seq<Seq<char>>) -> Option<Seq<char>> {
    if s.len() == 0 {
        None
    } else {
        Some(s[0])
    }
}

fn make_links_rule() -> (r: FieldRule)
    ensures
        r@ == links_rule(),
{
    FieldRule {
        name: String::from_str("links"),
        selector: String::from_str("a[href]"),
        first_only: false,
        unique_only: false,
        output_kind: OutputKind::Attribute { attr: String::from_str("href"), absolutize: true },
        normalize_override: Some(false),
    }
}

fn make_favicon_rule() -> (r: FieldRule)
    ensures
        r@ == favicon_rule(),
{
    FieldRule {
        name: String::from_str("favicon"),
        selector: String::from_str("link[rel=\"icon\"]"),
        first_only: true,
        unique_only: false,
        output_kind: OutputKind::Attribute { attr: String::from_str("href"), absolutize: true },
        normalize_override: Some(false),
    }
}

fn make_title_rule() -> (r: FieldRule)
    ensures
        r@ == title_rule(),
{
    FieldRule {
        name: String::from_str("title"),
        selector: String::from_str("title"),
        first_only: true,
        unique_only: false,
        output_kind: OutputKind::Html,
        normalize_override: None,
    }
}

fn make_lang_rule() -> (r: FieldRule)
    ensures
        r@ == lang_rule(),
{
    FieldRule {
        name: String::from_str("lang"),
        selector: String::from_str("html"),
        first_only: true,
        unique_only: false,
        output_kind: OutputKind::Attribute { attr: String::from_str("lang"), absolutize: false },
        normalize_override: Some(false),
    }
}

fn make_text_rule(sel: String) -> (r: FieldRule)
    ensures
        r@ == text_rule(sel@),
{
    let name = sel.clone();
    FieldRule {
        name,
        selector: sel,
        first_only: false,
        unique_only: false,
        output_kind: OutputKind::Text,
        normalize_override: None,
    }
}

fn first_string(vals: &Vec<String>) -> (r: Option<String>)
    ensures
        r.deep_view() == first_opt(vals.deep_view()),
{
    if vals.len() == 0 {
        None
    } else {
        Some(vals[0].clone())
    }
}

/// The sorted link list a scrape owes for a final URL and document.
pub open spec fn spec_scrape_links(url: Seq<char>, doc: Seq<char>) -> Seq<Seq<char>> {
    spec_rule_values(doc, spec_origin_of(url), links_rule(), true, false).sort_by(lex_leq_f())
}

/// Assembles the fixed part of a scrape result — links, favicon, title
/// and language from the rules above — around an already-extracted
/// contents mapping.
pub fn assemble_results(
    final_url: &str,
    document: &str,
    text: &str,
    contents: Vec<(String, Vec<String>)>,
) -> (r: ScrapeResults)
    ensures
        r@.url == final_url@,
        r@.document == document@,
        r@.text == text@,
        r@.contents == contents.deep_view(),
        r@.links == spec_scrape_links(final_url@, document@),
        r@.favicon == first_opt(
            spec_rule_values(document@, spec_origin_of(final_url@), favicon_rule(), true, false),
        ),
        r@.title == first_opt(
            spec_rule_values(document@, spec_origin_of(final_url@), title_rule(), true, false),
        ),
        r@.lang == first_opt(
            spec_rule_values(document@, spec_origin_of(final_url@), lang_rule(), true, false),
        ),
{
    let base = origin_of(final_url);
    let links_vals = apply_rule(document, base.as_str(), &make_links_rule(), true, false);
    let links = sort_strings(&links_vals);
    let favicon_vals = apply_rule(document, base.as_str(), &make_favicon_rule(), true, false);
    let favicon = first_string(&favicon_vals);
    let title_vals = apply_rule(document, base.as_str(), &make_title_rule(), true, false);
    let title = first_string(&title_vals);
    let lang_vals = apply_rule(document, base.as_str(), &make_lang_rule(), true, false);
    let lang = first_string(&lang_vals);
    ScrapeResults {
        url: String::from_str(final_url),
        title,
        contents,
        lang,
        favicon,
        links,
        document: String::from_str(document),
        text: String::from_str(text),
    }
}

/// Assembles a scrape result from what the browser reported: the resolved
/// URL, the serialized document, the requested content selectors and the
/// visible text.  `contents` runs one text rule per requested selector.
pub fn scrape_document(
    final_url: &str,
    document: &str,
    selectors: &Vec<String>,
    text: &str,
) -> (r: ScrapeResults)
    ensures
        r@.url == final_url@,
        r@.document == document@,
        r@.text == text@,
        r@.links == spec_scrape_links(final_url@, document@),
        r@.favicon == first_opt(
            spec_rule_values(document@, spec_origin_of(final_url@), favicon_rule(), true, false),
        ),
        r@.title == first_opt(
            spec_rule_values(document@, spec_origin_of(final_url@), title_rule(), true, false),
        ),
        r@.lang == first_opt(
            spec_rule_values(document@, spec_origin_of(final_url@), lang_rule(), true, false),
        ),
        r@.contents == spec_extract(
            document@,
            spec_origin_of(final_url@),
            selectors.deep_view().map_values(|s: Seq<char>| text_rule(s)),
            true,
            false,
        ),
{
    let base = origin_of(final_url);
    let ghost sv = selectors.deep_view();
    let mut rules: Vec<FieldRule> = Vec::new();
    let ns: usize = selectors.len();
    let mut i: usize = 0;
    proof {
        assert(rules@.map_values(|r: FieldRule| r@) =~= sv.subrange(0, 0).map_values(
            |s: Seq<char>| text_rule(s),
        ));
    }
    while i < ns
        invariant
            ns == selectors@.len(),
            i <= ns,
            sv == selectors.deep_view(),
            rules@.map_values(|r: FieldRule| r@) == sv.subrange(0, i as int).map_values(
                |s: Seq<char>| text_rule(s),
            ),
        decreases ns - i,
    {
        let tr = make_text_rule(selectors[i].clone());
        let ghost pre = rules@.map_values(|r: FieldRule| r@);
        rules.push(tr);
        proof {
            assert(rules@.map_values(|r: FieldRule| r@) =~= pre.push(tr@));
            assert(pre.push(text_rule(sv[i as int])) =~= sv.subrange(0, i as int + 1).map_values(
                |s: Seq<char>| text_rule(s),
            ));
        }
        i = i + 1;
    }
    proof {
        assert(sv.subrange(0, ns as int) =~= sv);
    }
    let contents = extract_fields(document, base.as_str(), &rules, true, false);
    assemble_results(final_url, document, text, contents)
}

} // verus!
