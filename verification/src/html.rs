//! Reading HTML documents through the `scraper` crate.

use vstd::prelude::*;
use crate::text::{chars_of, join, join_chars, string_of, string_views};

verus! {

/// For each element of the HTML document `html` that the CSS selector
/// `selector` matches, in the order `Html::select` yields them: the value of its attribute `attr`
/// (when it has one) and its text nodes; `None` when the selector does not
/// parse. The HTML5 parse and the matching are what `scraper` computes.
pub uninterp spec fn selected_elements(html: Seq<char>, selector: Seq<char>, attr: Seq<char>) -> Option<Seq<(Option<Seq<char>>, Seq<Seq<char>>)>>;

pub open spec fn element_view(e: (Option<String>, Vec<String>)) -> (Option<Seq<char>>, Seq<Seq<char>>) {
    (
        match e.0 {
            Some(s) => Some(s@),
            None => None,
        },
        string_views(e.1@),
    )
}

pub open spec fn element_views(v: Seq<(Option<String>, Vec<String>)>) -> Seq<(Option<Seq<char>>, Seq<Seq<char>>)> {
    v.map_values(|e: (Option<String>, Vec<String>)| element_view(e))
}

/// `scraper::Selector::parse`, `Html::parse_document`, `Html::select`,
/// `Element::attr` and `ElementRef::text`, each element's attribute and text
/// nodes copied out. The result is named (`selected_elements`), a function of
/// the three texts.
#[verifier::external_body]
fn select_elements(html: &str, selector: &str, attr: &str) -> (r: Option<Vec<(Option<String>, Vec<String>)>>)
    ensures
        match r {
            Some(v) => selected_elements(html@, selector@, attr@) == Some(element_views(v@)),
            None => selected_elements(html@, selector@, attr@) is None,
        },
{
    let sel = match scraper::Selector::parse(selector) {
        Ok(s) => s,
        Err(_) => return None,
    };
    let doc = scraper::Html::parse_document(html);
    let mut out: Vec<(Option<String>, Vec<String>)> = Vec::new();
    for element in doc.select(&sel) {
        let value = element.value().attr(attr).map(|v| v.to_string());
        out.push((value, element.text().map(|t| t.to_string()).collect()));
    }
    Some(out)
}

/// For each element of `html` that `outer` matches, in the order
/// `Html::select` yields them: its text nodes, and the elements inside it
/// that `inner` matches, each with the value of its attribute `attr` (when it
/// has one) and its text nodes; `None` when either selector does not parse.
pub uninterp spec fn selected_nested(html: Seq<char>, outer: Seq<char>, inner: Seq<char>, attr: Seq<char>) -> Option<Seq<(Seq<Seq<char>>, Seq<(Option<Seq<char>>, Seq<Seq<char>>)>)>>;

pub open spec fn nested_view(e: (Vec<String>, Vec<(Option<String>, Vec<String>)>)) -> (Seq<Seq<char>>, Seq<(Option<Seq<char>>, Seq<Seq<char>>)>) {
    (string_views(e.0@), element_views(e.1@))
}

pub open spec fn nested_views(v: Seq<(Vec<String>, Vec<(Option<String>, Vec<String>)>)>) -> Seq<(Seq<Seq<char>>, Seq<(Option<Seq<char>>, Seq<Seq<char>>)>)> {
    v.map_values(|e: (Vec<String>, Vec<(Option<String>, Vec<String>)>)| nested_view(e))
}

/// `scraper::Selector::parse` (twice), `Html::parse_document`,
/// `Html::select`, `ElementRef::select`, `Element::attr` and
/// `ElementRef::text`, copied out. The result is named (`selected_nested`),
/// a function of the four texts.
#[verifier::external_body]
fn select_nested_elements(html: &str, outer: &str, inner: &str, attr: &str) -> (r: Option<Vec<(Vec<String>, Vec<(Option<String>, Vec<String>)>)>>)
    ensures
        match r {
            Some(v) => selected_nested(html@, outer@, inner@, attr@) == Some(nested_views(v@)),
            None => selected_nested(html@, outer@, inner@, attr@) is None,
        },
{
    let (o, i) = match (scraper::Selector::parse(outer), scraper::Selector::parse(inner)) {
        (Ok(o), Ok(i)) => (o, i),
        _ => return None,
    };
    let doc = scraper::Html::parse_document(html);
    let mut out = Vec::new();
    for e in doc.select(&o) {
        let kids = e.select(&i).map(|c| (c.value().attr(attr).map(|v| v.to_string()), c.text().map(|t| t.to_string()).collect())).collect();
        out.push((e.text().map(|t| t.to_string()).collect(), kids));
    }
    Some(out)
}

/// The matched elements with the elements inside them (none when a selector
/// does not parse).
pub open spec fn nested_of(html: Seq<char>, outer: Seq<char>, inner: Seq<char>, attr: Seq<char>) -> Seq<(Seq<Seq<char>>, Seq<(Option<Seq<char>>, Seq<Seq<char>>)>)> {
    match selected_nested(html, outer, inner, attr) {
        Some(v) => v,
        None => Seq::empty(),
    }
}

pub(crate) fn nested_elements(html: &str, outer: &str, inner: &str, attr: &str) -> (r: Vec<(Vec<String>, Vec<(Option<String>, Vec<String>)>)>)
    ensures
        nested_views(r@) == nested_of(html@, outer@, inner@, attr@),
{
    match select_nested_elements(html, outer, inner, attr) {
        Some(v) => v,
        None => {
            let v: Vec<(Vec<String>, Vec<(Option<String>, Vec<String>)>)> = Vec::new();
            assert(nested_views(v@) =~= Seq::<(Seq<Seq<char>>, Seq<(Option<Seq<char>>, Seq<Seq<char>>)>)>::empty());
            v
        },
    }
}

/// The matched elements (none when the selector does not parse).
pub open spec fn elements_of(html: Seq<char>, selector: Seq<char>, attr: Seq<char>) -> Seq<(Option<Seq<char>>, Seq<Seq<char>>)> {
    match selected_elements(html, selector, attr) {
        Some(v) => v,
        None => Seq::empty(),
    }
}

/// The attribute values of the elements that carry the attribute, in order.
pub open spec fn attr_values(es: Seq<(Option<Seq<char>>, Seq<Seq<char>>)>) -> Seq<Seq<char>>
    decreases es.len(),
{
    if es.len() == 0 {
        Seq::empty()
    } else {
        let r = attr_values(es.drop_last());
        match es.last().0 {
            Some(v) => r.push(v),
            None => r,
        }
    }
}

/// The values of attribute `attr` on the elements of `html` that `selector`
/// matches and that carry it, in the order `Html::select` yields them.
pub open spec fn selected_attr_values(html: Seq<char>, selector: Seq<char>, attr: Seq<char>) -> Seq<Seq<char>> {
    attr_values(elements_of(html, selector, attr))
}

/// Each element's attribute value (empty when absent) and its text nodes
/// joined by single spaces.
pub open spec fn link_pairs(es: Seq<(Option<Seq<char>>, Seq<Seq<char>>)>) -> Seq<(Seq<char>, Seq<char>)> {
    es.map_values(
        |e: (Option<Seq<char>>, Seq<Seq<char>>)|
            (
                match e.0 {
                    Some(v) => v,
                    None => Seq::empty(),
                },
                join(e.1, seq![' ']),
            ),
    )
}

/// For each element of `html` that `selector` matches, in the order `Html::select` yields them: the
/// value of its attribute `attr` (empty when absent) and its text.
pub open spec fn selected_links(html: Seq<char>, selector: Seq<char>, attr: Seq<char>) -> Seq<(Seq<char>, Seq<char>)> {
    link_pairs(elements_of(html, selector, attr))
}

pub open spec fn pair_views(v: Seq<(String, String)>) -> Seq<(Seq<char>, Seq<char>)> {
    v.map_values(|p: (String, String)| (p.0@, p.1@))
}

fn elements(html: &str, selector: &str, attr: &str) -> (r: Vec<(Option<String>, Vec<String>)>)
    ensures
        element_views(r@) == elements_of(html@, selector@, attr@),
{
    match select_elements(html, selector, attr) {
        Some(v) => v,
        None => {
            let v: Vec<(Option<String>, Vec<String>)> = Vec::new();
            assert(element_views(v@) =~= Seq::<(Option<Seq<char>>, Seq<Seq<char>>)>::empty());
            v
        },
    }
}

/// The values of `attr` on the matched elements that carry it.
pub(crate) fn select_attr_values(html: &str, selector: &str, attr: &str) -> (r: Vec<String>)
    ensures
        string_views(r@) == selected_attr_values(html@, selector@, attr@),
{
    let es = elements(html, selector, attr);
    let ghost ev = element_views(es@);
    let mut out: Vec<String> = Vec::new();
    let mut i: usize = 0;
    while i < es.len()
        invariant
            i <= es.len(),
            ev == element_views(es@),
            string_views(out@) == attr_values(ev.take(i as int)),
        decreases es.len() - i,
    {
        assert(ev.take(i + 1).drop_last() =~= ev.take(i as int));
        assert(ev.take(i + 1).last() == element_view(es@[i as int]));
        match &es[i].0 {
            Some(v) => {
                let ghost before = string_views(out@);
                out.push(v.clone());
                assert(string_views(out@) =~= before.push(v@));
            },
            None => {},
        }
        i += 1;
    }
    assert(ev.take(es.len() as int) =~= ev);
    out
}

fn join_with_spaces(parts: &Vec<String>) -> (r: String)
    ensures
        r@ == join(string_views(parts@), seq![' ']),
{
    let mut cs: Vec<Vec<char>> = Vec::new();
    let mut i: usize = 0;
    while i < parts.len()
        invariant
            i <= parts.len(),
            crate::text::views(cs@) == string_views(parts@).take(i as int),
        decreases parts.len() - i,
    {
        let ghost before = crate::text::views(cs@);
        cs.push(chars_of(parts[i].as_str()));
        assert(crate::text::views(cs@) =~= before.push(parts@[i as int]@));
        i += 1;
        assert(string_views(parts@).take(i as int) =~= before.push(parts@[i - 1]@));
    }
    assert(string_views(parts@).take(parts.len() as int) =~= string_views(parts@));
    let mut sep: Vec<char> = Vec::new();
    sep.push(' ');
    assert(sep@ =~= seq![' ']);
    let joined = join_chars(&cs, &sep);
    string_of(&joined)
}

/// Each matched element's attribute value (empty when absent) and text.
pub(crate) fn select_links(html: &str, selector: &str, attr: &str) -> (r: Vec<(String, String)>)
    ensures
        pair_views(r@) == selected_links(html@, selector@, attr@),
{
    let es = elements(html, selector, attr);
    let ghost ev = element_views(es@);
    let mut out: Vec<(String, String)> = Vec::new();
    let mut i: usize = 0;
    while i < es.len()
        invariant
            i <= es.len(),
            ev == element_views(es@),
            pair_views(out@) == link_pairs(ev.take(i as int)),
        decreases es.len() - i,
    {
        assert(ev[i as int] == element_view(es@[i as int]));
        let value = match &es[i].0 {
            Some(v) => v.clone(),
            None => string_of(&Vec::new()),
        };
        let text = join_with_spaces(&es[i].1);
        let ghost before = pair_views(out@);
        out.push((value, text));
        assert(pair_views(out@) =~= before.push((value@, text@)));
        i += 1;
        assert(link_pairs(ev.take(i as int)) =~= link_pairs(ev.take(i - 1)).push((value@, text@)));
    }
    assert(ev.take(es.len() as int) =~= ev);
    out
}

} // verus!
