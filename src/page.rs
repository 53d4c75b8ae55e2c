use vstd::prelude::*;

use select::document::Document;
use select::predicate::{Attr, Class, Name, Predicate};

verus! {

/// For each element of class `class`, in the order select's `Document::find` yields
/// them: the value of attribute
/// `attr` on its first descendant named `tag`, if that descendant exists and has it.
pub uninterp spec fn first_attr_per_class_of(
    html: Seq<char>,
    class: Seq<char>,
    tag: Seq<char>,
    attr: Seq<char>,
) -> Seq<Option<Seq<char>>>;

/// For each element of class `class`, in the order select's `Document::find` yields
/// them: the text of its first
/// descendant named `first`, and the text of its first descendant named `second`.
pub uninterp spec fn first_texts_per_class_of(
    html: Seq<char>,
    class: Seq<char>,
    first: Seq<char>,
    second: Seq<char>,
) -> Seq<(Option<Seq<char>>, Option<Seq<char>>)>;

/// The text of the first element named `tag` whose attribute `attr` equals `value`.
pub uninterp spec fn first_text_with_attr_of(
    html: Seq<char>,
    tag: Seq<char>,
    attr: Seq<char>,
    value: Seq<char>,
) -> Option<Seq<char>>;

/// For the first element whose `id` is `id`: the texts of its descendants named `tag`,
/// in document order.
pub uninterp spec fn texts_within_id_of(html: Seq<char>, id: Seq<char>, tag: Seq<char>) -> Option<
    Seq<Seq<char>>,
>;

/// The characters of an optional string.
pub open spec fn opt_view(o: Option<String>) -> Option<Seq<char>> {
    match o {
        Some(s) => Some(s@),
        None => None,
    }
}

/// The characters of a pair of optional strings.
pub open spec fn opt_pair_view(p: (Option<String>, Option<String>)) -> (
    Option<Seq<char>>,
    Option<Seq<char>>,
) {
    (opt_view(p.0), opt_view(p.1))
}

/// Relies on select's `Document::from`, `find`, `Class`, `Name` and `Node::attr`:
/// the document is parsed from the text alone.
#[verifier::external_body]
pub(crate) fn first_attr_per_class(html: &str, class: &str, tag: &str, attr: &str) -> (r: Vec<
    Option<String>,
>)
    ensures
        r@.map_values(|o: Option<String>| opt_view(o)) == first_attr_per_class_of(
            html@,
            class@,
            tag@,
            attr@,
        ),
{
    let doc = Document::from(html);
    let mut out = Vec::new();
    for e in doc.find(Class(class)) {
        out.push(e.find(Name(tag)).next().and_then(|a| a.attr(attr)).map(String::from));
    }
    out
}

/// Relies on select's `Document::from`, `find`, `Class`, `Name` and `Node::text`:
/// the document is parsed from the text alone.
#[verifier::external_body]
pub(crate) fn first_texts_per_class(html: &str, class: &str, first: &str, second: &str) -> (r: Vec<
    (Option<String>, Option<String>),
>)
    ensures
        r@.map_values(|p: (Option<String>, Option<String>)| opt_pair_view(p))
            == first_texts_per_class_of(html@, class@, first@, second@),
{
    let doc = Document::from(html);
    let mut out = Vec::new();
    for e in doc.find(Class(class)) {
        let a = e.find(Name(first)).next().map(|n| n.text());
        out.push((a, e.find(Name(second)).next().map(|n| n.text())));
    }
    out
}

/// Relies on select's `Document::from`, `find`, `Name`, `Attr` and `Node::text`:
/// the document is parsed from the text alone.
#[verifier::external_body]
pub(crate) fn first_text_with_attr(html: &str, tag: &str, attr: &str, value: &str) -> (r: Option<
    String,
>)
    ensures
        opt_view(r) == first_text_with_attr_of(html@, tag@, attr@, value@),
{
    let doc = Document::from(html);
    let found = doc.find(Name(tag).and(Attr(attr, value))).next();
    found.map(|n| n.text())
}

/// Relies on select's `Document::from`, `find`, `Attr`, `Name` and `Node::text`:
/// the document is parsed from the text alone.
#[verifier::external_body]
pub(crate) fn texts_within_id(html: &str, id: &str, tag: &str) -> (r: Option<Vec<String>>)
    ensures
        match r {
            Some(v) => texts_within_id_of(html@, id@, tag@) == Some(
                v@.map_values(|s: String| s@),
            ),
            None => texts_within_id_of(html@, id@, tag@) is None,
        },
{
    let doc = Document::from(html);
    let block = doc.find(Attr("id", id)).next();
    block.map(|b| b.find(Name(tag)).map(|n| n.text()).collect())
}

} // verus!
