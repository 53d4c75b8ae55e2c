use vstd::prelude::*;

use crate::page::{
    first_attr_per_class, first_attr_per_class_of, first_text_with_attr, first_text_with_attr_of,
    first_texts_per_class, first_texts_per_class_of, opt_pair_view, opt_view, texts_within_id,
    texts_within_id_of,
};
use crate::product::{Listing, Product};
use crate::text::{chars_of, decimal, push_decimal, string_from_chars, trim, trimmed_of};

verus! {

#[verifier::external_type_specification]
#[verifier::external_body]
pub struct ExUrlParseError(url::ParseError);

/// Why the links of a listing page could not be built.
#[derive(Debug, PartialEq, Eq)]
pub enum ExtractError {
    /// The configured listing URL does not parse.
    InvalidUrl(url::ParseError),
    /// The configured listing URL has no scheme and host to resolve links against.
    OpaqueUrl,
}

/// What `url::Url::parse` followed by `origin` gives for a URL: `None` when it does
/// not parse, `Some(None)` for an opaque origin, else its scheme and host.
pub uninterp spec fn url_origin_of(url: Seq<char>) -> Option<Option<(Seq<char>, Seq<char>)>>;

/// Relies on `url::Url::parse` and `Url::origin`, with the host written by its
/// `Display`: the result depends on the text alone.
#[verifier::external_body]
fn url_origin(url: &str) -> (r: Result<Option<(String, String)>, url::ParseError>)
    ensures
        match r {
            Err(_) => url_origin_of(url@) is None,
            Ok(None) => url_origin_of(url@) == Some(None::<(Seq<char>, Seq<char>)>),
            Ok(Some(o)) => url_origin_of(url@) == Some(Some((o.0@, o.1@))),
        },
{
    url::Url::parse(url).map(|u| match u.origin() {
        url::Origin::Tuple(scheme, host, _) => Some((scheme, host.to_string())),
        url::Origin::Opaque(_) => None,
    })
}

/// `scheme://host`, what relative links of the listing are resolved against.
pub open spec fn origin_base(scheme: Seq<char>, host: Seq<char>) -> Seq<char> {
    scheme + "://"@ + host
}

/// The absolute link of each listing that has one, in order.
pub open spec fn detail_links(hrefs: Seq<Option<Seq<char>>>, base: Seq<char>) -> Seq<Seq<char>> {
    hrefs.filter_map(
        |h: Option<Seq<char>>|
            match h {
                Some(v) => Some(base + v),
                None => None,
            },
    )
}

/// The listings whose name and description were both found, in order.
pub open spec fn complete_listings(parts: Seq<(Option<Seq<char>>, Option<Seq<char>>)>) -> Seq<
    (Seq<char>, Seq<char>),
> {
    parts.filter_map(
        |p: (Option<Seq<char>>, Option<Seq<char>>)|
            match p {
                (Some(n), Some(d)) => Some((n, d)),
                _ => None,
            },
    )
}

/// What the links of a listing page are, given the listing URL.
pub open spec fn product_links_spec(html: Seq<char>, listing_url: Seq<char>) -> Option<
    Seq<Seq<char>>,
> {
    match url_origin_of(listing_url) {
        Some(Some((scheme, host))) => Some(
            detail_links(
                first_attr_per_class_of(html, "product"@, "a"@, "href"@),
                origin_base(scheme, host),
            ),
        ),
        _ => None,
    }
}

/// Resolves each listing's link against `base`; listings without a link are skipped.
pub fn resolve_links(hrefs: &Vec<Option<String>>, base: &str) -> (r: Vec<String>)
    ensures
        r@.map_values(|s: String| s@) == detail_links(
            hrefs@.map_values(|o: Option<String>| opt_view(o)),
            base@,
        ),
{
    let ghost hv = hrefs@.map_values(|o: Option<String>| opt_view(o));
    let mut out: Vec<String> = Vec::new();
    let mut i: usize = 0;
    while i < hrefs.len()
        invariant
            i <= hrefs@.len(),
            hv == hrefs@.map_values(|o: Option<String>| opt_view(o)),
            out@.map_values(|s: String| s@) == detail_links(hv.take(i as int), base@),
        decreases hrefs@.len() - i,
    {
        proof {
            assert(hv.take(i + 1).drop_last() =~= hv.take(i as int));
        }
        match &hrefs[i] {
            Some(h) => {
                let mut link = String::from_str(base);
                link.append(h.as_str());
                out.push(link);
                assert(out@.map_values(|s: String| s@) =~= detail_links(hv.take(i + 1), base@));
            },
            None => {
                assert(out@.map_values(|s: String| s@) =~= detail_links(hv.take(i + 1), base@));
            },
        }
        i += 1;
    }
    assert(hv.take(hrefs@.len() as int) =~= hv);
    out
}

/// The absolute detail-page links of the products on a listing page, resolved
/// against the scheme and host of `listing_url`.
pub fn product_links(html: &str, listing_url: &str) -> (r: Result<Vec<String>, ExtractError>)
    ensures
        match r {
            Ok(v) => product_links_spec(html@, listing_url@) == Some(
                v@.map_values(|s: String| s@),
            ),
            Err(ExtractError::InvalidUrl(_)) => url_origin_of(listing_url@) is None,
            Err(ExtractError::OpaqueUrl) => url_origin_of(listing_url@) == Some(
                None::<(Seq<char>, Seq<char>)>,
            ),
        },
{
    let (scheme, host) = match url_origin(listing_url) {
        Err(e) => {
            return Err(ExtractError::InvalidUrl(e));
        },
        Ok(None) => {
            return Err(ExtractError::OpaqueUrl);
        },
        Ok(Some(o)) => o,
    };
    let mut base = scheme;
    base.append("://");
    base.append(host.as_str());
    let hrefs = first_attr_per_class(html, "product", "a", "href");
    Ok(resolve_links(&hrefs, base.as_str()))
}

/// Keeps the listings whose name and description were both found, in order.
pub fn listings_from_parts(parts: &Vec<(Option<String>, Option<String>)>) -> (r: Vec<Listing>)
    ensures
        r@.map_values(|l: Listing| (l.name@, l.description@)) == complete_listings(
            parts@.map_values(|p: (Option<String>, Option<String>)| opt_pair_view(p)),
        ),
{
    let ghost pv = parts@.map_values(|p: (Option<String>, Option<String>)| opt_pair_view(p));
    let mut out: Vec<Listing> = Vec::new();
    let mut i: usize = 0;
    while i < parts.len()
        invariant
            i <= parts@.len(),
            pv == parts@.map_values(|p: (Option<String>, Option<String>)| opt_pair_view(p)),
            out@.map_values(|l: Listing| (l.name@, l.description@)) == complete_listings(
                pv.take(i as int),
            ),
        decreases parts@.len() - i,
    {
        proof {
            assert(pv.take(i + 1).drop_last() =~= pv.take(i as int));
        }
        match &parts[i] {
            (Some(n), Some(d)) => {
                out.push(Listing { name: n.clone(), description: d.clone() });
            },
            _ => {},
        }
        assert(out@.map_values(|l: Listing| (l.name@, l.description@)) =~= complete_listings(
            pv.take(i + 1),
        ));
        i += 1;
    }
    assert(pv.take(parts@.len() as int) =~= pv);
    out
}

/// The listings of a listing page in the simple form: each element of class
/// `product` gives its first `h2` as the name and its first paragraph as the
/// description; one that lacks either is left out.
pub fn extract_listings(html: &str) -> (r: Vec<Listing>)
    ensures
        r@.map_values(|l: Listing| (l.name@, l.description@)) == complete_listings(
            first_texts_per_class_of(html@, "product"@, "h2"@, "p"@),
        ),
{
    let parts = first_texts_per_class(html, "product", "h2", "p");
    listings_from_parts(&parts)
}

/// `i` is the position of the first colon of `t`.
pub open spec fn is_first_colon(t: Seq<char>, i: int) -> bool {
    0 <= i < t.len() && t[i] == ':' && forall|k: int| 0 <= k < i ==> t[k] != ':'
}

/// `t` holds a colon.
pub open spec fn has_colon(t: Seq<char>) -> bool {
    exists|i: int| 0 <= i < t.len() && t[i] == ':'
}

/// The key of an info paragraph: the trimmed text before its first colon (all of
/// it when there is none), or `BAD_KEY_n` when that is empty.
pub open spec fn info_key(t: Seq<char>, n: nat) -> Seq<char> {
    let raw = if has_colon(t) {
        t.take(choose|i: int| is_first_colon(t, i))
    } else {
        t
    };
    let key = trimmed_of(raw);
    if key.len() == 0 {
        "BAD_KEY_"@ + decimal(n)
    } else {
        key
    }
}

/// The value of an info paragraph: the trimmed text after its first colon, or
/// `BAD_VALUE_n` when it has no colon.
pub open spec fn info_value(t: Seq<char>, n: nat) -> Seq<char> {
    if has_colon(t) {
        trimmed_of(t.skip((choose|i: int| is_first_colon(t, i)) + 1))
    } else {
        "BAD_VALUE_"@ + decimal(n)
    }
}

/// The key/value pair of each info paragraph, numbered from zero.
pub open spec fn info_entries(texts: Seq<Seq<char>>) -> Seq<(Seq<char>, Seq<char>)> {
    Seq::new(texts.len(), |i: int| (info_key(texts[i], i as nat), info_value(texts[i], i as nat)))
}

/// The value of the last entry with key `key`, as a map filled in order keeps it.
pub open spec fn last_value_for(entries: Seq<(Seq<char>, Seq<char>)>, key: Seq<char>) -> Option<
    Seq<char>,
>
    decreases entries.len(),
{
    if entries.len() == 0 {
        None
    } else if entries.last().0 == key {
        Some(entries.last().1)
    } else {
        last_value_for(entries.drop_last(), key)
    }
}

/// The value for `key`, or `fallback` when no entry has that key.
pub open spec fn field_or(
    entries: Seq<(Seq<char>, Seq<char>)>,
    key: Seq<char>,
    fallback: Seq<char>,
) -> Seq<char> {
    match last_value_for(entries, key) {
        Some(v) => v,
        None => fallback,
    }
}

/// `p` is the product read from a detail page with title `name` and info
/// paragraphs `texts`, found at `link`.
pub open spec fn product_read_from(
    p: Product,
    link: Seq<char>,
    name: Seq<char>,
    texts: Seq<Seq<char>>,
) -> bool {
    let entries = info_entries(texts);
    &&& p.url@ == link
    &&& p.name@ == name
    &&& p.code@ == field_or(entries, "Item code"@, "BAD_CODE"@)
    &&& p.maker@ == field_or(entries, "Maker"@, "BAD_MAKER"@)
    &&& p.ingredients@ == field_or(entries, "Ingredients"@, "BAD_INGREDIENTS"@)
}

/// `prefix` followed by the decimal notation of `n`.
fn numbered(prefix: &str, n: u64) -> (r: String)
    ensures
        r@ == prefix@ + decimal(n as nat),
{
    let mut cs = chars_of(prefix);
    push_decimal(&mut cs, n);
    string_from_chars(&cs)
}

/// Splits an info paragraph into its key and value; `n` is its position.
pub fn info_entry(text: &str, n: usize) -> (r: (String, String))
    ensures
        r.0@ == info_key(text@, n as nat),
        r.1@ == info_value(text@, n as nat),
{
    let cs = chars_of(text);
    let len = cs.len();
    let mut c: usize = 0;
    while c < len && cs[c] != ':'
        invariant
            cs@ == text@,
            len == cs@.len(),
            c <= len,
            forall|k: int| 0 <= k < c ==> cs@[k] != ':',
        decreases len - c,
    {
        c += 1;
    }
    let found = c < len;
    let (key_raw, value) = if found {
        proof {
            assert(is_first_colon(text@, c as int));
            let other = choose|i: int| is_first_colon(text@, i);
            if other < c {
            } else if other > c {
            }
            assert(other == c);
        }
        let v = trim(text.substring_char(c + 1, len));
        assert(text@.subrange(c + 1, len as int) =~= text@.skip(c + 1));
        (text.substring_char(0, c), v)
    } else {
        assert(!has_colon(text@));
        (text, numbered("BAD_VALUE_", n as u64))
    };
    assert(text@.subrange(0, c as int) =~= text@.take(c as int));
    let key = trim(key_raw);
    if key.unicode_len() == 0 {
        (numbered("BAD_KEY_", n as u64), value)
    } else {
        (key, value)
    }
}

/// The value of the last entry whose key is `key`, or `fallback`.
pub fn field_value_or(entries: &Vec<(String, String)>, key: &str, fallback: &str) -> (r: String)
    ensures
        r@ == field_or(entries@.map_values(|e: (String, String)| (e.0@, e.1@)), key@, fallback@),
{
    let ghost ev = entries@.map_values(|e: (String, String)| (e.0@, e.1@));
    let wanted = String::from_str(key);
    let mut i: usize = entries.len();
    assert(ev.take(i as int) =~= ev);
    while i > 0
        invariant
            i <= entries@.len(),
            wanted@ == key@,
            ev == entries@.map_values(|e: (String, String)| (e.0@, e.1@)),
            last_value_for(ev, key@) == last_value_for(ev.take(i as int), key@),
        decreases i,
    {
        proof {
            assert(ev.take(i as int).drop_last() =~= ev.take(i - 1));
        }
        if entries[i - 1].0 == wanted {
            return entries[i - 1].1.clone();
        }
        i -= 1;
    }
    assert(ev.take(0) =~= Seq::<(Seq<char>, Seq<char>)>::empty());
    String::from_str(fallback)
}

/// The product described by a detail page with title `name` and info paragraphs
/// `texts`, found at `link`. Known keys are matched exactly; a missing one leaves
/// its placeholder in the field.
pub fn product_from_parts(link: String, name: String, texts: &Vec<String>) -> (r: Product)
    ensures
        product_read_from(r, link@, name@, texts@.map_values(|s: String| s@)),
{
    let ghost tv = texts@.map_values(|s: String| s@);
    let mut entries: Vec<(String, String)> = Vec::new();
    let mut i: usize = 0;
    while i < texts.len()
        invariant
            i <= texts@.len(),
            tv == texts@.map_values(|s: String| s@),
            entries@.map_values(|e: (String, String)| (e.0@, e.1@)) == info_entries(tv).take(
                i as int,
            ),
        decreases texts@.len() - i,
    {
        let entry = info_entry(texts[i].as_str(), i);
        assert(tv[i as int] == texts@[i as int]@);
        let ghost before = entries@;
        entries.push(entry);
        assert(entries@.map_values(|e: (String, String)| (e.0@, e.1@)) =~= before.map_values(
            |e: (String, String)| (e.0@, e.1@),
        ).push((entry.0@, entry.1@)));
        assert(info_entries(tv).take(i + 1) =~= info_entries(tv).take(i as int).push(
            info_entries(tv)[i as int],
        ));
        i += 1;
    }
    assert(info_entries(tv).take(texts@.len() as int) =~= info_entries(tv));
    let code = field_value_or(&entries, "Item code", "BAD_CODE");
    let maker = field_value_or(&entries, "Maker", "BAD_MAKER");
    let ingredients = field_value_or(&entries, "Ingredients", "BAD_INGREDIENTS");
    Product { url: link, code, name, maker, ingredients }
}

/// What a detail page gives: its title and info paragraphs, when it has both.
pub open spec fn detail_parts_of(html: Seq<char>) -> Option<(Seq<char>, Seq<Seq<char>>)> {
    match (
        first_text_with_attr_of(html, "h1"@, "itemprop"@, "name"@),
        texts_within_id_of(html, "product-info"@, "p"@),
    ) {
        (Some(name), Some(texts)) => Some((name, texts)),
        _ => None,
    }
}

/// Reads the product of a detail page found at `link`. A page without a title
/// (`h1` with `itemprop="name"`) or without an info block (`id="product-info"`)
/// gives `None`; otherwise the product is always read, placeholders and all.
pub fn product_from_detail(link: String, html: &str) -> (r: Option<Product>)
    ensures
        match detail_parts_of(html@) {
            None => r is None,
            Some((name, texts)) => r matches Some(p) && product_read_from(p, link@, name, texts),
        },
{
    let name = match first_text_with_attr(html, "h1", "itemprop", "name") {
        Some(n) => n,
        None => {
            return None;
        },
    };
    let texts = match texts_within_id(html, "product-info", "p") {
        Some(t) => t,
        None => {
            return None;
        },
    };
    Some(product_from_parts(link, name, &texts))
}

/// Reads the product of a detail page from the outcome of fetching it: a page
/// that could not be fetched gives `None`, and extraction goes on without it.
pub fn product_from_fetch(link: String, fetched: Result<String, String>) -> (r: Option<Product>)
    ensures
        match fetched {
            Err(_) => r is None,
            Ok(html) => match detail_parts_of(html@) {
                None => r is None,
                Some((name, texts)) => r matches Some(p) && product_read_from(
                    p,
                    link@,
                    name,
                    texts,
                ),
            },
        },
{
    match fetched {
        Err(_) => None,
        Ok(html) => product_from_detail(link, html.as_str()),
    }
}

/// `filter_map` over a concatenation is the concatenation of the two results.
proof fn lemma_filter_map_append<A, B>(a: Seq<A>, b: Seq<A>, f: spec_fn(A) -> Option<B>)
    ensures
        (a + b).filter_map(f) == a.filter_map(f) + b.filter_map(f),
    decreases b.len(),
{
    if b.len() == 0 {
        assert(a + b =~= a);
        assert(a.filter_map(f) + b.filter_map(f) =~= a.filter_map(f));
    } else {
        lemma_filter_map_append(a, b.drop_last(), f);
        assert((a + b).drop_last() =~= a + b.drop_last());
        match f(b.last()) {
            Some(x) => {
                assert(a.filter_map(f) + b.filter_map(f) =~= a.filter_map(f) + b.drop_last().filter_map(
                    f,
                ) + seq![x]);
            },
            None => {},
        }
    }
}

/// A listing without its name or its description is left out: removing it does
/// not change the listings read.
pub proof fn lemma_incomplete_listing_left_out(
    parts: Seq<(Option<Seq<char>>, Option<Seq<char>>)>,
    i: int,
)
    requires
        0 <= i < parts.len(),
        parts[i].0 is None || parts[i].1 is None,
    ensures
        complete_listings(parts) == complete_listings(parts.remove(i)),
{
    let f = |p: (Option<Seq<char>>, Option<Seq<char>>)|
        match p {
            (Some(n), Some(d)) => Some((n, d)),
            _ => None,
        };
    let a = parts.take(i);
    let b = parts.skip(i + 1);
    let mid = seq![parts[i]];
    assert(parts =~= a + mid + b);
    assert(parts.remove(i) =~= a + b);
    lemma_filter_map_append(a + mid, b, f);
    lemma_filter_map_append(a, mid, f);
    lemma_filter_map_append(a, b, f);
    assert(mid.drop_last() =~= Seq::<(Option<Seq<char>>, Option<Seq<char>>)>::empty());
    assert(mid.last() == parts[i]);
    assert(f(parts[i]) is None);
    assert(mid.drop_last().filter_map(f) =~= Seq::<(Seq<char>, Seq<char>)>::empty());
    assert(mid.filter_map(f) == mid.drop_last().filter_map(f));
    assert(mid.filter_map(f) =~= Seq::<(Seq<char>, Seq<char>)>::empty());
    assert(a.filter_map(f) + mid.filter_map(f) =~= a.filter_map(f));
}

/// A key that no info paragraph carries leaves its placeholder in the field.
pub proof fn lemma_missing_key_gives_placeholder(
    entries: Seq<(Seq<char>, Seq<char>)>,
    key: Seq<char>,
    fallback: Seq<char>,
)
    requires
        forall|k: int| 0 <= k < entries.len() ==> (#[trigger] entries[k]).0 != key,
    ensures
        field_or(entries, key, fallback) == fallback,
    decreases entries.len(),
{
    if entries.len() > 0 {
        lemma_missing_key_gives_placeholder(entries.drop_last(), key, fallback);
    }
}

/// A detail page with a title and an info block always yields its product;
/// each known field absent from the info block holds its placeholder.
pub proof fn lemma_detail_page_yields_product(p: Product, link: Seq<char>, name: Seq<char>, texts: Seq<Seq<char>>)
    requires
        product_read_from(p, link, name, texts),
    ensures
        (forall|k: int| 0 <= k < texts.len() ==> (#[trigger] info_entries(texts)[k]).0 != "Item code"@)
            ==> p.code@ == "BAD_CODE"@,
        (forall|k: int| 0 <= k < texts.len() ==> (#[trigger] info_entries(texts)[k]).0 != "Maker"@)
            ==> p.maker@ == "BAD_MAKER"@,
        (forall|k: int| 0 <= k < texts.len() ==> (#[trigger] info_entries(texts)[k]).0
            != "Ingredients"@) ==> p.ingredients@ == "BAD_INGREDIENTS"@,
{
    let entries = info_entries(texts);
    if forall|k: int| 0 <= k < texts.len() ==> (#[trigger] entries[k]).0 != "Item code"@ {
        lemma_missing_key_gives_placeholder(entries, "Item code"@, "BAD_CODE"@);
    }
    if forall|k: int| 0 <= k < texts.len() ==> (#[trigger] entries[k]).0 != "Maker"@ {
        lemma_missing_key_gives_placeholder(entries, "Maker"@, "BAD_MAKER"@);
    }
    if forall|k: int| 0 <= k < texts.len() ==> (#[trigger] entries[k]).0 != "Ingredients"@ {
        lemma_missing_key_gives_placeholder(entries, "Ingredients"@, "BAD_INGREDIENTS"@);
    }
}

/// A listing without a link yields no detail link: removing it does not change
/// the links built.
pub proof fn lemma_linkless_listing_left_out(hrefs: Seq<Option<Seq<char>>>, base: Seq<char>, i: int)
    requires
        0 <= i < hrefs.len(),
        hrefs[i] is None,
    ensures
        detail_links(hrefs, base) == detail_links(hrefs.remove(i), base),
{
    let f = |h: Option<Seq<char>>|
        match h {
            Some(v) => Some(base + v),
            None => None,
        };
    let a = hrefs.take(i);
    let b = hrefs.skip(i + 1);
    let mid = seq![hrefs[i]];
    assert(hrefs =~= a + mid + b);
    assert(hrefs.remove(i) =~= a + b);
    lemma_filter_map_append(a + mid, b, f);
    lemma_filter_map_append(a, mid, f);
    lemma_filter_map_append(a, b, f);
    assert(mid.drop_last() =~= Seq::<Option<Seq<char>>>::empty());
    assert(mid.last() == hrefs[i]);
    assert(mid.drop_last().filter_map(f) =~= Seq::<Seq<char>>::empty());
    assert(mid.filter_map(f) == mid.drop_last().filter_map(f));
    assert(a.filter_map(f) + mid.filter_map(f) =~= a.filter_map(f));
}

} // verus!
