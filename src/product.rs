use vstd::prelude::*;

use crate::text::{contains_folded, contains_ignoring_case};

verus! {

/// A product read from its detail page.
#[derive(Debug, Clone, PartialEq, Eq)]
pub struct Product {
    pub url: String,
    pub code: String,
    pub name: String,
    pub maker: String,
    pub ingredients: String,
}

/// A product as the listing page shows it: a name and a short description.
#[derive(Debug, Clone, PartialEq, Eq)]
pub struct Listing {
    pub name: String,
    pub description: String,
}

impl Product {
    /// A field-for-field copy.
    pub fn duplicate(&self) -> (r: Product)
        ensures
            r == *self,
    {
        Product {
            url: self.url.clone(),
            code: self.code.clone(),
            name: self.name.clone(),
            maker: self.maker.clone(),
            ingredients: self.ingredients.clone(),
        }
    }
}

impl Listing {
    /// A field-for-field copy.
    pub fn duplicate(&self) -> (r: Listing)
        ensures
            r == *self,
    {
        Listing { name: self.name.clone(), description: self.description.clone() }
    }
}

/// Some keyword occurs in `field`, ignoring case.
pub open spec fn mentions_any(keywords: Seq<String>, field: Seq<char>) -> bool {
    exists|k: int| 0 <= k < keywords.len() && contains_folded(field, #[trigger] keywords[k]@)
}

/// A product matches when a brand occurs in its name or maker, and a matcha
/// ingredient keyword occurs in its ingredients.
pub open spec fn product_matches(p: Product, brands: Seq<String>, ingredients: Seq<String>) -> bool {
    (mentions_any(brands, p.name@) || mentions_any(brands, p.maker@)) && mentions_any(
        ingredients,
        p.ingredients@,
    )
}

/// A listing matches when a brand and a variant each occur in its name or description.
pub open spec fn listing_matches(l: Listing, brands: Seq<String>, variants: Seq<String>) -> bool {
    (mentions_any(brands, l.name@) || mentions_any(brands, l.description@)) && (mentions_any(
        variants,
        l.name@,
    ) || mentions_any(variants, l.description@))
}

/// The products of `ps` that match, in their order.
pub open spec fn matching_products(
    ps: Seq<Product>,
    brands: Seq<String>,
    ingredients: Seq<String>,
) -> Seq<Product> {
    ps.filter(|p: Product| product_matches(p, brands, ingredients))
}

/// The listings of `ls` that match, in their order.
pub open spec fn matching_listings(
    ls: Seq<Listing>,
    brands: Seq<String>,
    variants: Seq<String>,
) -> Seq<Listing> {
    ls.filter(|l: Listing| listing_matches(l, brands, variants))
}

/// Whether some keyword occurs in `field`, ignoring case.
pub fn mentions_any_keyword(keywords: &Vec<String>, field: &str) -> (r: bool)
    ensures
        r == mentions_any(keywords@, field@),
{
    let mut k: usize = 0;
    while k < keywords.len()
        invariant
            k <= keywords@.len(),
            forall|j: int| 0 <= j < k ==> !contains_folded(field@, #[trigger] keywords@[j]@),
        decreases keywords@.len() - k,
    {
        if contains_ignoring_case(field, keywords[k].as_str()) {
            return true;
        }
        k += 1;
    }
    false
}

/// Whether a product matches the brand and ingredient keywords.
pub fn is_matching_product(p: &Product, brands: &Vec<String>, ingredients: &Vec<String>) -> (r:
    bool)
    ensures
        r == product_matches(*p, brands@, ingredients@),
{
    (mentions_any_keyword(brands, p.name.as_str()) || mentions_any_keyword(
        brands,
        p.maker.as_str(),
    )) && mentions_any_keyword(ingredients, p.ingredients.as_str())
}

/// Whether a listing matches the brand and variant keywords.
pub fn is_matching_listing(l: &Listing, brands: &Vec<String>, variants: &Vec<String>) -> (r: bool)
    ensures
        r == listing_matches(*l, brands@, variants@),
{
    (mentions_any_keyword(brands, l.name.as_str()) || mentions_any_keyword(
        brands,
        l.description.as_str(),
    )) && (mentions_any_keyword(variants, l.name.as_str()) || mentions_any_keyword(
        variants,
        l.description.as_str(),
    ))
}

/// The products that match, in input order.
pub fn filter_products(products: &Vec<Product>, brands: &Vec<String>, ingredients: &Vec<String>) -> (r:
    Vec<Product>)
    ensures
        r@ == matching_products(products@, brands@, ingredients@),
{
    let ghost pred: spec_fn(Product) -> bool = |p: Product| product_matches(p, brands@, ingredients@);
    let mut out: Vec<Product> = Vec::new();
    let mut i: usize = 0;
    while i < products.len()
        invariant
            i <= products@.len(),
            pred == (|p: Product| product_matches(p, brands@, ingredients@)),
            out@ == products@.subrange(0, i as int).filter(pred),
        decreases products@.len() - i,
    {
        let p = &products[i];
        proof {
            products@.subrange(0, i as int).lemma_filter_push(products@[i as int], pred);
            assert(products@.subrange(0, i + 1) =~= products@.subrange(0, i as int).push(
                products@[i as int],
            ));
        }
        let keep = is_matching_product(p, brands, ingredients);
        assert(keep == pred(products@[i as int]));
        if keep {
            out.push(p.duplicate());
        }
        i += 1;
    }
    assert(products@.subrange(0, products@.len() as int) =~= products@);
    out
}

/// The listings that match, in input order.
pub fn filter_listings(listings: &Vec<Listing>, brands: &Vec<String>, variants: &Vec<String>) -> (r:
    Vec<Listing>)
    ensures
        r@ == matching_listings(listings@, brands@, variants@),
{
    let ghost pred: spec_fn(Listing) -> bool = |l: Listing| listing_matches(l, brands@, variants@);
    let mut out: Vec<Listing> = Vec::new();
    let mut i: usize = 0;
    while i < listings.len()
        invariant
            i <= listings@.len(),
            pred == (|l: Listing| listing_matches(l, brands@, variants@)),
            out@ == listings@.subrange(0, i as int).filter(pred),
        decreases listings@.len() - i,
    {
        let l = &listings[i];
        proof {
            listings@.subrange(0, i as int).lemma_filter_push(listings@[i as int], pred);
            assert(listings@.subrange(0, i + 1) =~= listings@.subrange(0, i as int).push(
                listings@[i as int],
            ));
        }
        let keep = is_matching_listing(l, brands, variants);
        assert(keep == pred(listings@[i as int]));
        if keep {
            out.push(l.duplicate());
        }
        i += 1;
    }
    assert(listings@.subrange(0, listings@.len() as int) =~= listings@);
    out
}

/// Filtering twice by the same predicate is filtering once.
proof fn lemma_filter_twice<A>(s: Seq<A>, pred: spec_fn(A) -> bool)
    ensures
        s.filter(pred).filter(pred) == s.filter(pred),
    decreases s.len(),
{
    if s.len() > 0 {
        let init = s.drop_last();
        lemma_filter_twice(init, pred);
        assert(s =~= init.push(s.last()));
        init.lemma_filter_push(s.last(), pred);
        init.filter(pred).lemma_filter_push(s.last(), pred);
    }
}

/// Filtering products is idempotent: filtering an already filtered sequence with
/// the same keywords gives it back unchanged.
pub proof fn lemma_product_filter_idempotent(
    ps: Seq<Product>,
    brands: Seq<String>,
    ingredients: Seq<String>,
)
    ensures
        matching_products(matching_products(ps, brands, ingredients), brands, ingredients)
            == matching_products(ps, brands, ingredients),
{
    lemma_filter_twice(ps, |p: Product| product_matches(p, brands, ingredients));
}

/// Filtering listings is idempotent: filtering an already filtered sequence with
/// the same keywords gives it back unchanged.
pub proof fn lemma_listing_filter_idempotent(
    ls: Seq<Listing>,
    brands: Seq<String>,
    variants: Seq<String>,
)
    ensures
        matching_listings(matching_listings(ls, brands, variants), brands, variants)
            == matching_listings(ls, brands, variants),
{
    lemma_filter_twice(ls, |l: Listing| listing_matches(l, brands, variants));
}

} // verus!
