use vstd::prelude::*;

use lettre::Message;

use crate::config::JobParameters;
use crate::extract::{
    complete_listings, detail_parts_of, product_from_fetch, product_links, product_links_spec,
    product_read_from, ExtractError,
};
use crate::notify::{compose_notification, mailbox_parses, NotifyError};
use crate::page::{first_attr_per_class_of, first_texts_per_class_of};
use crate::product::{filter_products, matching_products, product_matches, Product};

verus! {

/// What the job does when an iteration fails.
#[derive(Debug, Clone, Copy, PartialEq, Eq, Structural)]
pub enum FailurePolicy {
    /// Stop the job with the iteration's error.
    FailFast,
    /// Wait out the interval and try again.
    SkipIteration,
}

/// Why an iteration failed.
#[derive(Debug)]
pub enum JobError {
    /// The listing page could not be fetched.
    Fetch(String),
    /// The links of the listing page could not be built.
    Extract(ExtractError),
    /// The notification could not be sent.
    Notify(NotifyError),
}

/// What an iteration does once the products are read.
#[derive(Debug)]
pub enum IterationStep {
    /// Nothing matched: the iteration is over, and it succeeded.
    Done,
    /// Send a notification about these products.
    Notify(Vec<Product>),
}

/// What the job does after an iteration.
#[derive(Debug)]
pub enum Action {
    /// Sleep this many seconds, then run the next iteration.
    Sleep(u64),
    /// Stop the job with this error.
    Stop(JobError),
}

/// The products read from the detail pages `pages` fetched from `links`, in
/// order: a page that could not be fetched, or lacks a title or info block, gives
/// none.
pub open spec fn products_read(
    links: Seq<String>,
    pages: Seq<Result<String, String>>,
    r: Seq<Product>,
) -> bool
    decreases links.len(),
{
    if links.len() == 0 || pages.len() != links.len() {
        r.len() == 0 && links.len() == pages.len()
    } else {
        let k = links.len() - 1;
        match pages[k] {
            Ok(html) => match detail_parts_of(html@) {
                Some((name, texts)) => r.len() > 0 && product_read_from(
                    r.last(),
                    links[k]@,
                    name,
                    texts,
                ) && products_read(links.drop_last(), pages.drop_last(), r.drop_last()),
                None => products_read(links.drop_last(), pages.drop_last(), r),
            },
            Err(_) => products_read(links.drop_last(), pages.drop_last(), r),
        }
    }
}

/// The action that follows an iteration with outcome `outcome`.
pub open spec fn action_after(
    policy: FailurePolicy,
    interval_minutes: u64,
    outcome: Result<(), JobError>,
) -> Action {
    match outcome {
        Ok(_) => Action::Sleep((interval_minutes * 60) as u64),
        Err(e) => match policy {
            FailurePolicy::FailFast => Action::Stop(e),
            FailurePolicy::SkipIteration => Action::Sleep((interval_minutes * 60) as u64),
        },
    }
}

/// Reads the products of the detail pages fetched from `links`, one outcome per
/// link in the same order.
pub fn products_from_pages(links: Vec<String>, pages: Vec<Result<String, String>>) -> (r: Vec<
    Product,
>)
    requires
        links@.len() == pages@.len(),
    ensures
        products_read(links@, pages@, r@),
{
    let ghost all_links = links@;
    let ghost all_pages = pages@;
    let mut links = links;
    let mut pages = pages;
    let mut reversed: Vec<Product> = Vec::new();
    while links.len() > 0
        invariant
            links@.len() == pages@.len(),
            links@.len() <= all_links.len(),
            links@ == all_links.take(links@.len() as int),
            pages@ == all_pages.take(links@.len() as int),
            all_links.len() == all_pages.len(),
            forall|r: Seq<Product>|
                products_read(links@, pages@, r) ==> products_read(
                    all_links,
                    all_pages,
                    r + reversed@.reverse(),
                ),
        decreases links@.len(),
    {
        let ghost before_links = links@;
        let ghost before_pages = pages@;
        let ghost before_rev = reversed@;
        let link = links.pop().unwrap();
        let page = pages.pop().unwrap();
        proof {
            assert(links@ =~= all_links.take(links@.len() as int));
            assert(pages@ =~= all_pages.take(links@.len() as int));
        }
        let found = product_from_fetch(link, page);
        match found {
            Some(p) => {
                reversed.push(p);
                assert forall|r: Seq<Product>| products_read(links@, pages@, r) implies products_read(
                    all_links,
                    all_pages,
                    r + reversed@.reverse(),
                ) by {
                    let r2 = r.push(p);
                    assert(r2.drop_last() =~= r);
                    assert(before_links.drop_last() =~= links@);
                    assert(before_pages.drop_last() =~= pages@);
                    assert(products_read(before_links, before_pages, r2));
                    assert(reversed@.reverse() =~= seq![p] + before_rev.reverse());
                    assert(r2 + before_rev.reverse() =~= r + reversed@.reverse());
                }
            },
            None => {
                assert forall|r: Seq<Product>| products_read(links@, pages@, r) implies products_read(
                    all_links,
                    all_pages,
                    r + reversed@.reverse(),
                ) by {
                    assert(before_links.drop_last() =~= links@);
                    assert(before_pages.drop_last() =~= pages@);
                    assert(products_read(before_links, before_pages, r));
                }
            },
        }
    }
    let mut out: Vec<Product> = Vec::new();
    assert(products_read(links@, pages@, Seq::<Product>::empty()));
    assert(out@ + reversed@.reverse() =~= Seq::<Product>::empty() + reversed@.reverse());
    while reversed.len() > 0
        invariant
            products_read(all_links, all_pages, out@ + reversed@.reverse()),
        decreases reversed@.len(),
    {
        let ghost before = reversed@;
        let ghost before_out = out@;
        let p = reversed.pop().unwrap();
        out.push(p);
        assert(out@ + reversed@.reverse() =~= before_out + before.reverse());
    }
    assert(out@ + reversed@.reverse() =~= out@);
    out
}

/// The job: the configuration and what to do when an iteration fails.
pub struct SazenTeaCheckerJob {
    pub parameters: JobParameters,
    pub policy: FailurePolicy,
}

impl SazenTeaCheckerJob {
    /// The job runs on a validated configuration.
    pub open spec fn wf(&self) -> bool {
        self.parameters.wf()
    }

    /// A job on a validated configuration that stops at the first failed iteration.
    pub fn new(parameters: JobParameters) -> (r: Self)
        requires
            parameters.wf(),
        ensures
            r.wf(),
            r.parameters == parameters,
            r.policy == FailurePolicy::FailFast,
    {
        SazenTeaCheckerJob { parameters, policy: FailurePolicy::FailFast }
    }

    /// The same job with another failure policy.
    pub fn with_failure_policy(self, policy: FailurePolicy) -> (r: Self)
        ensures
            r.parameters == self.parameters,
            r.policy == policy,
    {
        SazenTeaCheckerJob { parameters: self.parameters, policy }
    }

    /// The listing page's URL.
    pub fn products_url(&self) -> (r: &str)
        ensures
            r@ == self.parameters.products_url@,
    {
        self.parameters.products_url.as_str()
    }

    /// The pause between iterations, in seconds.
    pub fn sleep_seconds(&self) -> (r: u64)
        requires
            self.wf(),
        ensures
            r == self.parameters.interval_minutes * 60,
    {
        self.parameters.interval_minutes * 60
    }

    /// The detail-page links of the listing page `html`.
    pub fn product_links(&self, html: &str) -> (r: Result<Vec<String>, JobError>)
        ensures
            match r {
                Ok(v) => product_links_spec(html@, self.parameters.products_url@) == Some(
                    v@.map_values(|s: String| s@),
                ),
                Err(JobError::Extract(_)) => product_links_spec(
                    html@,
                    self.parameters.products_url@,
                ) is None,
                Err(_) => false,
            },
    {
        match product_links(html, self.parameters.products_url.as_str()) {
            Ok(v) => Ok(v),
            Err(e) => Err(JobError::Extract(e)),
        }
    }

    /// The products that match the configured brands and matcha ingredients.
    pub fn matcha_products(&self, products: &Vec<Product>) -> (r: Vec<Product>)
        ensures
            r@ == matching_products(
                products@,
                self.parameters.matcha_brands@,
                self.parameters.matcha_ingredients@,
            ),
    {
        filter_products(products, &self.parameters.matcha_brands, &self.parameters.matcha_ingredients)
    }

    /// Whether the products read this iteration call for a notification: only
    /// when some of them match.
    pub fn plan_notification(&self, products: &Vec<Product>) -> (r: IterationStep)
        ensures
            match r {
                IterationStep::Done => matching_products(
                    products@,
                    self.parameters.matcha_brands@,
                    self.parameters.matcha_ingredients@,
                ).len() == 0,
                IterationStep::Notify(v) => v@ == matching_products(
                    products@,
                    self.parameters.matcha_brands@,
                    self.parameters.matcha_ingredients@,
                ) && v@.len() > 0,
            },
    {
        let found = self.matcha_products(products);
        if found.len() == 0 {
            IterationStep::Done
        } else {
            IterationStep::Notify(found)
        }
    }

    /// The notification about `products`, from and to the configured addresses.
    pub fn compose_email(&self, products: &Vec<Product>) -> (r: Result<Message, NotifyError>)
        ensures
            r matches Err(NotifyError::InvalidSender(_)) <==> !mailbox_parses(
                self.parameters.smtp_transcipient@,
            ),
            r matches Err(NotifyError::InvalidRecipient(_)) <==> mailbox_parses(
                self.parameters.smtp_transcipient@,
            ) && !mailbox_parses(self.parameters.smtp_recipient@),
            (r is Ok || r matches Err(NotifyError::MessageBuild(_))) <==> mailbox_parses(
                self.parameters.smtp_transcipient@,
            ) && mailbox_parses(self.parameters.smtp_recipient@),
            r is Ok <==> mailbox_parses(self.parameters.smtp_transcipient@) && mailbox_parses(
                self.parameters.smtp_recipient@,
            ),
    {
        compose_notification(
            self.parameters.smtp_transcipient.as_str(),
            self.parameters.smtp_recipient.as_str(),
            self.parameters.smtp_notification_subject.as_str(),
            products,
        )
    }

    /// What to do after an iteration: sleep the interval after a success; after
    /// a failure, stop with its error or sleep, as the policy says.
    pub fn after_iteration(&self, outcome: Result<(), JobError>) -> (r: Action)
        requires
            self.wf(),
        ensures
            r == action_after(self.policy, self.parameters.interval_minutes, outcome),
    {
        match outcome {
            Ok(()) => Action::Sleep(self.sleep_seconds()),
            Err(e) => match self.policy {
                FailurePolicy::FailFast => Action::Stop(e),
                FailurePolicy::SkipIteration => Action::Sleep(self.sleep_seconds()),
            },
        }
    }
}

/// A listing page without product elements gives no detail links and no
/// listings; with no links no product is read, and nothing is left to notify.
pub proof fn lemma_empty_listing_page_notifies_nothing(
    html: Seq<char>,
    listing_url: Seq<char>,
    pages: Seq<Result<String, String>>,
    read: Seq<Product>,
    brands: Seq<String>,
    ingredients: Seq<String>,
)
    requires
        first_attr_per_class_of(html, "product"@, "a"@, "href"@).len() == 0,
        first_texts_per_class_of(html, "product"@, "h2"@, "p"@).len() == 0,
    ensures
        product_links_spec(html, listing_url) matches Some(links) ==> links.len() == 0,
        complete_listings(first_texts_per_class_of(html, "product"@, "h2"@, "p"@)).len() == 0,
        products_read(Seq::empty(), pages, read) ==> matching_products(
            read,
            brands,
            ingredients,
        ).len() == 0,
{
    let pred = |p: Product| product_matches(p, brands, ingredients);
    read.lemma_filter_len(pred);
}

/// An iteration in which nothing matches sends nothing and succeeds: the job
/// then sleeps the interval, whatever its failure policy.
pub proof fn lemma_no_match_iteration_succeeds(
    products: Seq<Product>,
    brands: Seq<String>,
    ingredients: Seq<String>,
    policy: FailurePolicy,
    interval_minutes: u64,
)
    requires
        matching_products(products, brands, ingredients).len() == 0,
    ensures
        action_after(policy, interval_minutes, Ok(())) == Action::Sleep(
            (interval_minutes * 60) as u64,
        ),
{
}

/// Under the fail-fast policy a failed iteration stops the job, with that
/// iteration's error surfaced unchanged.
pub proof fn lemma_failed_iteration_stops_job(interval_minutes: u64, e: JobError)
    ensures
        action_after(FailurePolicy::FailFast, interval_minutes, Err(e)) == Action::Stop(e),
{
}

/// Two sequences of products agree on every field, in order.
pub open spec fn same_products(a: Seq<Product>, b: Seq<Product>) -> bool {
    &&& a.len() == b.len()
    &&& forall|k: int|
        0 <= k < a.len() ==> {
            &&& (#[trigger] a[k]).url@ == b[k].url@
            &&& a[k].code@ == b[k].code@
            &&& a[k].name@ == b[k].name@
            &&& a[k].maker@ == b[k].maker@
            &&& a[k].ingredients@ == b[k].ingredients@
        }
}

/// Reading products is deterministic: the same links and the same fetch outcomes
/// give the same products, placeholders included; and there are never more
/// products than links.
pub proof fn lemma_products_read_deterministic(
    links: Seq<String>,
    pages: Seq<Result<String, String>>,
    a: Seq<Product>,
    b: Seq<Product>,
)
    requires
        products_read(links, pages, a),
        products_read(links, pages, b),
    ensures
        same_products(a, b),
        a.len() <= links.len(),
    decreases links.len(),
{
    if links.len() > 0 {
        let k = links.len() - 1;
        match pages[k] {
            Ok(html) => match detail_parts_of(html@) {
                Some((name, texts)) => {
                    lemma_products_read_deterministic(
                        links.drop_last(),
                        pages.drop_last(),
                        a.drop_last(),
                        b.drop_last(),
                    );
                    assert forall|j: int| 0 <= j < a.len() implies {
                        &&& (#[trigger] a[j]).url@ == b[j].url@
                        &&& a[j].code@ == b[j].code@
                        &&& a[j].name@ == b[j].name@
                        &&& a[j].maker@ == b[j].maker@
                        &&& a[j].ingredients@ == b[j].ingredients@
                    } by {
                        if j < a.len() - 1 {
                            assert(a.drop_last()[j] == a[j]);
                            assert(b.drop_last()[j] == b[j]);
                        }
                    }
                },
                None => {
                    lemma_products_read_deterministic(links.drop_last(), pages.drop_last(), a, b);
                },
            },
            Err(_) => {
                lemma_products_read_deterministic(links.drop_last(), pages.drop_last(), a, b);
            },
        }
    }
}

} // verus!
