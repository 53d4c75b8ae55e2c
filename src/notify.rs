use vstd::prelude::*;

use lettre::address::AddressError;
use lettre::message::header::ContentType;
use lettre::message::Mailbox;
use lettre::Message;

use crate::product::Product;
use crate::text::contains;

verus! {

#[verifier::external_type_specification]
#[verifier::external_body]
pub struct ExMailbox(Mailbox);

#[verifier::external_type_specification]
#[verifier::external_body]
pub struct ExAddressError(AddressError);

#[verifier::external_type_specification]
#[verifier::external_body]
pub struct ExMessage(Message);

#[verifier::external_type_specification]
#[verifier::external_body]
pub struct ExEmailError(lettre::error::Error);

/// Why a notification could not be sent.
#[derive(Debug)]
pub enum NotifyError {
    /// The sender address does not parse.
    InvalidSender(AddressError),
    /// The recipient address does not parse.
    InvalidRecipient(AddressError),
    /// The message could not be built from its parts.
    MessageBuild(lettre::error::Error),
    /// No connection to the relay could be set up.
    Relay(String),
    /// The relay did not accept the message.
    Send(String),
}

/// Whether `str::parse::<lettre::message::Mailbox>` accepts a string.
pub uninterp spec fn mailbox_parses(s: Seq<char>) -> bool;

/// Relies on lettre's `FromStr` for `Mailbox`: whether it succeeds depends on the
/// text alone.
#[verifier::external_body]
fn parse_mailbox(s: &str) -> (r: Result<Mailbox, AddressError>)
    ensures
        r is Ok == mailbox_parses(s@),
{
    s.parse::<Mailbox>()
}

/// Relies on lettre's `Message::builder` with `from`, `to`, `subject`, an HTML
/// content type and `body`: with exactly one sender and one recipient the build
/// cannot fail (it fails only on a missing or repeated sender, or no recipient).
/// The message carries the current date, so nothing more is promised of it.
#[verifier::external_body]
fn html_message(from: Mailbox, to: Mailbox, subject: &str, body: String) -> (r: Result<
    Message,
    lettre::error::Error,
>)
    ensures
        r is Ok,
{
    Message::builder().from(from).to(to).subject(subject).header(ContentType::TEXT_HTML).body(body)
}

/// The opening line of a notification.
pub open spec fn intro_markup() -> Seq<char> {
    "<p>Check out these matcha products!</p>\n\n"@
}

/// The closing line of a notification.
pub open spec fn outro_markup() -> Seq<char> {
    "<p>Have a great day!</p>"@
}

/// The list item of one product: name and item code in bold, the maker, and a
/// link to its detail page.
pub open spec fn item_markup(p: Product) -> Seq<char> {
    "<li><strong>"@ + p.name@ + " (Item code '"@ + p.code@ + "')</strong>: "@ + p.maker@ + "\n"@
        + "<ul><li><a href=\""@ + p.url@ + "\">"@ + p.url@ + "</a></li></ul>\n"@
}

/// The list items of `ps`, in order.
pub open spec fn items_markup(ps: Seq<Product>) -> Seq<char>
    decreases ps.len(),
{
    if ps.len() == 0 {
        Seq::empty()
    } else {
        items_markup(ps.drop_last()) + item_markup(ps.last())
    }
}

/// The HTML body of a notification about `ps`.
pub open spec fn email_body(ps: Seq<Product>) -> Seq<char> {
    intro_markup() + "<ul>\n"@ + items_markup(ps) + "</ul>\n\n"@ + outro_markup()
}

/// Appends the list item of `p` to `body`.
fn append_item(body: &mut String, p: &Product)
    ensures
        final(body)@ == old(body)@ + item_markup(*p),
{
    let ghost start = body@;
    body.append("<li><strong>");
    body.append(p.name.as_str());
    body.append(" (Item code '");
    body.append(p.code.as_str());
    body.append("')</strong>: ");
    body.append(p.maker.as_str());
    body.append("\n");
    body.append("<ul><li><a href=\"");
    body.append(p.url.as_str());
    body.append("\">");
    body.append(p.url.as_str());
    body.append("</a></li></ul>\n");
    assert(body@ =~= start + item_markup(*p));
}

/// Renders the HTML body of a notification: an opening line, one list item per
/// product in order, and a closing line.
pub fn render_email_body(products: &Vec<Product>) -> (r: String)
    ensures
        r@ == email_body(products@),
{
    let mut body = String::from_str("<p>Check out these matcha products!</p>\n\n");
    body.append("<ul>\n");
    let mut i: usize = 0;
    while i < products.len()
        invariant
            i <= products@.len(),
            body@ == intro_markup() + "<ul>\n"@ + items_markup(products@.take(i as int)),
        decreases products@.len() - i,
    {
        append_item(&mut body, &products[i]);
        proof {
            assert(products@.take(i + 1).drop_last() =~= products@.take(i as int));
            assert(body@ =~= intro_markup() + "<ul>\n"@ + items_markup(products@.take(i + 1)));
        }
        i += 1;
    }
    body.append("</ul>\n\n");
    body.append("<p>Have a great day!</p>");
    assert(products@.take(products@.len() as int) =~= products@);
    body
}

/// Builds the notification about `products` from `sender` to `recipient`. An
/// address that does not parse is reported, the sender's first; with both
/// addresses parsed the message is built, its body rendered from `products`.
pub fn compose_notification(
    sender: &str,
    recipient: &str,
    subject: &str,
    products: &Vec<Product>,
) -> (r: Result<Message, NotifyError>)
    ensures
        r matches Err(NotifyError::InvalidSender(_)) <==> !mailbox_parses(sender@),
        r matches Err(NotifyError::InvalidRecipient(_)) <==> mailbox_parses(sender@)
            && !mailbox_parses(recipient@),
        (r is Ok || r matches Err(NotifyError::MessageBuild(_))) <==> mailbox_parses(sender@)
            && mailbox_parses(recipient@),
        r is Ok <==> mailbox_parses(sender@) && mailbox_parses(recipient@),
{
    let from = match parse_mailbox(sender) {
        Ok(m) => m,
        Err(e) => {
            return Err(NotifyError::InvalidSender(e));
        },
    };
    let to = match parse_mailbox(recipient) {
        Ok(m) => m,
        Err(e) => {
            return Err(NotifyError::InvalidRecipient(e));
        },
    };
    let body = render_email_body(products);
    match html_message(from, to, subject, body) {
        Ok(m) => Ok(m),
        Err(e) => Err(NotifyError::MessageBuild(e)),
    }
}

/// A notification body lists every product in input order: the markup of the
/// list is the items of the products one after the other, each item opens a
/// list entry and holds the product's name.
pub proof fn lemma_body_lists_each_product(ps: Seq<Product>)
    ensures
        email_body(ps) == intro_markup() + "<ul>\n"@ + items_markup(ps) + "</ul>\n\n"@
            + outro_markup(),
        items_markup(ps.take(ps.len() as int)) == items_markup(ps),
        forall|i: int|
            0 <= i < ps.len() ==> #[trigger] items_markup(ps.take(i + 1)) == items_markup(
                ps.take(i),
            ) + item_markup(ps[i]),
        forall|p: Product| #[trigger] item_markup(p).take(4) == "<li>"@,
        forall|p: Product| contains(#[trigger] item_markup(p), p.name@),
{
    assert(ps.take(ps.len() as int) =~= ps);
    assert forall|i: int| 0 <= i < ps.len() implies #[trigger] items_markup(ps.take(i + 1))
        == items_markup(ps.take(i)) + item_markup(ps[i]) by {
        assert(ps.take(i + 1).drop_last() =~= ps.take(i));
    }
    reveal_strlit("<li><strong>");
    reveal_strlit("<li>");
    assert forall|p: Product| #[trigger] item_markup(p).take(4) == "<li>"@ by {
        assert(item_markup(p).take(4) =~= "<li>"@);
    }
    assert forall|p: Product| contains(#[trigger] item_markup(p), p.name@) by {
        let at = "<li><strong>"@.len() as int;
        assert(item_markup(p).subrange(at, at + p.name@.len()) =~= p.name@);
    }
}

} // verus!
