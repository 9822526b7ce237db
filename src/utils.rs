//! Message texts shown to the user: titled messages of four kinds and
//! bulleted lists.

use vstd::prelude::*;

verus! {

/// A kind of user-facing message.
pub trait MessageType {
    /// The prefix of this kind of message.
    spec fn prefix_view() -> Seq<char>;

    /// The prefix of this kind of message, such as `"🚨 ERROR"`.
    fn prefix() -> (r: &'static str)
        ensures
            r@ == Self::prefix_view(),
    ;

    /// Whether this kind of message goes to standard error.
    fn to_stderr() -> bool;
}

/// Error messages.
pub struct Error;

/// Warning messages.
pub struct Warning;

/// Success messages.
pub struct Success;

/// Informational messages.
pub struct Info;

impl MessageType for Error {
    open spec fn prefix_view() -> Seq<char> {
        "🚨 ERROR"@
    }

    fn prefix() -> (r: &'static str) {
        "🚨 ERROR"
    }

    fn to_stderr() -> bool {
        true
    }
}

impl MessageType for Warning {
    open spec fn prefix_view() -> Seq<char> {
        "⚠️ WARNING"@
    }

    fn prefix() -> (r: &'static str) {
        "⚠️ WARNING"
    }

    fn to_stderr() -> bool {
        false
    }
}

impl MessageType for Success {
    open spec fn prefix_view() -> Seq<char> {
        "✅ SUCCESS"@
    }

    fn prefix() -> (r: &'static str) {
        "✅ SUCCESS"
    }

    fn to_stderr() -> bool {
        false
    }
}

impl MessageType for Info {
    open spec fn prefix_view() -> Seq<char> {
        "ℹ️ INFO"@
    }

    fn prefix() -> (r: &'static str) {
        "ℹ️ INFO"
    }

    fn to_stderr() -> bool {
        false
    }
}

/// `"<prefix>: <title>\n\n<details>"`.
pub open spec fn message_text(prefix: Seq<char>, title: Seq<char>, details: Seq<char>) -> Seq<
    char,
> {
    prefix + ": "@ + title + "\n\n"@ + details
}

/// A message of kind `T`: its prefix, the title, a blank line, the details.
pub fn format_message<T: MessageType>(title: &str, details: &str) -> (r: String)
    ensures
        r@ == message_text(T::prefix_view(), title@, details@),
{
    let mut s = String::from_str(T::prefix());
    s.append(": ");
    s.append(title);
    s.append("\n\n");
    s.append(details);
    s
}

/// A message of kind `T` followed by a blank line and a suggestion.
pub fn format_message_with_suggestion<T: MessageType>(
    title: &str,
    details: &str,
    suggestion: &str,
) -> (r: String)
    ensures
        r@ == message_text(T::prefix_view(), title@, details@) + "\n\n"@ + suggestion@,
{
    let mut s = format_message::<T>(title, details);
    s.append("\n\n");
    s.append(suggestion);
    s
}

/// Each item on its own line as `"  - <item>"`, lines joined by `'\n'`.
pub open spec fn list_text(items: Seq<Seq<char>>) -> Seq<char>
    decreases items.len(),
{
    if items.len() == 0 {
        Seq::empty()
    } else if items.len() == 1 {
        "  - "@ + items[0]
    } else {
        list_text(items.drop_last()) + "\n"@ + "  - "@ + items.last()
    }
}

/// Formats a list of items, one `"  - <item>"` line each.
pub fn format_list(items: &[&str]) -> (r: String)
    ensures
        r@ == list_text(items@.map_values(|s: &str| s@)),
{
    let ghost iv = items@.map_values(|s: &str| s@);
    let mut s = String::new();
    let mut i: usize = 0;
    while i < items.len()
        invariant
            i <= items@.len(),
            iv == items@.map_values(|s: &str| s@),
            s@ == list_text(iv.take(i as int)),
        decreases items.len() - i,
    {
        assert(iv.take(i + 1).drop_last() =~= iv.take(i as int));
        assert(iv.take(i + 1).last() == items@[i as int]@);
        if i > 0 {
            s.append("\n");
        }
        s.append("  - ");
        s.append(items[i]);
        proof {
            if i == 0 {
                assert(iv.take(1)[0] == items@[0]@);
                assert(s@ =~= list_text(iv.take(1)));
            } else {
                assert(s@ =~= list_text(iv.take(i + 1)));
            }
        }
        i = i + 1;
    }
    assert(iv.take(i as int) =~= iv);
    s
}

} // verus!
