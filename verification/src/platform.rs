//! What to do with a message: whether it asks for a picture, and what goes
//! back to the sender.

use crate::code::{into_barcode, marked, merge2memory, merged_file};
use crate::error::BarcodeError;
use std::sync::Arc;
use vstd::prelude::*;
use vstd::string::*;

verus! {

/// What goes back to the sender of a text.
#[derive(Debug)]
pub enum Reply {
    /// Nothing: the text is not one to make a picture of.
    Ignore,
    /// A note that the picture could not be made, with the reason.
    Failure(BarcodeError),
    /// The picture, as the bytes of a PNG file.
    Photo(Vec<u8>),
}

/// The pattern a text must match to be made a picture of: a run of five or
/// more word characters or digits.
pub open spec fn text_pattern() -> Seq<char> {
    "[\\w\\d]{5,}"@
}

/// Whether a chat message asks for a picture: it comes from the owner's
/// chat, has a text, and the text is no command, that is, does not begin
/// with a slash.
pub open spec fn is_request(owner: i64, chat: Option<i64>, text: Option<Seq<char>>) -> bool {
    chat == Some(owner) && match text {
        Some(t) => !(t.len() > 0 && t[0] == '/'),
        None => false,
    }
}

/// The text of a message as a sequence of characters.
pub open spec fn text_view(text: Option<&str>) -> Option<Seq<char>> {
    match text {
        Some(t) => Some(t@),
        None => None,
    }
}

/// Whether a chat message asks for a picture.
pub fn is_owner_request(owner: i64, chat: Option<i64>, text: Option<&str>) -> (r: bool)
    ensures
        r == is_request(owner, chat, text_view(text)),
{
    let from_owner = match chat {
        Some(id) => id == owner,
        None => false,
    };
    if !from_owner {
        return false;
    }
    match text {
        None => false,
        Some(t) => t.is_empty() || t.get_char(0) != '/',
    }
}

/// Whether the regular expression `pattern` matches somewhere in `text`, or
/// nothing where `pattern` is no regular expression that can be compiled.
pub uninterp spec fn regex_match(pattern: Seq<char>, text: Seq<char>) -> Option<bool>;

/// Calls `regex::Regex::new` on the pattern and, where that gives a regular
/// expression, `Regex::is_match` on the text. Nothing is proved of the
/// outcome: it is only given the name [`regex_match`].
#[verifier::external_body]
pub(crate) fn regex_is_match(pattern: &str, text: &str) -> (r: Option<bool>)
    ensures
        r == regex_match(pattern@, text@),
{
    match regex::Regex::new(pattern) {
        Ok(re) => Some(re.is_match(text)),
        Err(_) => None,
    }
}

/// The plain content of a [`Reply`].
pub enum ReplyView {
    Ignore,
    Failure(BarcodeError),
    Photo(Seq<u8>),
}

impl View for Reply {
    type V = ReplyView;

    open spec fn view(&self) -> ReplyView {
        match *self {
            Reply::Ignore => ReplyView::Ignore,
            Reply::Failure(e) => ReplyView::Failure(e),
            Reply::Photo(bytes) => ReplyView::Photo(bytes@),
        }
    }
}

/// The reply to a text: nothing where the text is not wanted, else the file
/// made of the identifier and the marked text, or the reason why there is
/// none.
pub open spec fn reply_to(text: Seq<char>, self_id: Seq<char>, wanted: bool) -> ReplyView {
    if !wanted {
        ReplyView::Ignore
    } else {
        match merged_file(self_id, marked(text)) {
            Ok(file) => ReplyView::Photo(file),
            Err(e) => ReplyView::Failure(e),
        }
    }
}

/// Makes the reply to a text, given whether it matches the pattern: a text
/// that does is marked for code set A and drawn below the identifier.
pub fn answer(text: &str, self_id: Arc<String>, wanted: bool) -> (r: Reply)
    ensures
        r@ == reply_to(text@, self_id@, wanted),
{
    if !wanted {
        return Reply::Ignore;
    }
    let barcode = into_barcode(text);
    match merge2memory(self_id, barcode.as_str()) {
        Ok(image) => Reply::Photo(image),
        Err(e) => Reply::Failure(e),
    }
}

/// Makes the reply to a text: tests it against the pattern and answers.
/// Returns nothing where the pattern itself is refused.
pub fn handle_message(text: &str, self_id: Arc<String>) -> (r: Option<Reply>)
    ensures
        match regex_match(text_pattern(), text@) {
            None => r is None,
            Some(wanted) => r matches Some(reply) && reply@ == reply_to(text@, self_id@, wanted),
        },
{
    match regex_is_match("[\\w\\d]{5,}", text) {
        None => None,
        Some(wanted) => Some(answer(text, self_id, wanted)),
    }
}

} // verus!
