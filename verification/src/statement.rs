//! The statements that the store sends to a database: their text and the
//! values bound to their placeholders.
use vstd::prelude::*;
use vstd::string::*;
use vstd::std_specs::iter::IteratorSpec;
use vstd::utf8::encode_utf8;
use crate::decimal::{decimal_digits, decimal_text};

verus! {

/// The most bytes that a value bound to a placeholder may have: a database
/// takes the length of a value as a signed 32-bit number.
pub const MAX_VALUE_BYTES: usize = 0x7fff_ffff;

/// Whether a text has more bytes than a bound value may have.
pub open spec fn oversize(text: Seq<char>) -> bool {
    encode_utf8(text).len() > MAX_VALUE_BYTES
}

/// Whether a text can be bound to a placeholder and read back as it is: it
/// is not oversize, and it holds no NUL character, at which a database cuts
/// a text off when it hands it back.
pub open spec fn bindable(text: Seq<char>) -> bool {
    !oversize(text) && !text.contains('\0')
}

/// Whether `text` can be bound to a placeholder and read back as it is.
pub fn is_bindable(text: &str) -> (answer: bool)
    ensures
        answer == bindable(text@),
{
    broadcast use vstd::string::group_string_axioms;
    broadcast use vstd::slice::group_slice_axioms;

    if text.as_bytes().len() > MAX_VALUE_BYTES {
        return false;
    }
    let ghost s = text@;
    let mut chars = text.chars();
    let ghost mut seen: int = 0;
    loop
        invariant
            s == text@,
            !oversize(s),
            0 <= seen <= s.len(),
            chars.obeys_prophetic_iter_laws(),
            chars.decrease() is Some,
            chars.remaining() == s.skip(seen),
            forall|j: int| 0 <= j < seen ==> s[j] != '\0',
        decreases s.len() - seen,
    {
        let ghost before = chars;
        match chars.next() {
            Some(c) => {
                proof {
                    assert(before.remaining().len() > 0);
                    assert(c == s[seen]);
                    assert(s.skip(seen).drop_first() =~= s.skip(seen + 1));
                }
                if c == '\0' {
                    return false;
                }
                proof {
                    seen = seen + 1;
                }
            },
            None => {
                proof {
                    assert(s.skip(seen).len() == 0);
                }
                return true;
            },
        }
    }
}

/// What a statement is meant to do.
#[derive(Debug, Clone, Copy, PartialEq, Eq, Structural)]
pub enum Intent {
    /// Add one row.
    Insert,
    /// Read the rows of one user.
    SelectByUser,
    /// Read the rows of one user that carry one link.
    SelectByUserAndLink,
    /// Read every row.
    SelectAll,
    /// Delete the rows of one user.
    DeleteByUser,
    /// Delete the rows of one user that carry one link.
    DeleteByUserAndLink,
}

/// The text of the statement for each intent. Placeholders are positional:
/// the user comes first and the link second.
pub open spec fn statement_text(intent: Intent) -> Seq<char> {
    match intent {
        Intent::Insert => "INSERT INTO links VALUES (?, ?)"@,
        Intent::SelectByUser => "SELECT * FROM links WHERE user_id = ?"@,
        Intent::SelectByUserAndLink => "SELECT * FROM links WHERE user_id = ? AND link = ?"@,
        Intent::SelectAll => "SELECT * FROM links"@,
        Intent::DeleteByUser => "DELETE FROM links WHERE user_id = ?"@,
        Intent::DeleteByUserAndLink => "DELETE FROM links WHERE user_id = ? AND link = ?"@,
    }
}

impl Intent {
    /// The text of the statement for this intent.
    pub fn text(self) -> (text: &'static str)
        ensures
            text@ == statement_text(self),
    {
        match self {
            Intent::Insert => "INSERT INTO links VALUES (?, ?)",
            Intent::SelectByUser => "SELECT * FROM links WHERE user_id = ?",
            Intent::SelectByUserAndLink => "SELECT * FROM links WHERE user_id = ? AND link = ?",
            Intent::SelectAll => "SELECT * FROM links",
            Intent::DeleteByUser => "DELETE FROM links WHERE user_id = ?",
            Intent::DeleteByUserAndLink => "DELETE FROM links WHERE user_id = ? AND link = ?",
        }
    }
}

/// One statement together with the values it is run with.
#[derive(Debug, Clone, Copy, PartialEq, Eq)]
#[allow(inconsistent_fields)]
pub enum Request<'a> {
    /// Add a record for `user_id` with `link`.
    Insert { user_id: u64, link: &'a str },
    /// Read the records of `user_id`, all of them or those with `link`.
    Select { user_id: u64, link: Option<&'a str> },
    /// Read every record of every user.
    SelectAll,
    /// Delete every record of `user_id`.
    Clear { user_id: u64 },
    /// Delete the records of `user_id` that carry `link`.
    Delete { user_id: u64, link: &'a str },
}

impl<'a> Request<'a> {
    /// The intent that this request is sent with. A query is sent with the
    /// link filter in its text only when a link is given.
    pub open spec fn spec_intent(self) -> Intent {
        match self {
            Request::Insert { .. } => Intent::Insert,
            Request::Select { link: None, .. } => Intent::SelectByUser,
            Request::Select { link: Some(_), .. } => Intent::SelectByUserAndLink,
            Request::SelectAll => Intent::SelectAll,
            Request::Clear { .. } => Intent::DeleteByUser,
            Request::Delete { .. } => Intent::DeleteByUserAndLink,
        }
    }

    /// The user that this request is about, if it is about one.
    pub open spec fn spec_user_id(self) -> Option<u64> {
        match self {
            Request::Insert { user_id, .. } => Some(user_id),
            Request::Select { user_id, .. } => Some(user_id),
            Request::SelectAll => None,
            Request::Clear { user_id } => Some(user_id),
            Request::Delete { user_id, .. } => Some(user_id),
        }
    }

    /// The link that this request carries, if it carries one.
    pub open spec fn spec_link(self) -> Option<Seq<char>> {
        match self {
            Request::Insert { link, .. } => Some(link@),
            Request::Select { link: Some(link), .. } => Some(link@),
            Request::Select { link: None, .. } => None,
            Request::SelectAll => None,
            Request::Clear { .. } => None,
            Request::Delete { link, .. } => Some(link@),
        }
    }

    /// The values bound to the placeholders of the statement, in their
    /// order: the user in decimal, then the link.
    pub open spec fn spec_values(self) -> Seq<Seq<char>> {
        let user = match self.spec_user_id() {
            Some(user_id) => seq![decimal_digits(user_id as nat)],
            None => Seq::<Seq<char>>::empty(),
        };
        match self.spec_link() {
            Some(link) => user.push(link),
            None => user,
        }
    }

    /// Whether the link of this request, where it carries one, can be
    /// bound to its placeholder and read back as it is.
    pub open spec fn spec_is_bindable(self) -> bool {
        match self.spec_link() {
            Some(link) => bindable(link),
            None => true,
        }
    }

    #[verifier::when_used_as_spec(spec_intent)]
    pub fn intent(self) -> (intent: Intent)
        ensures
            intent == self.spec_intent(),
    {
        match self {
            Request::Insert { .. } => Intent::Insert,
            Request::Select { link: None, .. } => Intent::SelectByUser,
            Request::Select { link: Some(_), .. } => Intent::SelectByUserAndLink,
            Request::SelectAll => Intent::SelectAll,
            Request::Clear { .. } => Intent::DeleteByUser,
            Request::Delete { .. } => Intent::DeleteByUserAndLink,
        }
    }

    #[verifier::when_used_as_spec(spec_user_id)]
    pub fn user_id(self) -> (user: Option<u64>)
        ensures
            user == self.spec_user_id(),
    {
        match self {
            Request::Insert { user_id, .. } => Some(user_id),
            Request::Select { user_id, .. } => Some(user_id),
            Request::SelectAll => None,
            Request::Clear { user_id } => Some(user_id),
            Request::Delete { user_id, .. } => Some(user_id),
        }
    }

    /// The link that this request carries, if it carries one.
    pub fn link(self) -> (link: Option<&'a str>)
        ensures
            match link {
                Some(text) => self.spec_link() == Some(text@),
                None => self.spec_link().is_none(),
            },
    {
        match self {
            Request::Insert { link, .. } => Some(link),
            Request::Select { link, .. } => link,
            Request::SelectAll => None,
            Request::Clear { .. } => None,
            Request::Delete { link, .. } => Some(link),
        }
    }

    #[verifier::when_used_as_spec(spec_is_bindable)]
    pub fn is_bindable(self) -> (answer: bool)
        ensures
            answer == self.spec_is_bindable(),
    {
        match self.link() {
            Some(link) => is_bindable(link),
            None => true,
        }
    }

    /// The text of the statement that this request is sent as.
    pub fn text(self) -> (text: &'static str)
        ensures
            text@ == statement_text(self.spec_intent()),
    {
        self.intent().text()
    }

    /// The values to bind, in the order of the placeholders.
    pub fn values(self) -> (values: Vec<String>)
        ensures
            values@.map_values(|text: String| text@) == self.spec_values(),
    {
        let mut values: Vec<String> = Vec::new();
        if let Some(user_id) = self.user_id() {
            values.push(decimal_text(user_id));
        }
        if let Some(link) = self.link() {
            values.push(String::from_str(link));
        }
        assert(values@.map_values(|text: String| text@) =~= self.spec_values());
        values
    }
}

} // verus!
