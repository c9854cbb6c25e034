//! The link record and its mathematical value.
use vstd::prelude::*;
use crate::decimal::{decimal_digits, decimal_value};

verus! {

/// One stored link together with the user that owns it.
#[derive(Debug, Clone, PartialEq, Eq)]
pub struct Links {
    pub user_id: u64,
    pub link: String,
}

/// What a link record is to the contracts: the owner and the link's characters.
pub struct Record {
    pub user_id: u64,
    pub link: Seq<char>,
}

impl View for Links {
    type V = Record;

    open spec fn view(&self) -> Record {
        Record { user_id: self.user_id, link: self.link@ }
    }
}

/// The records that a run of rows stands for, in the same order.
pub open spec fn records_of(rows: Seq<Links>) -> Seq<Record> {
    rows.map_values(|row: Links| row@)
}

/// The characters of an optional link filter.
pub open spec fn filter_view(link: Option<&str>) -> Option<Seq<char>> {
    match link {
        Some(text) => Some(text@),
        None => None,
    }
}

/// The characters of an owned optional link filter.
pub open spec fn owned_filter_view(link: Option<String>) -> Option<Seq<char>> {
    match link {
        Some(text) => Some(text@),
        None => None,
    }
}

impl Links {
    /// A copy of this record.
    pub fn duplicate(&self) -> (copy: Links)
        ensures
            copy@ == self@,
    {
        Links { user_id: self.user_id, link: self.link.clone() }
    }
}

/// Maps one backend row to one link record. The row is refused when its
/// first column is not exactly the decimal text of an unsigned 64-bit number.
pub fn row_to_links(user_text: &str, link: String) -> (row: Option<Links>)
    ensures
        match row {
            Some(links) => {
                &&& user_text@ == decimal_digits(links.user_id as nat)
                &&& links.link@ == link@
            },
            None => forall|n: u64| user_text@ != #[trigger] decimal_digits(n as nat),
        },
{
    match decimal_value(user_text) {
        Some(user_id) => Some(Links { user_id, link }),
        None => None,
    }
}

} // verus!
