//! What holds of the operations on the relation, whatever it contains.
//!
//! Each statement here is over the spec functions in which the store's
//! operations are specified, so it holds of every store in memory: of the
//! table before and after `add_link`, `clear_all_links` and
//! `delete_some_links`, and of what `get_all_links_from_user` and
//! `is_link_exists` answer.
use vstd::prelude::*;
use crate::record::Record;
use crate::relation::{
    concerns, inserted, lemma_filter_agrees, lemma_filter_keeps_all, lemma_filter_keeps_none,
    lemma_filter_twice, present, removed, removed_many, selected,
};

verus! {

/// A query after an insertion answers with what it answered before and,
/// where the new record is asked for, with the new record after that.
pub proof fn lemma_query_after_insert(
    table: Seq<Record>,
    user_id: u64,
    link: Seq<char>,
    asked_user: u64,
    asked_link: Option<Seq<char>>,
)
    ensures
        selected(inserted(table, user_id, link), asked_user, asked_link) == if concerns(
            Record { user_id, link },
            asked_user,
            asked_link,
        ) {
            selected(table, asked_user, asked_link).push(Record { user_id, link })
        } else {
            selected(table, asked_user, asked_link)
        },
{
    table.lemma_filter_push(
        Record { user_id, link },
        |record: Record| concerns(record, asked_user, asked_link),
    );
}

/// Once a link was added for a user, the user has that link.
pub proof fn lemma_insert_then_exists(table: Seq<Record>, user_id: u64, link: Seq<char>)
    ensures
        present(inserted(table, user_id, link), user_id, link),
{
    lemma_query_after_insert(table, user_id, link, user_id, Some(link));
}

/// Adding the same link twice for a user adds two records: a query for that
/// link answers with both, after what it answered before. Where the user
/// did not have the link, the answer is those two records and no more.
pub proof fn lemma_duplicates_are_kept(table: Seq<Record>, user_id: u64, link: Seq<char>)
    ensures
        selected(
            inserted(inserted(table, user_id, link), user_id, link),
            user_id,
            Some(link),
        ) == selected(table, user_id, Some(link)).push(Record { user_id, link }).push(
            Record { user_id, link },
        ),
        selected(
            inserted(inserted(table, user_id, link), user_id, link),
            user_id,
            Some(link),
        ).len() == selected(table, user_id, Some(link)).len() + 2,
        !present(table, user_id, link) ==> selected(
            inserted(inserted(table, user_id, link), user_id, link),
            user_id,
            Some(link),
        ) == seq![Record { user_id, link }, Record { user_id, link }],
{
    let once = inserted(table, user_id, link);
    lemma_query_after_insert(table, user_id, link, user_id, Some(link));
    lemma_query_after_insert(once, user_id, link, user_id, Some(link));
    if !present(table, user_id, link) {
        assert(selected(table, user_id, Some(link)) =~= Seq::<Record>::empty());
        assert(Seq::<Record>::empty().push(Record { user_id, link }).push(
            Record { user_id, link },
        ) =~= seq![Record { user_id, link }, Record { user_id, link }]);
    }
}

/// A query answers only with records of the user it asks for and, where it
/// asks for a link, only with records that carry exactly that link.
pub proof fn lemma_query_is_scoped(table: Seq<Record>, user_id: u64, link: Option<Seq<char>>)
    ensures
        forall|i: int|
            0 <= i < selected(table, user_id, link).len() ==> concerns(
                #[trigger] selected(table, user_id, link)[i],
                user_id,
                link,
            ),
{
    broadcast use Seq::lemma_filter_pred;

}

/// A query answers with every record of the relation that it asks for: a
/// user has a link exactly when some record of the relation says so.
pub proof fn lemma_present_iff_recorded(table: Seq<Record>, user_id: u64, link: Seq<char>)
    ensures
        present(table, user_id, link) <==> table.contains(Record { user_id, link }),
{
    let wanted = |record: Record| concerns(record, user_id, Some(link));
    let found = table.filter(wanted);
    if table.contains(Record { user_id, link }) {
        let i = choose|i: int| 0 <= i < table.len() && table[i] == Record { user_id, link };
        table.lemma_filter_contains(wanted, i);
    }
    if found.len() > 0 {
        table.lemma_filter_pred(wanted, 0);
        assert(found.contains(found[0]));
        table.lemma_filter_contains_rev(wanted, found[0]);
        assert(found[0] == Record { user_id, link });
    }
}

/// A user without records has no link, and a user none of whose records
/// carries a link does not have that link.
pub proof fn lemma_absent_is_not_found(table: Seq<Record>, user_id: u64, link: Seq<char>)
    ensures
        (forall|i: int| 0 <= i < table.len() ==> (#[trigger] table[i]).user_id != user_id)
            ==> !present(table, user_id, link),
        (forall|i: int|
            0 <= i < table.len() ==> !((#[trigger] table[i]).user_id == user_id && table[i].link
                == link)) ==> !present(table, user_id, link),
        selected(table, user_id, None).len() == 0 ==> !present(table, user_id, link),
{
    lemma_present_iff_recorded(table, user_id, link);
    if present(table, user_id, link) {
        let i = choose|i: int| 0 <= i < table.len() && table[i] == Record { user_id, link };
        assert(table[i].user_id == user_id && table[i].link == link);
        table.lemma_filter_contains(|record: Record| concerns(record, user_id, None), i);
    }
}

/// Clearing a user leaves the user without records and every other user's
/// records as they were.
pub proof fn lemma_clear_clears(
    table: Seq<Record>,
    user_id: u64,
    asked_user: u64,
    asked_link: Option<Seq<char>>,
)
    ensures
        selected(removed(table, user_id, None), user_id, asked_link) == Seq::<Record>::empty(),
        asked_user != user_id ==> selected(removed(table, user_id, None), asked_user, asked_link)
            == selected(table, asked_user, asked_link),
{
    let kept = |record: Record| !concerns(record, user_id, None);
    let own = |record: Record| concerns(record, user_id, asked_link);
    let kept_and_own = |record: Record| kept(record) && own(record);
    lemma_filter_twice(table, kept, own, kept_and_own);
    lemma_filter_keeps_none(table, kept_and_own);
    if asked_user != user_id {
        let other = |record: Record| concerns(record, asked_user, asked_link);
        let kept_and_other = |record: Record| kept(record) && other(record);
        lemma_filter_twice(table, kept, other, kept_and_other);
        lemma_filter_agrees(table, kept_and_other, other);
    }
}

/// Clearing a user without records changes nothing, and clearing twice in
/// a row gives what clearing once gives.
pub proof fn lemma_clear_is_idempotent(table: Seq<Record>, user_id: u64)
    ensures
        selected(table, user_id, None).len() == 0 ==> removed(table, user_id, None) == table,
        removed(removed(table, user_id, None), user_id, None) == removed(table, user_id, None),
{
    let kept = |record: Record| !concerns(record, user_id, None);
    lemma_filter_twice(table, kept, kept, kept);
    if selected(table, user_id, None).len() == 0 {
        assert forall|i: int| 0 <= i < table.len() implies kept(#[trigger] table[i]) by {
            if !kept(table[i]) {
                table.lemma_filter_contains(|record: Record| concerns(record, user_id, None), i);
            }
        }
        lemma_filter_keeps_all(table, kept);
    }
}

/// Deleting some links of a user leaves the user exactly the records whose
/// link is not among them, in their order, and leaves every other user's
/// records as they were.
pub proof fn lemma_delete_is_precise(
    table: Seq<Record>,
    user_id: u64,
    links: Seq<Seq<char>>,
    asked_user: u64,
    asked_link: Option<Seq<char>>,
)
    ensures
        selected(removed_many(table, user_id, links), user_id, asked_link) == selected(
            table,
            user_id,
            asked_link,
        ).filter(|record: Record| !links.contains(record.link)),
        asked_user != user_id ==> selected(
            removed_many(table, user_id, links),
            asked_user,
            asked_link,
        ) == selected(table, asked_user, asked_link),
{
    let kept = |record: Record| !(record.user_id == user_id && links.contains(record.link));
    let own = |record: Record| concerns(record, user_id, asked_link);
    let unlisted = |record: Record| !links.contains(record.link);
    let own_and_unlisted = |record: Record| own(record) && unlisted(record);
    lemma_filter_twice(table, kept, own, own_and_unlisted);
    lemma_filter_twice(table, own, unlisted, own_and_unlisted);
    if asked_user != user_id {
        let other = |record: Record| concerns(record, asked_user, asked_link);
        let kept_and_other = |record: Record| kept(record) && other(record);
        lemma_filter_twice(table, kept, other, kept_and_other);
        lemma_filter_agrees(table, kept_and_other, other);
    }
}

} // verus!
