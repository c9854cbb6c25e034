//! The link store: per-user links kept in a relation of `(user_id, link)`
//! records, with insertion, queries, an existence check and deletion.
//!
//! A store either keeps its relation in memory or stands for a database at
//! a location. Of a store in memory every operation is specified exactly,
//! over the table that `LinkStore::table` names. Of a database the
//! contracts state what the inputs alone decide and what holds whatever the
//! database answers. The inputs decide two things: a link that cannot be
//! bound is refused before the database is touched, and a location that
//! holds a NUL character is out of reach.
use vstd::prelude::*;
use vstd::string::*;
pub use crate::record::Links;
use crate::error::{batch_failure, batch_failure_of, texts_of, Failure, Fault, StoreError};
use crate::record::{filter_view, owned_filter_view, records_of, Record};
use crate::relation::{
    concerns, copy_rows, inserted, lemma_removed_many_none, lemma_removed_many_step, present,
    remove_matching, removed, removed_many, select_matching, selected,
};
use crate::session::{
    connect, fetch, own_fault, perform, perform_on, refused, unbindable_message,
};
use crate::statement::{bindable, Intent, Request};

verus! {

/// Where a store keeps its records.
#[derive(Debug)]
enum Backend {
    /// In a table of its own, in memory.
    Memory(Vec<Links>),
    /// In the database at this location.
    Database(String),
}

/// A store of link records.
#[derive(Debug)]
pub struct LinkStore {
    backend: Backend,
}

impl LinkStore {
    /// The relation of a store in memory, in the order of insertion. Of a
    /// database nothing is known here, and this is empty.
    pub closed spec fn table(&self) -> Seq<Record> {
        match self.backend {
            Backend::Memory(rows) => records_of(rows@),
            Backend::Database(_) => Seq::empty(),
        }
    }

    /// The location of the database that the store stands for, if any.
    pub closed spec fn location(&self) -> Option<Seq<char>> {
        match self.backend {
            Backend::Memory(_) => None,
            Backend::Database(location) => Some(location@),
        }
    }

    /// Whether the store keeps its records in memory: it does when it
    /// stands for no database.
    pub open spec fn in_memory(&self) -> bool {
        self.location() is None
    }

    /// Whether the store stands for a database at a location that holds a
    /// NUL character. No session can be opened there.
    pub open spec fn out_of_reach(&self) -> bool {
        match self.location() {
            Some(at) => at.contains('\0'),
            None => false,
        }
    }

    /// An empty store in memory.
    pub fn new_in_memory() -> (store: LinkStore)
        ensures
            store.in_memory(),
            store.table() == Seq::<Record>::empty(),
    {
        let rows: Vec<Links> = Vec::new();
        assert(records_of(rows@) =~= Seq::<Record>::empty());
        LinkStore { backend: Backend::Memory(rows) }
    }

    /// A store for the database at `location`. Without a location there is
    /// no store. The database is not touched here: each operation opens a
    /// session of its own.
    pub fn with_location(location: Option<&str>) -> (store: Result<LinkStore, StoreError>)
        ensures
            match location {
                Some(text) => store matches Ok(opened) && opened.location() == Some(text@),
                None => store matches Err(error) && error@ == Failure::ConfigurationMissing,
            },
    {
        match location {
            Some(text) => Ok(LinkStore { backend: Backend::Database(String::from_str(text)) }),
            None => Err(StoreError::ConfigurationMissing),
        }
    }
}

/// Adds one record for `user_id` with `link`. A record that is already
/// there is added once more.
pub fn add_link(store: &mut LinkStore, user_id: u64, link: &str) -> (done: Result<(), StoreError>)
    ensures
        final(store).location() == old(store).location(),
        old(store).in_memory() ==> done is Ok,
        old(store).in_memory() ==> final(store).table() == inserted(
            old(store).table(),
            user_id,
            link@,
        ),
        !old(store).in_memory() && !bindable(link@) ==> done is Err && done->Err_0@ == refused(
            (Request::Insert { user_id, link }),
            own_fault(unbindable_message()),
        ),
        old(store).out_of_reach() && bindable(link@) ==> done is Err
            && done->Err_0@ is BackendUnavailable,
        done matches Err(error) ==> error@.is_failure_of(Intent::Insert, Some(user_id)),
{
    match &mut store.backend {
        Backend::Memory(rows) => {
            let ghost held = rows@;
            let row = Links { user_id, link: String::from_str(link) };
            rows.push(row);
            assert(records_of(rows@) =~= records_of(held).push(row@));
            Ok(())
        },
        Backend::Database(location) => perform(
            location.as_str(),
            Request::Insert { user_id, link },
        ),
    }
}

/// Whether `user_id` has at least one record with exactly `link`.
pub fn is_link_exists(store: &LinkStore, user_id: u64, link: &str) -> (answer: Result<
    bool,
    StoreError,
>)
    ensures
        store.in_memory() ==> answer == Ok::<bool, StoreError>(
            present(store.table(), user_id, link@),
        ),
        !store.in_memory() && !bindable(link@) ==> answer is Err && answer->Err_0@ == refused(
            (Request::Select { user_id, link: Some(link) }),
            own_fault(unbindable_message()),
        ),
        store.out_of_reach() && bindable(link@) ==> answer is Err
            && answer->Err_0@ is BackendUnavailable,
        answer matches Err(error) ==> error@.is_failure_of(
            Intent::SelectByUserAndLink,
            Some(user_id),
        ),
{
    match get_all_links_from_user(store, user_id, Some(link)) {
        Ok(found) => Ok(found.len() > 0),
        Err(error) => Err(error),
    }
}

/// The records of `user_id`: all of them, or those whose link is exactly
/// `link`. They come in the order in which the backend holds them.
pub fn get_all_links_from_user(store: &LinkStore, user_id: u64, link: Option<&str>) -> (answer:
    Result<Vec<Links>, StoreError>)
    ensures
        store.in_memory() ==> answer is Ok,
        store.in_memory() ==> records_of(answer->Ok_0@) == selected(
            store.table(),
            user_id,
            filter_view(link),
        ),
        answer matches Ok(found) ==> forall|i: int|
            0 <= i < found@.len() ==> concerns(#[trigger] found@[i]@, user_id, filter_view(link)),
        !store.in_memory() && !(Request::Select { user_id, link }).spec_is_bindable()
            ==> answer is Err && answer->Err_0@ == refused(
            (Request::Select { user_id, link }),
            own_fault(unbindable_message()),
        ),
        store.out_of_reach() && (Request::Select { user_id, link }).spec_is_bindable()
            ==> answer is Err && answer->Err_0@ is BackendUnavailable,
        answer matches Err(error) ==> error@.is_failure_of(
            (Request::Select { user_id, link }).spec_intent(),
            Some(user_id),
        ),
{
    let wanted: Option<String> = match link {
        Some(text) => Some(String::from_str(text)),
        None => None,
    };
    assert(owned_filter_view(wanted) == filter_view(link));
    let found = match &store.backend {
        Backend::Memory(rows) => select_matching(rows, user_id, &wanted),
        Backend::Database(location) => {
            match fetch(location.as_str(), Request::Select { user_id, link }) {
                Ok(rows) => select_matching(&rows, user_id, &wanted),
                Err(error) => {
                    return Err(error);
                },
            }
        },
    };
    proof {
        broadcast use Seq::lemma_filter_pred;

        assert forall|i: int| 0 <= i < found@.len() implies concerns(
            #[trigger] found@[i]@,
            user_id,
            filter_view(link),
        ) by {
            assert(records_of(found@)[i] == found@[i]@);
        }
    }
    Ok(found)
}

/// Every record of every user, in the order in which the backend holds
/// them.
pub fn get_all_links(store: &LinkStore) -> (answer: Result<Vec<Links>, StoreError>)
    ensures
        store.in_memory() ==> answer is Ok,
        store.in_memory() ==> records_of(answer->Ok_0@) == store.table(),
        store.out_of_reach() ==> answer is Err && answer->Err_0@ is BackendUnavailable,
        answer matches Err(error) ==> error@.is_failure_of(Intent::SelectAll, None),
{
    match &store.backend {
        Backend::Memory(rows) => Ok(copy_rows(rows)),
        Backend::Database(location) => fetch(location.as_str(), Request::SelectAll),
    }
}

/// Deletes every record of `user_id`. A user without records is left as it
/// is, and that is no failure.
pub fn clear_all_links(store: &mut LinkStore, user_id: u64) -> (done: Result<(), StoreError>)
    ensures
        final(store).location() == old(store).location(),
        old(store).in_memory() ==> done is Ok,
        old(store).in_memory() ==> final(store).table() == removed(
            old(store).table(),
            user_id,
            None,
        ),
        old(store).out_of_reach() ==> done is Err && done->Err_0@ is BackendUnavailable,
        done matches Err(error) ==> error@.is_failure_of(Intent::DeleteByUser, Some(user_id)),
{
    match &mut store.backend {
        Backend::Memory(rows) => {
            let none: Option<String> = None;
            remove_matching(rows, user_id, &none);
            Ok(())
        },
        Backend::Database(location) => perform(location.as_str(), Request::Clear { user_id }),
    }
}

/// Deletes, for each link of `links` in turn, the records of `user_id`
/// that carry exactly that link. Each link is dealt with by a statement of
/// its own in one session. The first statement that is refused ends the
/// batch: what was deleted before stays deleted, and the report lists the
/// links from the refused one on. With no links nothing is done at all.
pub fn delete_some_links(store: &mut LinkStore, user_id: u64, links: Vec<&str>) -> (done: Result<
    (),
    StoreError,
>)
    ensures
        final(store).location() == old(store).location(),
        old(store).in_memory() || links@.len() == 0 ==> done is Ok,
        old(store).out_of_reach() && links@.len() > 0 ==> done is Err
            && done->Err_0@ is BackendUnavailable,
        old(store).in_memory() ==> final(store).table() == removed_many(
            old(store).table(),
            user_id,
            texts_of(links@),
        ),
        done matches Err(error) ==> {
            ||| error@.is_failure_of(Intent::DeleteByUserAndLink, Some(user_id))
            ||| exists|failed_at: int, fault: Fault|
                0 < failed_at < links@.len() && error@ == batch_failure_of(
                    user_id,
                    texts_of(links@),
                    failed_at,
                    fault,
                )
        },
{
    if links.len() == 0 {
        proof {
            assert(texts_of(links@) =~= Seq::<Seq<char>>::empty());
            lemma_removed_many_none(store.table(), user_id);
        }
        return Ok(());
    }
    if let Backend::Database(location) = &store.backend {
        let connection = match connect(
            location.as_str(),
            Request::Delete { user_id, link: links[0] },
        ) {
            Ok(connection) => connection,
            Err(error) => {
                return Err(error);
            },
        };
        let mut i: usize = 0;
        while i < links.len()
            invariant
                i <= links.len(),
                *store == *old(store),
                !store.in_memory(),
                !store.out_of_reach(),
            decreases links.len() - i,
        {
            match perform_on(&connection, Request::Delete { user_id, link: links[i] }) {
                Ok(()) => {},
                Err(StoreError::StatementError { fault, .. }) => {
                    return Err(batch_failure(user_id, &links, i, fault));
                },
                Err(error) => {
                    return Err(error);
                },
            }
            i = i + 1;
        }
        return Ok(());
    }
    if let Backend::Memory(rows) = &mut store.backend {
        let ghost start = records_of(rows@);
        let ghost texts = texts_of(links@);
        let mut i: usize = 0;
        proof {
            assert(texts.take(0) =~= Seq::<Seq<char>>::empty());
            lemma_removed_many_none(start, user_id);
        }
        while i < links.len()
            invariant
                i <= links.len(),
                texts == texts_of(links@),
                records_of(rows@) == removed_many(start, user_id, texts.take(i as int)),
            decreases links.len() - i,
        {
            let wanted: Option<String> = Some(String::from_str(links[i]));
            remove_matching(rows, user_id, &wanted);
            proof {
                lemma_removed_many_step(start, user_id, texts, i as int);
            }
            i = i + 1;
        }
        assert(texts.take(i as int) =~= texts);
    }
    Ok(())
}

} // verus!
