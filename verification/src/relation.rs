//! The `links` relation as a sequence of records, and the meaning of the
//! store's operations on it.
//!
//! The spec functions here say what each operation does to the relation and
//! what it answers. The executable functions carry them out on rows held in
//! memory: on the table of a store that lives in memory, and on the rows that
//! a database handed back.
use vstd::prelude::*;
use crate::record::{owned_filter_view, records_of, Links, Record};

verus! {

/// Whether a record belongs to `user_id` and, where a link is asked for,
/// carries exactly that link.
pub open spec fn concerns(record: Record, user_id: u64, link: Option<Seq<char>>) -> bool {
    &&& record.user_id == user_id
    &&& match link {
        Some(text) => record.link == text,
        None => true,
    }
}

/// The relation after one record was added: it comes last, and nothing else
/// changes.
pub open spec fn inserted(table: Seq<Record>, user_id: u64, link: Seq<char>) -> Seq<Record> {
    table.push(Record { user_id, link })
}

/// The records that a query answers with, in the relation's order.
pub open spec fn selected(table: Seq<Record>, user_id: u64, link: Option<Seq<char>>) -> Seq<
    Record,
> {
    table.filter(|record: Record| concerns(record, user_id, link))
}

/// The relation after every record that the query would answer with was
/// deleted. Without a link this clears the user.
pub open spec fn removed(table: Seq<Record>, user_id: u64, link: Option<Seq<char>>) -> Seq<
    Record,
> {
    table.filter(|record: Record| !concerns(record, user_id, link))
}

/// The relation after the user's records with any of the listed links were
/// deleted.
pub open spec fn removed_many(table: Seq<Record>, user_id: u64, links: Seq<Seq<char>>) -> Seq<
    Record,
> {
    table.filter(|record: Record| !(record.user_id == user_id && links.contains(record.link)))
}

/// Whether the user has at least one record with that link.
pub open spec fn present(table: Seq<Record>, user_id: u64, link: Seq<char>) -> bool {
    selected(table, user_id, Some(link)).len() > 0
}

/// Two predicates that agree on every element keep the same elements.
pub proof fn lemma_filter_agrees<A>(s: Seq<A>, p: spec_fn(A) -> bool, q: spec_fn(A) -> bool)
    requires
        forall|i: int| 0 <= i < s.len() ==> p(#[trigger] s[i]) == q(s[i]),
    ensures
        s.filter(p) == s.filter(q),
    decreases s.len(),
{
    reveal(Seq::filter);
    if s.len() > 0 {
        lemma_filter_agrees(s.drop_last(), p, q);
    }
}

/// Filtering twice keeps what both predicates accept.
pub proof fn lemma_filter_twice<A>(
    s: Seq<A>,
    p: spec_fn(A) -> bool,
    q: spec_fn(A) -> bool,
    both: spec_fn(A) -> bool,
)
    requires
        forall|i: int| 0 <= i < s.len() ==> both(#[trigger] s[i]) == (p(s[i]) && q(s[i])),
    ensures
        s.filter(p).filter(q) == s.filter(both),
    decreases s.len(),
{
    reveal(Seq::filter);
    if s.len() > 0 {
        lemma_filter_twice(s.drop_last(), p, q, both);
        let rest = s.drop_last().filter(p);
        if p(s.last()) {
            assert(rest.push(s.last()).drop_last() =~= rest);
        }
    }
}

/// A sequence whose elements all pass is its own filter.
pub proof fn lemma_filter_keeps_all<A>(s: Seq<A>, p: spec_fn(A) -> bool)
    requires
        forall|i: int| 0 <= i < s.len() ==> p(#[trigger] s[i]),
    ensures
        s.filter(p) == s,
    decreases s.len(),
{
    reveal(Seq::filter);
    if s.len() > 0 {
        lemma_filter_keeps_all(s.drop_last(), p);
        assert(s.drop_last().push(s.last()) =~= s);
    }
}

/// A sequence none of whose elements pass has an empty filter.
pub proof fn lemma_filter_keeps_none<A>(s: Seq<A>, p: spec_fn(A) -> bool)
    requires
        forall|i: int| 0 <= i < s.len() ==> !p(#[trigger] s[i]),
    ensures
        s.filter(p) == Seq::<A>::empty(),
    decreases s.len(),
{
    reveal(Seq::filter);
    if s.len() > 0 {
        lemma_filter_keeps_none(s.drop_last(), p);
    }
}

/// Taking out an element that does not pass leaves the filter as it was.
pub proof fn lemma_filter_without<A>(s: Seq<A>, p: spec_fn(A) -> bool, i: int)
    requires
        0 <= i < s.len(),
        !p(s[i]),
    ensures
        s.remove(i).filter(p) == s.filter(p),
    decreases s.len(),
{
    reveal(Seq::filter);
    if i == s.len() - 1 {
        assert(s.remove(i) =~= s.drop_last());
    } else {
        lemma_filter_without(s.drop_last(), p, i);
        assert(s.remove(i).drop_last() =~= s.drop_last().remove(i));
        assert(s.remove(i).last() == s.last());
    }
}

/// Removing the user's records one link at a time comes to removing the
/// records with any of the links: after the first `done` links are dealt
/// with, dealing with the next one gives what `done + 1` links give.
pub proof fn lemma_removed_many_step(
    table: Seq<Record>,
    user_id: u64,
    links: Seq<Seq<char>>,
    done: int,
)
    requires
        0 <= done < links.len(),
    ensures
        removed(removed_many(table, user_id, links.take(done)), user_id, Some(links[done]))
            == removed_many(table, user_id, links.take(done + 1)),
{
    let earlier = links.take(done);
    let later = links.take(done + 1);
    let link = links[done];
    let p = |record: Record| !(record.user_id == user_id && earlier.contains(record.link));
    let q = |record: Record| !concerns(record, user_id, Some(link));
    let both = |record: Record| !(record.user_id == user_id && later.contains(record.link));
    assert forall|text: Seq<char>| later.contains(text) == (earlier.contains(text) || text
        == link) by {
        if later.contains(text) {
            let j = choose|j: int| 0 <= j < later.len() && later[j] == text;
            if j < done {
                assert(earlier[j] == text);
            }
        }
        if earlier.contains(text) {
            let j = choose|j: int| 0 <= j < earlier.len() && earlier[j] == text;
            assert(later[j] == text);
        }
        if text == link {
            assert(later[done] == text);
        }
    }
    lemma_filter_twice(table, p, q, both);
}

/// Removing the records of no link at all removes nothing.
pub proof fn lemma_removed_many_none(table: Seq<Record>, user_id: u64)
    ensures
        removed_many(table, user_id, Seq::<Seq<char>>::empty()) == table,
{
    let none = Seq::<Seq<char>>::empty();
    lemma_filter_keeps_all(
        table,
        |record: Record| !(record.user_id == user_id && none.contains(record.link)),
    );
}

/// Whether a row is one that a query for `user_id` and `link` asks for.
pub fn row_concerns(row: &Links, user_id: u64, link: &Option<String>) -> (answer: bool)
    ensures
        answer == concerns(
            row@,
            user_id,
            owned_filter_view(*link),
        ),
{
    if row.user_id != user_id {
        return false;
    }
    match link {
        Some(text) => row.link == *text,
        None => true,
    }
}

/// Copies out the rows that a query for `user_id` and `link` asks for, in
/// the order in which they stand.
pub fn select_matching(rows: &Vec<Links>, user_id: u64, link: &Option<String>) -> (found: Vec<
    Links,
>)
    ensures
        records_of(found@) == selected(
            records_of(rows@),
            user_id,
            owned_filter_view(*link),
        ),
{
    let ghost wanted: Option<Seq<char>> = owned_filter_view(*link);
    let ghost keep = |record: Record| concerns(record, user_id, wanted);
    let mut found: Vec<Links> = Vec::new();
    let mut i: usize = 0;
    proof {
        reveal(Seq::filter);
        assert(records_of(rows@.take(0)) =~= Seq::<Record>::empty());
    }
    while i < rows.len()
        invariant
            i <= rows.len(),
            wanted == owned_filter_view(*link),
            keep == |record: Record| concerns(record, user_id, wanted),
            records_of(found@) == records_of(rows@.take(i as int)).filter(keep),
        decreases rows.len() - i,
    {
        let ghost before = records_of(rows@.take(i as int));
        let ghost after = records_of(rows@.take(i + 1));
        proof {
            reveal(Seq::filter);
            assert(after.drop_last() =~= before);
            assert(after.last() == rows@[i as int]@);
        }
        if row_concerns(&rows[i], user_id, link) {
            let copy = rows[i].duplicate();
            let ghost found_before = found@;
            found.push(copy);
            proof {
                assert(records_of(found@) =~= records_of(found_before).push(copy@));
            }
        }
        i = i + 1;
    }
    assert(rows@.take(i as int) =~= rows@);
    found
}

/// Copies out every row, in the order in which they stand.
pub fn copy_rows(rows: &Vec<Links>) -> (copy: Vec<Links>)
    ensures
        records_of(copy@) == records_of(rows@),
{
    let mut copy: Vec<Links> = Vec::new();
    let mut i: usize = 0;
    while i < rows.len()
        invariant
            i <= rows.len(),
            records_of(copy@) == records_of(rows@.take(i as int)),
        decreases rows.len() - i,
    {
        let row = rows[i].duplicate();
        let ghost held = copy@;
        copy.push(row);
        proof {
            assert(records_of(copy@) =~= records_of(held).push(row@));
            assert(records_of(rows@.take(i + 1)) =~= records_of(rows@.take(i as int)).push(
                rows@[i as int]@,
            ));
        }
        i = i + 1;
    }
    assert(rows@.take(i as int) =~= rows@);
    copy
}

/// Deletes the rows that a query for `user_id` and `link` asks for and keeps
/// the others in their order.
pub fn remove_matching(rows: &mut Vec<Links>, user_id: u64, link: &Option<String>)
    ensures
        records_of(final(rows)@) == removed(
            records_of(old(rows)@),
            user_id,
            owned_filter_view(*link),
        ),
{
    let ghost wanted: Option<Seq<char>> = owned_filter_view(*link);
    let ghost keep = |record: Record| !concerns(record, user_id, wanted);
    let ghost target = records_of(old(rows)@).filter(keep);
    let mut i: usize = 0;
    while i < rows.len()
        invariant
            i <= rows.len(),
            wanted == owned_filter_view(*link),
            keep == |record: Record| !concerns(record, user_id, wanted),
            records_of(rows@).filter(keep) == target,
            forall|j: int| 0 <= j < i ==> keep(#[trigger] records_of(rows@)[j]),
        decreases rows.len() - i,
    {
        if row_concerns(&rows[i], user_id, link) {
            let ghost before = rows@;
            rows.remove(i);
            proof {
                assert(records_of(rows@) =~= records_of(before).remove(i as int));
                lemma_filter_without(records_of(before), keep, i as int);
            }
        } else {
            i = i + 1;
        }
    }
    proof {
        lemma_filter_keeps_all(records_of(rows@), keep);
    }
}

} // verus!
