use vstd::prelude::*;
use crate::models::Url;
use crate::table::{created, holds, ids_unique, is_older, target_of};

verus! {

/// Resolving an identifier right after it was created yields exactly the
/// URL it was created for.
pub proof fn lemma_resolve_after_create(
    old: Seq<Url>,
    new: Seq<Url>,
    id: Seq<char>,
    target: Seq<char>,
)
    requires
        ids_unique(old),
        created(old, new, id, target),
    ensures
        holds(new, id),
        target_of(new, id) == Some(target),
{
    lemma_create_keeps_ids_unique(old, new, id, target);
    let last = new.len() - 1;
    assert(new[last].short_url@ == id);
    crate::table::lemma_target_at(new, last);
}

/// A create keeps identifiers unique among live mappings.
pub proof fn lemma_create_keeps_ids_unique(
    old: Seq<Url>,
    new: Seq<Url>,
    id: Seq<char>,
    target: Seq<char>,
)
    requires
        ids_unique(old),
        created(old, new, id, target),
    ensures
        ids_unique(new),
{
    let last = new.len() - 1;
    assert forall|i: int, j: int|
        0 <= i < new.len() && 0 <= j < new.len() && i != j implies #[trigger] new[i].short_url@
        != #[trigger] new[j].short_url@ by {
        if i < last && j < last {
            assert(new[i] == old[i] && new[j] == old[j]);
        } else if i == last {
            assert(new[j] == old[j]);
        } else {
            assert(new[i] == old[i]);
        }
    }
}

/// Two successive creates never hand out the same identifier.
pub proof fn lemma_successive_creates_distinct(
    t0: Seq<Url>,
    t1: Seq<Url>,
    t2: Seq<Url>,
    id1: Seq<char>,
    id2: Seq<char>,
    u1: Seq<char>,
    u2: Seq<char>,
)
    requires
        created(t0, t1, id1, u1),
        created(t1, t2, id2, u2),
    ensures
        id1 != id2,
{
    assert(t1[t1.len() - 1].short_url@ == id1);
}

/// An identifier that no live mapping carries resolves to nothing.
pub proof fn lemma_unknown_not_found(rows: Seq<Url>, id: Seq<char>)
    requires
        !holds(rows, id),
    ensures
        target_of(rows, id) is None,
{
}

/// After a sweep that removed the first `count` rows, none of the removed
/// identifiers resolves any more.
pub proof fn lemma_swept_not_found(rows: Seq<Url>, count: int, i: int)
    requires
        ids_unique(rows),
        0 <= i < count <= rows.len(),
    ensures
        !holds(rows.subrange(count, rows.len() as int), rows[i].short_url@),
        target_of(rows.subrange(count, rows.len() as int), rows[i].short_url@) is None,
{
    let rest = rows.subrange(count, rows.len() as int);
    if holds(rest, rows[i].short_url@) {
        let j = choose|j: int| 0 <= j < rest.len() && #[trigger] rest[j].short_url@ == rows[i].short_url@;
        assert(rows[count + j] == rest[j]);
    }
}

/// After a sweep with cutoff `cutoff`, no remaining row was created before
/// the cutoff, and every row created at or after it is still there.
pub proof fn lemma_sweep_keeps_recent(rows: Seq<Url>, count: int, cutoff: i64)
    requires
        0 <= count <= rows.len(),
        forall|i: int| 0 <= i < count ==> is_older(#[trigger] rows[i], cutoff),
        forall|i: int| count <= i < rows.len() ==> !is_older(#[trigger] rows[i], cutoff),
    ensures
        forall|i: int|
            0 <= i < rows.len() - count ==> !is_older(
                #[trigger] rows.subrange(count, rows.len() as int)[i],
                cutoff,
            ),
        forall|i: int|
            0 <= i < rows.len() && !is_older(#[trigger] rows[i], cutoff) ==> rows.subrange(
                count,
                rows.len() as int,
            ).contains(rows[i]),
{
    let rest = rows.subrange(count, rows.len() as int);
    assert forall|i: int| 0 <= i < rows.len() && !is_older(#[trigger] rows[i], cutoff) implies rest.contains(rows[i]) by {
        assert(rest[i - count] == rows[i]);
    }
    assert forall|i: int| 0 <= i < rows.len() - count implies !is_older(#[trigger] rest[i], cutoff) by {
        assert(rest[i] == rows[i + count]);
    }
}

} // verus!
