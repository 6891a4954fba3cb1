//! Laws of the session store, stated over the table's rows and proved from
//! the contracts of its operations.
use vstd::prelude::*;
use crate::record::{RowView, expired_at};
use crate::table::{
    ids_unique, has_key, key_index, created, saved, loaded, without_key, unexpired, other_key,
    kept_at, lemma_key_index, lemma_created_unique, lemma_saved_unique,
};

verus! {

/// Creation never makes two rows share an identifier, leaves every earlier row
/// as it was, and afterwards some row holds the created key.
pub proof fn lemma_create_never_duplicates(s: Seq<RowView>, r: RowView)
    requires
        ids_unique(s),
    ensures
        ids_unique(created(s, r)),
        created(s, r).subrange(0, s.len() as int) == s,
        has_key(created(s, r), r.id),
{
    lemma_created_unique(s, r);
    let t = created(s, r);
    assert(t.subrange(0, s.len() as int) =~= s);
    if !has_key(s, r.id) {
        assert(t[s.len() as int].id == r.id);
    }
}

/// The table after creating each row of `rs` in turn.
pub open spec fn created_all(s: Seq<RowView>, rs: Seq<RowView>) -> Seq<RowView>
    decreases rs.len(),
{
    if rs.len() == 0 {
        s
    } else {
        created(created_all(s, rs.drop_last()), rs.last())
    }
}

/// However many creations follow one another, no two rows share an
/// identifier.
pub proof fn lemma_creations_never_duplicate(s: Seq<RowView>, rs: Seq<RowView>)
    requires
        ids_unique(s),
    ensures
        ids_unique(created_all(s, rs)),
    decreases rs.len(),
{
    if rs.len() > 0 {
        lemma_creations_never_duplicate(s, rs.drop_last());
        lemma_created_unique(created_all(s, rs.drop_last()), rs.last());
    }
}

/// A lookup sees a row exactly when a row holds the key and its expiry lies
/// strictly after the instant of the lookup; what it sees carries that key.
pub proof fn lemma_load_visibility(s: Seq<RowView>, k: Seq<char>, now: i128)
    requires
        ids_unique(s),
    ensures
        loaded(s, k, now) is Some <==> exists|i: int|
            0 <= i < s.len() && #[trigger] s[i].id == k && s[i].expires_at > now,
        loaded(s, k, now) is Some ==> loaded(s, k, now).unwrap().id == k,
{
    if exists|i: int| 0 <= i < s.len() && #[trigger] s[i].id == k && s[i].expires_at > now {
        let i = choose|i: int| 0 <= i < s.len() && #[trigger] s[i].id == k && s[i].expires_at > now;
        lemma_key_index(s, k, i);
    }
    if has_key(s, k) {
        let i = key_index(s, k);
        assert(s[i].id == k);
    }
}

/// A row visible at an instant was visible, with the same contents, at every
/// earlier instant.
pub proof fn lemma_load_monotonic(s: Seq<RowView>, k: Seq<char>, earlier: i128, now: i128)
    requires
        earlier <= now,
        loaded(s, k, now) is Some,
    ensures
        loaded(s, k, earlier) == loaded(s, k, now),
{
}

/// Saving the same row twice leaves the table as saving it once.
pub proof fn lemma_save_idempotent(s: Seq<RowView>, r: RowView)
    requires
        ids_unique(s),
    ensures
        saved(saved(s, r), r) == saved(s, r),
{
    let t = saved(s, r);
    lemma_saved_unique(s, r);
    let i = if has_key(s, r.id) {
        key_index(s, r.id)
    } else {
        s.len() as int
    };
    assert(t[i] == r);
    lemma_key_index(t, r.id, i);
    assert(t.update(i, r) =~= t);
}

/// On a key that no row holds, saving gives the same table as creating the row
/// and then saving it.
pub proof fn lemma_save_converges(s: Seq<RowView>, r: RowView)
    requires
        ids_unique(s),
        !has_key(s, r.id),
    ensures
        saved(s, r) == saved(created(s, r), r),
{
    lemma_save_idempotent(s, r);
}

/// Filtering twice by one predicate keeps what filtering once keeps.
proof fn lemma_filter_twice(s: Seq<RowView>, p: spec_fn(RowView) -> bool)
    ensures
        s.filter(p).filter(p) == s.filter(p),
    decreases s.len(),
{
    reveal(Seq::filter);
    if s.len() > 0 {
        lemma_filter_twice(s.drop_last(), p);
        let sub = s.drop_last().filter(p);
        if p(s.last()) {
            let t = sub.push(s.last());
            assert(t.drop_last() =~= sub);
            assert(t.last() == s.last());
        }
    }
}

/// Deleting a key twice leaves the table as deleting it once, and no row holds
/// the key afterwards.
pub proof fn lemma_delete_idempotent(s: Seq<RowView>, k: Seq<char>)
    ensures
        without_key(without_key(s, k), k) == without_key(s, k),
        !has_key(without_key(s, k), k),
{
    lemma_filter_twice(s, other_key(k));
    let t = without_key(s, k);
    assert forall|i: int| 0 <= i < t.len() implies #[trigger] t[i].id != k by {
        s.lemma_filter_pred(other_key(k), i);
    }
}

/// A purge at `now` removes every row that expired before `now`, keeps every
/// other row, and adds none.
pub proof fn lemma_purge_correct(s: Seq<RowView>, now: i128)
    ensures
        forall|i: int|
            0 <= i < unexpired(s, now).len() ==> !expired_at(
                #[trigger] unexpired(s, now)[i].expires_at,
                now,
            ),
        forall|i: int|
            0 <= i < s.len() && !expired_at(s[i].expires_at, now) ==> unexpired(
                s,
                now,
            ).contains(#[trigger] s[i]),
        forall|x: RowView| #[trigger] unexpired(s, now).contains(x) ==> s.contains(x),
{
    let t = unexpired(s, now);
    assert forall|i: int| 0 <= i < t.len() implies !expired_at(#[trigger] t[i].expires_at, now) by {
        s.lemma_filter_pred(kept_at(now), i);
    }
    assert forall|i: int| 0 <= i < s.len() && !expired_at(s[i].expires_at, now) implies t.contains(
        #[trigger] s[i],
    ) by {
        s.lemma_filter_contains(kept_at(now), i);
    }
    assert forall|x: RowView| #[trigger] t.contains(x) implies s.contains(x) by {
        s.lemma_filter_contains_rev(kept_at(now), x);
    }
}

} // verus!
