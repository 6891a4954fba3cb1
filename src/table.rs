//! An in-memory session table and the store algorithm over it: creation that
//! never reuses a live identifier, upsert on save, expiry-aware lookup,
//! deletion by identifier and purge of expired rows.
use vstd::prelude::*;
use crate::ids::{fresh_id, id_text, id_to_text, now_nanos};
use crate::record::{
    SessionRecord, Row, RowView, row_of, live_at, expired_at, is_live, is_expired, create_action,
    record_from_row, CreateAction,
};

verus! {

/// No two rows share an identifier.
pub open spec fn ids_unique(s: Seq<RowView>) -> bool {
    forall|i: int, j: int|
        0 <= i < s.len() && 0 <= j < s.len() && i != j ==> #[trigger] s[i].id != #[trigger] s[j].id
}

/// Some row holds the identifier text `k`.
pub open spec fn has_key(s: Seq<RowView>, k: Seq<char>) -> bool {
    exists|i: int| 0 <= i < s.len() && #[trigger] s[i].id == k
}

/// The position of the row that holds `k` (meaningful where `has_key`).
pub open spec fn key_index(s: Seq<RowView>, k: Seq<char>) -> int {
    choose|i: int| 0 <= i < s.len() && #[trigger] s[i].id == k
}

/// The table after `create` inserted the row `r`, where its key was free;
/// unchanged where a row holds the key.
pub open spec fn created(s: Seq<RowView>, r: RowView) -> Seq<RowView> {
    if has_key(s, r.id) {
        s
    } else {
        s.push(r)
    }
}

/// The table after `save` of the row `r`: the row with its key overwritten in
/// place, or `r` appended where no row holds the key.
pub open spec fn saved(s: Seq<RowView>, r: RowView) -> Seq<RowView> {
    if has_key(s, r.id) {
        s.update(key_index(s, r.id), r)
    } else {
        s.push(r)
    }
}

/// The row that a lookup of `k` at the instant `now` sees.
pub open spec fn loaded(s: Seq<RowView>, k: Seq<char>, now: i128) -> Option<RowView> {
    if has_key(s, k) && live_at(s[key_index(s, k)].expires_at, now) {
        Some(s[key_index(s, k)])
    } else {
        None
    }
}

/// `r` is what a lookup of `id` at the instant `now` returns: the record of
/// the visible row, or nothing.
pub open spec fn load_answer(s: Seq<RowView>, id: i128, now: i128, r: Option<SessionRecord>) -> bool {
    match r {
        Some(rec) => rec.id == id && loaded(s, id_text(id), now) == Some(row_of(rec)),
        None => loaded(s, id_text(id), now) is None,
    }
}

/// The table after deleting the row with key `k`.
pub open spec fn without_key(s: Seq<RowView>, k: Seq<char>) -> Seq<RowView> {
    s.filter(other_key(k))
}

/// Holds of the rows whose key is not `k`.
pub open spec fn other_key(k: Seq<char>) -> spec_fn(RowView) -> bool {
    |x: RowView| x.id != k
}

/// Holds of the rows that have not expired before `now`.
pub open spec fn kept_at(now: i128) -> spec_fn(RowView) -> bool {
    |x: RowView| !expired_at(x.expires_at, now)
}

/// The table after purging every row that expired before `now`.
pub open spec fn unexpired(s: Seq<RowView>, now: i128) -> Seq<RowView> {
    s.filter(kept_at(now))
}

/// In a table without repeated keys, the row that holds `k` is the one at
/// `key_index`.
pub proof fn lemma_key_index(s: Seq<RowView>, k: Seq<char>, i: int)
    requires
        ids_unique(s),
        0 <= i < s.len(),
        s[i].id == k,
    ensures
        has_key(s, k),
        key_index(s, k) == i,
{
    assert(s[i].id == k);
}

/// Appending a row whose key no row holds keeps keys unique.
proof fn lemma_push_unique(s: Seq<RowView>, r: RowView)
    requires
        ids_unique(s),
        !has_key(s, r.id),
    ensures
        ids_unique(s.push(r)),
{
    let t = s.push(r);
    assert forall|i: int, j: int|
        0 <= i < t.len() && 0 <= j < t.len() && i != j implies #[trigger] t[i].id
        != #[trigger] t[j].id by {
        if i == s.len() {
            assert(s[j].id != r.id);
        } else if j == s.len() {
            assert(s[i].id != r.id);
        } else {
            assert(t[i] == s[i] && t[j] == s[j]);
        }
    }
}

/// Overwriting the row that holds a key with a row of the same key keeps keys
/// unique.
proof fn lemma_update_unique(s: Seq<RowView>, i: int, r: RowView)
    requires
        ids_unique(s),
        0 <= i < s.len(),
        s[i].id == r.id,
    ensures
        ids_unique(s.update(i, r)),
{
    let t = s.update(i, r);
    assert forall|a: int, b: int|
        0 <= a < t.len() && 0 <= b < t.len() && a != b implies #[trigger] t[a].id
        != #[trigger] t[b].id by {
        assert(t[a].id == s[a].id && t[b].id == s[b].id);
    }
}

/// One more row of `s` seen by a filter: it is kept exactly when `p` holds.
proof fn lemma_filter_take_step(s: Seq<RowView>, p: spec_fn(RowView) -> bool, i: int)
    requires
        0 <= i < s.len(),
    ensures
        s.take(i + 1).filter(p) == (if p(s[i]) {
            s.take(i).filter(p).push(s[i])
        } else {
            s.take(i).filter(p)
        }),
{
    reveal(Seq::filter);
    assert(s.take(i + 1).drop_last() =~= s.take(i));
    assert(s.take(i + 1).last() == s[i]);
}

/// A filter keeps keys unique.
pub proof fn lemma_filter_unique(s: Seq<RowView>, p: spec_fn(RowView) -> bool)
    requires
        ids_unique(s),
    ensures
        ids_unique(s.filter(p)),
    decreases s.len(),
{
    reveal(Seq::filter);
    if s.len() > 0 {
        let d = s.drop_last();
        assert(ids_unique(d)) by {
            assert forall|i: int, j: int|
                0 <= i < d.len() && 0 <= j < d.len() && i != j implies #[trigger] d[i].id
                != #[trigger] d[j].id by {
                assert(d[i] == s[i] && d[j] == s[j]);
            }
        }
        lemma_filter_unique(d, p);
        let sub = d.filter(p);
        if p(s.last()) {
            assert(!has_key(sub, s.last().id)) by {
                if has_key(sub, s.last().id) {
                    let k = choose|k: int| 0 <= k < sub.len() && #[trigger] sub[k].id == s.last().id;
                    assert(sub.contains(sub[k]));
                    d.lemma_filter_contains_rev(p, sub[k]);
                    let m = choose|m: int| 0 <= m < d.len() && d[m] == sub[k];
                    assert(s[m].id == s[s.len() - 1].id);
                }
            }
            lemma_push_unique(sub, s.last());
        }
    }
}

/// Creation keeps keys unique.
pub proof fn lemma_created_unique(s: Seq<RowView>, r: RowView)
    requires
        ids_unique(s),
    ensures
        ids_unique(created(s, r)),
{
    if !has_key(s, r.id) {
        lemma_push_unique(s, r);
    }
}

/// Saving keeps keys unique.
pub proof fn lemma_saved_unique(s: Seq<RowView>, r: RowView)
    requires
        ids_unique(s),
    ensures
        ids_unique(saved(s, r)),
{
    if has_key(s, r.id) {
        lemma_update_unique(s, key_index(s, r.id), r);
    } else {
        lemma_push_unique(s, r);
    }
}

/// The session table: rows keyed by the text of their identifier.
pub struct SessionTable {
    rows: Vec<Row>,
}

impl View for SessionTable {
    type V = Seq<RowView>;

    closed spec fn view(&self) -> Seq<RowView> {
        self.rows@.map_values(|r: Row| r@)
    }
}

fn copy_row(r: &Row) -> (c: Row)
    ensures
        c@ == r@,
{
    Row { id: r.id.clone(), expires_at: r.expires_at, data: r.data.clone() }
}

impl SessionTable {
    /// The table is well formed: no two rows share a key.
    pub open spec fn wf(&self) -> bool {
        ids_unique(self@)
    }

    /// An empty table.
    pub fn new() -> (t: SessionTable)
        ensures
            t.wf(),
            t@ == Seq::<RowView>::empty(),
    {
        let t = SessionTable { rows: Vec::new() };
        assert(t@ =~= Seq::<RowView>::empty());
        t
    }

    /// The number of rows.
    pub fn len(&self) -> (n: usize)
        ensures
            n == self@.len(),
    {
        self.rows.len()
    }

    /// The position of the row whose key is `key`, if any.
    pub fn find(&self, key: &String) -> (r: Option<usize>)
        requires
            self.wf(),
        ensures
            match r {
                Some(i) => has_key(self@, key@) && i == key_index(self@, key@),
                None => !has_key(self@, key@),
            },
    {
        let mut i: usize = 0;
        while i < self.rows.len()
            invariant
                0 <= i <= self.rows.len(),
                self.wf(),
                forall|j: int| 0 <= j < i ==> #[trigger] self@[j].id != key@,
            decreases self.rows.len() - i,
        {
            if self.rows[i].id == *key {
                proof {
                    lemma_key_index(self@, key@, i as int);
                }
                return Some(i);
            }
            i = i + 1;
        }
        None
    }
    /// One attempt of `create`: where no row holds the record's identifier,
    /// inserts the record and answers `true`; otherwise leaves the table as it
    /// is, gives the record a freshly drawn identifier and answers `false`, so
    /// that the caller looks again.
    pub fn create_step(&mut self, rec: &mut SessionRecord) -> (done: bool)
        requires
            old(self).wf(),
        ensures
            final(self).wf(),
            done == !has_key(old(self)@, id_text(old(rec).id)),
            final(self)@ == created(old(self)@, row_of(*old(rec))),
            done ==> *final(rec) == *old(rec),
            final(rec).expiry == old(rec).expiry,
            final(rec).data == old(rec).data,
    {
        let key = id_to_text(rec.id);
        let found = self.find(&key);
        match create_action(found.is_some()) {
            CreateAction::Insert => {
                let row = Row { id: key, expires_at: rec.expiry, data: rec.data.clone() };
                let ghost before = self@;
                self.rows.push(row);
                proof {
                    assert(self@ =~= before.push(row_of(*rec)));
                    lemma_created_unique(before, row_of(*rec));
                }
                true
            },
            CreateAction::Regenerate => {
                rec.id = fresh_id();
                false
            },
        }
    }

    /// `create` with at most `max_attempts` lookups: repeats `create_step`
    /// until it inserts the record. On success the record, under its final
    /// identifier, is appended and no earlier row held that identifier; the
    /// record keeps its first identifier when that one was free. When every
    /// attempt collides the table is left as it was.
    pub fn create(&mut self, rec: &mut SessionRecord, max_attempts: u64) -> (done: bool)
        requires
            old(self).wf(),
        ensures
            final(self).wf(),
            final(rec).expiry == old(rec).expiry,
            final(rec).data == old(rec).data,
            done ==> !has_key(old(self)@, id_text(final(rec).id)),
            done ==> final(self)@ == old(self)@.push(row_of(*final(rec))),
            !done ==> final(self)@ == old(self)@,
            max_attempts > 0 && !has_key(old(self)@, id_text(old(rec).id)) ==> done && *final(rec)
                == *old(rec),
    {
        let mut n: u64 = 0;
        while n < max_attempts
            invariant
                self.wf(),
                self@ == old(self)@,
                rec.expiry == old(rec).expiry,
                rec.data == old(rec).data,
                n == 0 ==> *rec == *old(rec),
                n > 0 ==> has_key(old(self)@, id_text(old(rec).id)),
            decreases max_attempts - n,
        {
            let ghost before = *rec;
            if self.create_step(rec) {
                assert(*rec == before);
                return true;
            }
            n = n + 1;
        }
        false
    }

    /// Writes the record: overwrites the expiry and payload of the row that
    /// holds its identifier, or inserts it where no row does.
    pub fn save(&mut self, rec: &SessionRecord)
        requires
            old(self).wf(),
        ensures
            final(self).wf(),
            final(self)@ == saved(old(self)@, row_of(*rec)),
    {
        let key = id_to_text(rec.id);
        let found = self.find(&key);
        let row = Row { id: key, expires_at: rec.expiry, data: rec.data.clone() };
        let ghost before = self@;
        proof {
            lemma_saved_unique(before, row_of(*rec));
        }
        match found {
            Some(i) => {
                self.rows.set(i, row);
                assert(self@ =~= before.update(i as int, row_of(*rec)));
            },
            None => {
                self.rows.push(row);
                assert(self@ =~= before.push(row_of(*rec)));
            },
        }
    }

    /// The record stored under `id`, if its row is visible at the instant
    /// `now`.
    pub fn load(&self, id: i128, now: i128) -> (r: Option<SessionRecord>)
        requires
            self.wf(),
        ensures
            load_answer(self@, id, now, r),
    {
        let key = id_to_text(id);
        match self.find(&key) {
            Some(i) => {
                if is_live(self.rows[i].expires_at, now) {
                    let row = &self.rows[i];
                    match record_from_row(row.id.as_str(), row.expires_at, row.data.clone()) {
                        Ok(rec) => Some(rec),
                        Err(_) => None,
                    }
                } else {
                    None
                }
            },
            None => None,
        }
    }

    /// Deletes the row that holds `id`, if any.
    pub fn delete(&mut self, id: i128)
        requires
            old(self).wf(),
        ensures
            final(self).wf(),
            final(self)@ == without_key(old(self)@, id_text(id)),
    {
        let key = id_to_text(id);
        let ghost before = self@;
        let mut kept: Vec<Row> = Vec::new();
        let mut i: usize = 0;
        while i < self.rows.len()
            invariant
                0 <= i <= self.rows.len(),
                self@ == before,
                kept@.map_values(|r: Row| r@) == before.take(i as int).filter(other_key(key@)),
            decreases self.rows.len() - i,
        {
            proof {
                lemma_filter_take_step(before, other_key(key@), i as int);
            }
            if !(self.rows[i].id == key) {
                kept.push(copy_row(&self.rows[i]));
            }
            proof {
                assert(kept@.map_values(|r: Row| r@) =~= before.take(i + 1).filter(other_key(key@)));
            }
            i = i + 1;
        }
        assert(before.take(before.len() as int) =~= before);
        self.rows = kept;
        proof {
            lemma_filter_unique(before, other_key(key@));
        }
    }

    /// Deletes every row whose expiry lies strictly before the instant `now`.
    pub fn delete_expired(&mut self, now: i128)
        requires
            old(self).wf(),
        ensures
            final(self).wf(),
            final(self)@ == unexpired(old(self)@, now),
    {
        let ghost before = self@;
        let mut kept: Vec<Row> = Vec::new();
        let mut i: usize = 0;
        while i < self.rows.len()
            invariant
                0 <= i <= self.rows.len(),
                self@ == before,
                kept@.map_values(|r: Row| r@) == before.take(i as int).filter(kept_at(now)),
            decreases self.rows.len() - i,
        {
            proof {
                lemma_filter_take_step(before, kept_at(now), i as int);
            }
            if !is_expired(self.rows[i].expires_at, now) {
                kept.push(copy_row(&self.rows[i]));
            }
            proof {
                assert(kept@.map_values(|r: Row| r@) =~= before.take(i + 1).filter(kept_at(now)));
            }
            i = i + 1;
        }
        assert(before.take(before.len() as int) =~= before);
        self.rows = kept;
        proof {
            lemma_filter_unique(before, kept_at(now));
        }
    }

    /// `load` at the current instant, read from the clock.
    pub fn load_now(&self, id: i128) -> (r: Option<SessionRecord>)
        requires
            self.wf(),
        ensures
            exists|now: i128| load_answer(self@, id, now, r),
    {
        let now = now_nanos();
        self.load(id, now)
    }

    /// `delete_expired` at the current instant, read from the clock.
    pub fn delete_expired_now(&mut self)
        requires
            old(self).wf(),
        ensures
            final(self).wf(),
            exists|now: i128| final(self)@ == unexpired(old(self)@, now),
    {
        let now = now_nanos();
        self.delete_expired(now);
    }
}

} // verus!
