//! The paste lifecycle engine: creation, expiry-aware view, update and
//! deletion of paste records, verified against a map model of the table.
//!
//! A paste may carry an absolute deadline (`expiry_time`, milliseconds since
//! epoch) and a remaining-view counter (`expiry_views`). A view atomically
//! decrements a positive counter and judges visibility against the
//! pre-decrement value and a time captured once by the caller; an exhausted or
//! time-lapsed paste reads as absent, and the decrement is kept even then.
//! The store takes `&mut self` for every mutation, so one call is one
//! transaction: no other operation can interleave with its decrement-and-check.

use vstd::prelude::*;

use crate::error::Error;
use crate::keyed::{
    key_map, lemma_key_map_domain, lemma_key_map_index, lemma_key_map_push, lemma_key_map_remove,
    lemma_key_map_update, unique_keys, Keyed,
};
use vstd::pervasive::VecAdditionalExecFns;

verus! {

/// A creation request: the caller supplies the id.
pub struct CreatePaste {
    pub id: String,
    pub content: String,
    pub expiry_time: Option<i64>,
    pub expiry_views: Option<i64>,
}

/// An update request: a full replacement of the mutable fields of one id.
pub struct UpdatePaste {
    pub content: String,
    pub expiry_time: Option<i64>,
    pub expiry_views: Option<i64>,
}

/// One stored paste row.
#[derive(Debug, PartialEq, Eq)]
pub struct Paste {
    pub id: String,
    pub content: String,
    pub expiry_time: Option<i64>,
    pub expiry_views: Option<i64>,
}

impl Clone for Paste {
    fn clone(&self) -> (res: Self)
        ensures
            res == *self,
    {
        Paste {
            id: self.id.clone(),
            content: self.content.clone(),
            expiry_time: self.expiry_time,
            expiry_views: self.expiry_views,
        }
    }
}

impl Keyed for Paste {
    type K = Seq<char>;

    open spec fn key(&self) -> Seq<char> {
        self.id@
    }
}

/// The paste table: one row per id, held in memory.
pub struct PasteStore {
    pub entries: Vec<Paste>,
}

impl View for PasteStore {
    type V = Map<Seq<char>, Paste>;

    open spec fn view(&self) -> Map<Seq<char>, Paste> {
        key_map(self.entries@)
    }
}

impl PasteStore {
    /// Exactly one row per id.
    pub open spec fn wf(&self) -> bool {
        unique_keys(self.entries@)
    }

    /// An empty table.
    pub fn new() -> (store: PasteStore)
        ensures
            store.wf(),
            store@ == Map::<Seq<char>, Paste>::empty(),
    {
        PasteStore { entries: Vec::new() }
    }
}

/// The deadline, if set, has not passed at `now_ms`.
pub open spec fn time_ok(p: Paste, now_ms: i64) -> bool {
    p.expiry_time matches Some(t) ==> t >= now_ms
}

/// The view budget, if set, is not exhausted.
pub open spec fn views_ok(p: Paste) -> bool {
    p.expiry_views matches Some(v) ==> v > 0
}

/// A paste is visible exactly when neither expiry condition has struck,
/// the view budget judged by its pre-decrement value.
pub open spec fn visible(p: Paste, now_ms: i64) -> bool {
    time_ok(p, now_ms) && views_ok(p)
}

/// The row as a view leaves it: a positive view budget is decremented by
/// exactly one; everything else is untouched.
pub open spec fn viewed(p: Paste) -> Paste {
    if p.expiry_views matches Some(v) && v > 0 {
        Paste {
            id: p.id,
            content: p.content,
            expiry_time: p.expiry_time,
            expiry_views: Some((p.expiry_views->0 - 1) as i64),
        }
    } else {
        p
    }
}

/// The whole table as a view of `id` leaves it.
pub open spec fn store_after_view(m: Map<Seq<char>, Paste>, id: Seq<char>) -> Map<
    Seq<char>,
    Paste,
> {
    if m.contains_key(id) {
        m.insert(id, viewed(m[id]))
    } else {
        m
    }
}

/// What a view of `id` at `now_ms` reveals: the pre-decrement row if it is
/// present and visible, nothing otherwise.
pub open spec fn view_outcome(m: Map<Seq<char>, Paste>, id: Seq<char>, now_ms: i64) -> Option<
    Paste,
> {
    if m.contains_key(id) && visible(m[id], now_ms) {
        Some(m[id])
    } else {
        None
    }
}

/// The row that a creation request inserts.
pub open spec fn created_paste(payload: CreatePaste) -> Paste {
    Paste {
        id: payload.id,
        content: payload.content,
        expiry_time: payload.expiry_time,
        expiry_views: payload.expiry_views,
    }
}

/// The row after an update: the stored id is kept, every mutable field is
/// replaced by the payload's.
pub open spec fn updated_paste(p: Paste, payload: UpdatePaste) -> Paste {
    Paste {
        id: p.id,
        content: payload.content,
        expiry_time: payload.expiry_time,
        expiry_views: payload.expiry_views,
    }
}

/// The index of the row holding `id`, if any.
fn find_index(entries: &Vec<Paste>, id: &String) -> (r: Option<usize>)
    ensures
        match r {
            Some(i) => i < entries@.len() && entries@[i as int].id@ == id@,
            None => forall|j: int| 0 <= j < entries@.len() ==> entries@[j].id@ != id@,
        },
{
    let mut i: usize = 0;
    while i < entries.len()
        invariant
            i <= entries@.len(),
            forall|j: int| 0 <= j < i ==> entries@[j].id@ != id@,
        decreases entries@.len() - i,
    {
        if entries[i].id == *id {
            return Some(i);
        }
        i += 1;
    }
    None
}

impl Paste {
    /// Inserts a new row. A duplicate id is rejected with `Conflict` and
    /// leaves the table exactly as it was. No validation of the expiry fields
    /// is performed at this layer: the caller is responsible for them.
    pub fn create(store: &mut PasteStore, payload: CreatePaste) -> (r: Result<(), Error>)
        requires
            old(store).wf(),
        ensures
            final(store).wf(),
            match r {
                Ok(u) => !old(store)@.contains_key(payload.id@) && final(store)@ == old(store)@.insert(
                    payload.id@,
                    created_paste(payload),
                ),
                Err(e) => e == Error::Conflict && old(store)@.contains_key(payload.id@) && final(store)@
                    == old(store)@,
            },
    {
        match find_index(&store.entries, &payload.id) {
            Some(i) => {
                proof {
                    lemma_key_map_index(store.entries@, i as int);
                }
                Err(Error::Conflict)
            },
            None => {
                proof {
                    lemma_key_map_domain(store.entries@, payload.id@);
                }
                let row = Paste {
                    id: payload.id,
                    content: payload.content,
                    expiry_time: payload.expiry_time,
                    expiry_views: payload.expiry_views,
                };
                proof {
                    lemma_key_map_push(store.entries@, row);
                }
                store.entries.push(row);
                Ok(())
            },
        }
    }

    /// The transactional expiry-aware view. In one step against the table:
    /// fetch the row, decrement a positive view budget, judge visibility by
    /// the pre-decrement budget and by `now_ms` (captured once by the caller),
    /// and reveal the pre-decrement row only if it is visible. The decrement
    /// is kept even when the row then reads as absent.
    pub fn view(store: &mut PasteStore, id: String, now_ms: i64) -> (r: Result<Paste, Error>)
        requires
            old(store).wf(),
        ensures
            final(store).wf(),
            final(store)@ == store_after_view(old(store)@, id@),
            match r {
                Ok(p) => view_outcome(old(store)@, id@, now_ms) == Some(p),
                Err(e) => view_outcome(old(store)@, id@, now_ms) is None && e == Error::NotFound,
            },
    {
        match find_index(&store.entries, &id) {
            None => {
                proof {
                    lemma_key_map_domain(store.entries@, id@);
                }
                Err(Error::NotFound)
            },
            Some(i) => {
                proof {
                    lemma_key_map_index(store.entries@, i as int);
                }
                let row = store.entries[i].clone();
                if let Some(v) = row.expiry_views {
                    if v > 0 {
                        let decremented = Paste {
                            id: row.id.clone(),
                            content: row.content.clone(),
                            expiry_time: row.expiry_time,
                            expiry_views: Some(v - 1),
                        };
                        proof {
                            lemma_key_map_update(store.entries@, i as int, decremented);
                            assert(decremented == viewed(old(store)@[id@]));
                        }
                        store.entries.set(i, decremented);
                    }
                }
                let mut is_visible = true;
                if let Some(t) = row.expiry_time {
                    if t < now_ms {
                        is_visible = false;
                    }
                }
                if let Some(v) = row.expiry_views {
                    if v <= 0 {
                        is_visible = false;
                    }
                }
                if is_visible {
                    Ok(row)
                } else {
                    Err(Error::NotFound)
                }
            },
        }
    }

    /// Unconditionally overwrites the mutable fields of `id`. An update of a
    /// missing id changes nothing and is not an error.
    pub fn update(store: &mut PasteStore, id: String, payload: UpdatePaste) -> (r: Result<
        (),
        Error,
    >)
        requires
            old(store).wf(),
        ensures
            final(store).wf(),
            r is Ok,
            old(store)@.contains_key(id@) ==> final(store)@ == old(store)@.insert(
                id@,
                updated_paste(old(store)@[id@], payload),
            ),
            !old(store)@.contains_key(id@) ==> final(store)@ == old(store)@,
    {
        match find_index(&store.entries, &id) {
            None => {
                proof {
                    lemma_key_map_domain(store.entries@, id@);
                }
                Ok(())
            },
            Some(i) => {
                proof {
                    lemma_key_map_index(store.entries@, i as int);
                }
                let row = Paste {
                    id: store.entries[i].id.clone(),
                    content: payload.content,
                    expiry_time: payload.expiry_time,
                    expiry_views: payload.expiry_views,
                };
                proof {
                    lemma_key_map_update(store.entries@, i as int, row);
                }
                store.entries.set(i, row);
                Ok(())
            },
        }
    }

    /// Unconditionally deletes `id`. Deleting a missing id changes nothing
    /// and is not an error.
    pub fn delete(store: &mut PasteStore, id: String) -> (r: Result<(), Error>)
        requires
            old(store).wf(),
        ensures
            final(store).wf(),
            r is Ok,
            final(store)@ == old(store)@.remove(id@),
    {
        match find_index(&store.entries, &id) {
            None => {
                proof {
                    lemma_key_map_domain(store.entries@, id@);
                    assert(store@ =~= old(store)@.remove(id@));
                }
                Ok(())
            },
            Some(i) => {
                proof {
                    lemma_key_map_index(store.entries@, i as int);
                    lemma_key_map_remove(store.entries@, i as int);
                }
                store.entries.remove(i);
                Ok(())
            },
        }
    }
}

/// A paste stored without a view budget is never changed by viewing it: the
/// table after a view is the table before it, so repeated views at any times
/// before its deadline keep revealing the identical row.
pub proof fn lemma_unlimited_views_stable(m: Map<Seq<char>, Paste>, id: Seq<char>, now_ms: i64)
    requires
        m.contains_key(id),
        m[id].expiry_views is None,
    ensures
        store_after_view(m, id) == m,
        view_outcome(store_after_view(m, id), id, now_ms) == view_outcome(m, id, now_ms),
{
    assert(viewed(m[id]) == m[id]);
    assert(m.insert(id, m[id]) =~= m);
}

/// The table after `k` consecutive views of `id`.
pub open spec fn store_after_views(m: Map<Seq<char>, Paste>, id: Seq<char>, k: nat) -> Map<
    Seq<char>,
    Paste,
>
    decreases k,
{
    if k == 0 {
        m
    } else {
        store_after_view(store_after_views(m, id, (k - 1) as nat), id)
    }
}

/// After `k` views of a paste with a view budget of `n >= k`, the row is still
/// there with its budget at `n - k` and every other field untouched.
proof fn lemma_budget_after_views(m: Map<Seq<char>, Paste>, id: Seq<char>, k: nat)
    requires
        m.contains_key(id),
        m[id].expiry_views is Some,
        k <= m[id].expiry_views->0,
    ensures
        store_after_views(m, id, k).contains_key(id),
        ({
            let p = store_after_views(m, id, k)[id];
            p.id == m[id].id && p.content == m[id].content && p.expiry_time == m[id].expiry_time
                && p.expiry_views == Some((m[id].expiry_views->0 - k) as i64)
        }),
    decreases k,
{
    if k > 0 {
        lemma_budget_after_views(m, id, (k - 1) as nat);
    }
}

/// A view budget counts down under views: with `expiry_views = Some(n)`,
/// `n >= 1`, and the deadline not in the way, the first `n` views succeed and
/// report the budget as `n, n-1, ..., 1` (its pre-decrement value), and the
/// `(n+1)`-th view finds nothing.
pub proof fn lemma_view_budget_counts_down(
    m: Map<Seq<char>, Paste>,
    id: Seq<char>,
    now_ms: i64,
    k: nat,
)
    requires
        m.contains_key(id),
        m[id].expiry_views matches Some(n) && n >= 1,
        time_ok(m[id], now_ms),
        k <= m[id].expiry_views->0,
    ensures
        k < m[id].expiry_views->0 ==> (view_outcome(store_after_views(m, id, k), id, now_ms)
            matches Some(p) && p.content == m[id].content && p.expiry_views == Some(
            (m[id].expiry_views->0 - k) as i64,
        )),
        k == m[id].expiry_views->0 ==> view_outcome(store_after_views(m, id, k), id, now_ms)
            is None,
{
    lemma_budget_after_views(m, id, k);
}

/// When exactly one view remains, of two serialized view attempts exactly
/// the first succeeds: the store's one-transaction-at-a-time discipline makes
/// two racing final views take effect in some order, and whichever runs
/// second finds the budget spent. Never do both succeed.
pub proof fn lemma_final_view_is_exclusive(m: Map<Seq<char>, Paste>, id: Seq<char>, now_ms: i64)
    requires
        m.contains_key(id),
        m[id].expiry_views == Some(1i64),
        time_ok(m[id], now_ms),
    ensures
        view_outcome(m, id, now_ms) is Some,
        view_outcome(store_after_view(m, id), id, now_ms) is None,
{
}

/// A paste whose deadline has passed reads as absent whatever the state of
/// its view budget.
pub proof fn lemma_time_expired_is_hidden(m: Map<Seq<char>, Paste>, id: Seq<char>, now_ms: i64)
    requires
        m.contains_key(id),
        m[id].expiry_time matches Some(t) && t < now_ms,
    ensures
        view_outcome(m, id, now_ms) is None,
{
}

} // verus!
