//! The conditional key-value store the repository writes against.
//!
//! The store holds one item per composite key (partition key, sort key) and
//! offers exactly the primitives the repository needs: point reads, writes
//! conditional on the key's existence or absence, clause-wise updates and
//! deletes conditional on existence, and prefix queries over one partition.
//! A failed condition leaves the store unchanged and reports a
//! conditional-check failure; it never corrupts or overwrites.

use vstd::prelude::*;

use crate::attr::AttrMap;
use crate::attr::ValueView;
use crate::attr::lookup;
use crate::error::UserError;
use crate::text::str_eq;
use crate::text::str_starts_with;
use crate::update::UpdateMutation;
use crate::update::clauses_view;
use crate::update::lookup_after;

verus! {

/// The precondition of a conditional write: the target key must already
/// exist, or must not exist yet.
#[derive(PartialEq, Eq, Structural, Clone, Copy)]
pub enum Condition {
    Exists,
    NotExists,
}

/// One stored item with its composite key.
pub struct StoreEntry {
    pub pk: String,
    pub sk: String,
    pub item: AttrMap,
}

/// Ghost form of [`StoreEntry`].
pub struct EntryV {
    pub pk: Seq<char>,
    pub sk: Seq<char>,
    pub item: Seq<(Seq<char>, ValueView)>,
}

impl View for StoreEntry {
    type V = EntryV;

    open spec fn view(&self) -> EntryV {
        EntryV { pk: self.pk@, sk: self.sk@, item: self.item@ }
    }
}

/// The ghost form of an entry list.
pub open spec fn entries_view(es: Seq<StoreEntry>) -> Seq<EntryV> {
    es.map_values(|e: StoreEntry| e@)
}

/// Whether an entry sits under the given composite key.
pub open spec fn key_is(e: EntryV, pk: Seq<char>, sk: Seq<char>) -> bool {
    e.pk == pk && e.sk == sk
}

/// Whether some entry sits under the given composite key.
pub open spec fn has_key(s: Seq<EntryV>, pk: Seq<char>, sk: Seq<char>) -> bool {
    exists|i: int| 0 <= i < s.len() && key_is(#[trigger] s[i], pk, sk)
}

/// The position of the first entry under the given key (meaningful only
/// when one exists).
pub open spec fn idx_of(s: Seq<EntryV>, pk: Seq<char>, sk: Seq<char>) -> int
    decreases s.len(),
{
    if s.len() == 0 {
        0
    } else if key_is(s.first(), pk, sk) {
        0
    } else {
        1 + idx_of(s.drop_first(), pk, sk)
    }
}

/// The item stored under the given key, if any.
pub open spec fn get_item(s: Seq<EntryV>, pk: Seq<char>, sk: Seq<char>) -> Option<
    Seq<(Seq<char>, ValueView)>,
> {
    if has_key(s, pk, sk) {
        Some(s[idx_of(s, pk, sk)].item)
    } else {
        None
    }
}

/// No two entries share a composite key.
pub open spec fn unique_keys(s: Seq<EntryV>) -> bool {
    forall|i: int, j: int|
        0 <= i < j < s.len() ==> !((#[trigger] s[i]).pk == (#[trigger] s[j]).pk && s[i].sk
            == s[j].sk)
}

/// When a key is present, `idx_of` points at its first occurrence.
pub proof fn lemma_idx_of(s: Seq<EntryV>, pk: Seq<char>, sk: Seq<char>)
    requires
        has_key(s, pk, sk),
    ensures
        0 <= idx_of(s, pk, sk) < s.len(),
        key_is(s[idx_of(s, pk, sk)], pk, sk),
        forall|j: int| 0 <= j < idx_of(s, pk, sk) ==> !key_is(#[trigger] s[j], pk, sk),
    decreases s.len(),
{
    if s.len() > 0 && !key_is(s.first(), pk, sk) {
        let t = s.drop_first();
        assert(forall|j: int| 0 <= j < t.len() ==> #[trigger] t[j] == s[j + 1]);
        assert(has_key(t, pk, sk)) by {
            let i = choose|i: int| 0 <= i < s.len() && key_is(#[trigger] s[i], pk, sk);
            assert(i > 0);
            assert(t[i - 1] == s[i]);
        }
        lemma_idx_of(t, pk, sk);
        assert forall|j: int| 0 <= j < idx_of(s, pk, sk) implies !key_is(
            #[trigger] s[j],
            pk,
            sk,
        ) by {
            if j > 0 {
                assert(t[j - 1] == s[j]);
            }
        }
    }
}

/// If the entry at `i` carries the key and no earlier entry does, `idx_of`
/// is exactly `i`.
pub proof fn lemma_idx_of_at(s: Seq<EntryV>, pk: Seq<char>, sk: Seq<char>, i: int)
    requires
        0 <= i < s.len(),
        key_is(s[i], pk, sk),
        forall|j: int| 0 <= j < i ==> !key_is(#[trigger] s[j], pk, sk),
    ensures
        has_key(s, pk, sk),
        idx_of(s, pk, sk) == i,
    decreases i,
{
    if i > 0 {
        let t = s.drop_first();
        assert(forall|j: int| 0 <= j < t.len() ==> #[trigger] t[j] == s[j + 1]);
        assert(t[i - 1] == s[i]);
        lemma_idx_of_at(t, pk, sk, i - 1);
    }
}

/// Appending an entry keeps every present key present, and makes the new
/// entry's key present.
pub proof fn lemma_has_key_push(s: Seq<EntryV>, e: EntryV, pk: Seq<char>, sk: Seq<char>)
    ensures
        has_key(s, pk, sk) ==> has_key(s.push(e), pk, sk),
        key_is(e, pk, sk) ==> has_key(s.push(e), pk, sk),
{
    if has_key(s, pk, sk) {
        let i = choose|i: int| 0 <= i < s.len() && key_is(#[trigger] s[i], pk, sk);
        assert(s.push(e)[i] == s[i]);
    }
    if key_is(e, pk, sk) {
        assert(s.push(e)[s.len() as int] == e);
    }
}

/// The in-memory conditional store.
pub struct KvStore {
    pub entries: Vec<StoreEntry>,
}

impl View for KvStore {
    type V = Seq<EntryV>;

    open spec fn view(&self) -> Seq<EntryV> {
        entries_view(self.entries@)
    }
}

impl KvStore {
    /// Keys are unique: at most one item ever sits under a composite key.
    pub open spec fn wf(self) -> bool {
        unique_keys(self@)
    }

    /// An empty store.
    pub fn new() -> (r: Self)
        ensures
            r@ == Seq::<EntryV>::empty(),
            r.wf(),
    {
        let r = KvStore { entries: Vec::new() };
        proof {
            assert(r@ =~= Seq::<EntryV>::empty());
        }
        r
    }

    /// Find the position of the entry under a key.
    fn find(&self, pk: &str, sk: &str) -> (r: Option<usize>)
        ensures
            match r {
                Some(i) => has_key(self@, pk@, sk@) && i == idx_of(self@, pk@, sk@) && i
                    < self@.len() && key_is(self@[i as int], pk@, sk@),
                None => !has_key(self@, pk@, sk@),
            },
    {
        let n = self.entries.len();
        let mut i: usize = 0;
        while i < n
            invariant
                i <= n,
                n == self@.len(),
                n == self.entries.len(),
                forall|j: int| 0 <= j < i ==> !key_is(#[trigger] self@[j], pk@, sk@),
            decreases n - i,
        {
            let e = &self.entries[i];
            if str_eq(e.pk.as_str(), pk) && str_eq(e.sk.as_str(), sk) {
                proof {
                    assert(key_is(self@[i as int], pk@, sk@));
                    lemma_idx_of_at(self@, pk@, sk@, i as int);
                }
                return Some(i);
            }
            proof {
                assert(!key_is(self@[i as int], pk@, sk@));
            }
            i = i + 1;
        }
        None
    }

    /// Point read of one item.
    pub fn get(&self, pk: &str, sk: &str) -> (r: Option<&AttrMap>)
        ensures
            match r {
                Some(m) => get_item(self@, pk@, sk@) == Some(m@),
                None => !has_key(self@, pk@, sk@),
            },
    {
        match self.find(pk, sk) {
            Some(i) => Some(&self.entries[i].item),
            None => None,
        }
    }

    /// Conditional write of a whole item. With `NotExists` the write is a
    /// creation and fails on a present key; with `Exists` it is a
    /// replacement and fails on an absent key. A failed condition leaves
    /// the store unchanged.
    pub fn put(&mut self, pk: String, sk: String, item: AttrMap, cond: Condition) -> (r: Result<
        (),
        UserError,
    >)
        requires
            old(self).wf(),
        ensures
            final(self).wf(),
            cond == Condition::NotExists && has_key(old(self)@, pk@, sk@) ==> r == Err::<
                (),
                UserError,
            >(UserError::ConditionalCheckFailed) && final(self)@ == old(self)@,
            cond == Condition::NotExists && !has_key(old(self)@, pk@, sk@) ==> r == Ok::<
                (),
                UserError,
            >(()) && final(self)@ == old(self)@.push(EntryV { pk: pk@, sk: sk@, item: item@ }),
            cond == Condition::Exists && has_key(old(self)@, pk@, sk@) ==> r == Ok::<
                (),
                UserError,
            >(()) && final(self)@ == old(self)@.update(
                idx_of(old(self)@, pk@, sk@),
                EntryV { pk: pk@, sk: sk@, item: item@ },
            ),
            cond == Condition::Exists && !has_key(old(self)@, pk@, sk@) ==> r == Err::<
                (),
                UserError,
            >(UserError::ConditionalCheckFailed) && final(self)@ == old(self)@,
    {
        let ghost pre = self@;
        let found = self.find(pk.as_str(), sk.as_str());
        match cond {
            Condition::NotExists => {
                match found {
                    Some(_) => Err(UserError::ConditionalCheckFailed),
                    None => {
                        let ghost ev = EntryV { pk: pk@, sk: sk@, item: item@ };
                        self.entries.push(StoreEntry { pk, sk, item });
                        proof {
                            assert(self@ =~= pre.push(ev));
                            assert forall|i: int, j: int| 0 <= i < j < self@.len() implies !((
                            #[trigger] self@[i]).pk == (#[trigger] self@[j]).pk && self@[i].sk
                                == self@[j].sk) by {
                                if j == self@.len() - 1 {
                                    assert(!key_is(pre[i], ev.pk, ev.sk));
                                }
                            }
                        }
                        Ok(())
                    },
                }
            },
            Condition::Exists => {
                match found {
                    None => Err(UserError::ConditionalCheckFailed),
                    Some(i) => {
                        let ghost ev = EntryV { pk: pk@, sk: sk@, item: item@ };
                        self.entries.remove(i);
                        self.entries.insert(i, StoreEntry { pk, sk, item });
                        proof {
                            assert(self@ =~= pre.update(i as int, ev));
                            assert(key_is(pre[i as int], ev.pk, ev.sk));
                            assert forall|a: int, b: int| 0 <= a < b < self@.len() implies !((
                            #[trigger] self@[a]).pk == (#[trigger] self@[b]).pk && self@[a].sk
                                == self@[b].sk) by {
                                assert(!(pre[a].pk == pre[b].pk && pre[a].sk == pre[b].sk));
                            }
                        }
                        Ok(())
                    },
                }
            },
        }
    }

    /// Clause-wise conditional update of the item under a key, requiring
    /// the key to exist. On success every attribute named by a clause is
    /// assigned and every other attribute of the item is untouched; the
    /// rest of the store is untouched. On an absent key the store is
    /// unchanged and a conditional-check failure is reported.
    pub fn update(&mut self, pk: &str, sk: &str, m: &UpdateMutation) -> (r: Result<(), UserError>)
        requires
            old(self).wf(),
        ensures
            final(self).wf(),
            !has_key(old(self)@, pk@, sk@) ==> r == Err::<(), UserError>(
                UserError::ConditionalCheckFailed,
            ) && final(self)@ == old(self)@,
            has_key(old(self)@, pk@, sk@) ==> {
                let idx = idx_of(old(self)@, pk@, sk@);
                &&& r == Ok::<(), UserError>(())
                &&& final(self)@.len() == old(self)@.len()
                &&& forall|j: int|
                    0 <= j < old(self)@.len() && j != idx ==> final(self)@[j] == old(self)@[j]
                &&& final(self)@[idx].pk == old(self)@[idx].pk
                &&& final(self)@[idx].sk == old(self)@[idx].sk
                &&& forall|k: Seq<char>|
                    #[trigger] lookup(final(self)@[idx].item, k) == lookup_after(
                        old(self)@[idx].item,
                        clauses_view(m.clauses@),
                        k,
                    )
            },
    {
        let ghost pre = self@;
        let found = self.find(pk, sk);
        match found {
            None => Err(UserError::ConditionalCheckFailed),
            Some(i) => {
                let mut entry = self.entries.remove(i);
                let ghost orig = entry.item@;
                let ghost cv = clauses_view(m.clauses@);
                let mut ci: usize = 0;
                while ci < m.clauses.len()
                    invariant
                        ci <= m.clauses.len(),
                        cv == clauses_view(m.clauses@),
                        cv.len() == m.clauses.len(),
                        entry.pk@ == pre[i as int].pk,
                        entry.sk@ == pre[i as int].sk,
                        forall|k: Seq<char>|
                            #[trigger] lookup(entry.item@, k) == lookup_after(
                                orig,
                                cv.take(ci as int),
                                k,
                            ),
                    decreases m.clauses.len() - ci,
                {
                    let clause = &m.clauses[ci];
                    let ghost before = entry.item@;
                    entry.item.set(clause.attr_name.as_str(), clause.value.clone());
                    proof {
                        assert(cv.take(ci + 1).drop_last() =~= cv.take(ci as int));
                        assert(cv.take(ci + 1).last() == cv[ci as int]);
                        assert(cv[ci as int] == m.clauses@[ci as int]@);
                        assert forall|k: Seq<char>|
                            #[trigger] lookup(entry.item@, k) == lookup_after(
                                orig,
                                cv.take(ci + 1),
                                k,
                            ) by {
                            assert(lookup(entry.item@, k) == if k == cv[ci as int].attr_name {
                                Some(cv[ci as int].value)
                            } else {
                                lookup(before, k)
                            });
                        }
                    }
                    ci = ci + 1;
                }
                proof {
                    assert(cv.take(cv.len() as int) =~= cv);
                }
                self.entries.insert(i, entry);
                proof {
                    let ev = EntryV { pk: pre[i as int].pk, sk: pre[i as int].sk, item: self@[i as int].item };
                    assert(self@ =~= pre.update(i as int, self@[i as int]));
                    assert(self@[i as int].pk == pre[i as int].pk);
                    assert(self@[i as int].sk == pre[i as int].sk);
                    assert forall|a: int, b: int| 0 <= a < b < self@.len() implies !((
                    #[trigger] self@[a]).pk == (#[trigger] self@[b]).pk && self@[a].sk
                        == self@[b].sk) by {
                        assert(!(pre[a].pk == pre[b].pk && pre[a].sk == pre[b].sk));
                    }
                }
                Ok(())
            },
        }
    }

    /// Conditional delete of the item under a key, requiring the key to
    /// exist. On an absent key the store is unchanged and a
    /// conditional-check failure is reported.
    pub fn delete(&mut self, pk: &str, sk: &str) -> (r: Result<(), UserError>)
        requires
            old(self).wf(),
        ensures
            final(self).wf(),
            !has_key(old(self)@, pk@, sk@) ==> r == Err::<(), UserError>(
                UserError::ConditionalCheckFailed,
            ) && final(self)@ == old(self)@,
            has_key(old(self)@, pk@, sk@) ==> r == Ok::<(), UserError>(()) && final(self)@
                == old(self)@.remove(idx_of(old(self)@, pk@, sk@)),
    {
        let ghost pre = self@;
        match self.find(pk, sk) {
            None => Err(UserError::ConditionalCheckFailed),
            Some(i) => {
                self.entries.remove(i);
                proof {
                    assert(self@ =~= pre.remove(i as int));
                    assert forall|a: int, b: int| 0 <= a < b < self@.len() implies !((
                    #[trigger] self@[a]).pk == (#[trigger] self@[b]).pk && self@[a].sk
                        == self@[b].sk) by {
                        let a0 = if a < i { a } else { a + 1 };
                        let b0 = if b < i { b } else { b + 1 };
                        assert(self@[a] == pre[a0]);
                        assert(self@[b] == pre[b0]);
                        assert(!(pre[a0].pk == pre[b0].pk && pre[a0].sk == pre[b0].sk));
                    }
                }
                Ok(())
            },
        }
    }

    /// All items under one partition whose sort key starts with the given
    /// prefix, in store order.
    pub fn query_prefix(&self, pk: &str, sk_prefix: &str) -> (r: Vec<AttrMap>)
        ensures
            items_view(r@) == query_items(self@, pk@, sk_prefix@),
    {
        let mut out: Vec<AttrMap> = Vec::new();
        let n = self.entries.len();
        let mut i: usize = 0;
        while i < n
            invariant
                i <= n,
                n == self@.len(),
                n == self.entries.len(),
                items_view(out@) == query_items(self@.take(i as int), pk@, sk_prefix@),
            decreases n - i,
        {
            let e = &self.entries[i];
            proof {
                assert(self@.take(i + 1).drop_last() =~= self@.take(i as int));
                assert(self@.take(i + 1).last() == self@[i as int]);
            }
            let ghost before = items_view(out@);
            if str_eq(e.pk.as_str(), pk) && str_starts_with(e.sk.as_str(), sk_prefix) {
                out.push(e.item.clone());
                proof {
                    assert(items_view(out@) =~= before.push(self@[i as int].item));
                }
            }
            i = i + 1;
        }
        proof {
            assert(self@.take(n as int) =~= self@);
        }
        out
    }
}

/// The ghost form of a list of items.
pub open spec fn items_view(ms: Seq<AttrMap>) -> Seq<Seq<(Seq<char>, ValueView)>> {
    ms.map_values(|m: AttrMap| m@)
}

/// Whether an entry matches a partition and sort-key prefix.
pub open spec fn entry_matches(e: EntryV, pk: Seq<char>, prefix: Seq<char>) -> bool {
    e.pk == pk && e.sk.len() >= prefix.len() && e.sk.take(prefix.len() as int) == prefix
}

/// The items under one partition whose sort key starts with the prefix, in
/// store order.
pub open spec fn query_items(s: Seq<EntryV>, pk: Seq<char>, prefix: Seq<char>) -> Seq<
    Seq<(Seq<char>, ValueView)>,
>
    decreases s.len(),
{
    if s.len() == 0 {
        Seq::empty()
    } else {
        let rest = query_items(s.drop_last(), pk, prefix);
        if entry_matches(s.last(), pk, prefix) {
            rest.push(s.last().item)
        } else {
            rest
        }
    }
}

} // verus!
