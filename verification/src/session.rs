//! The session store: named, per-host cookie and default-header state,
//! merged from responses and serialized for persistent storage.

use vstd::prelude::*;
use crate::bytes::{bytes_eq, bytes_range, find_byte, find_byte_from, push_bytes};
use crate::bytes::{lemma_find_byte_first, lemma_find_byte_planted};

verus! {

/// The spec-level picture of a key/value list.
pub open spec fn kv_view(e: Seq<(Vec<u8>, Vec<u8>)>) -> Seq<(Seq<u8>, Seq<u8>)> {
    e.map(|i: int, p: (Vec<u8>, Vec<u8>)| (p.0@, p.1@))
}

/// Free of the line and field delimiters the session codec uses; cookie
/// and header names and values never carry them in HTTP.
pub open spec fn clean(s: Seq<u8>) -> bool {
    forall|i: int| 0 <= i < s.len() ==> s[i] != 10u8 && s[i] != 9u8
}

/// A well-formed map entry: a nonempty, delimiter-free key and a
/// delimiter-free value.
pub open spec fn entry_wf(p: (Seq<u8>, Seq<u8>)) -> bool {
    clean(p.0) && clean(p.1) && p.0.len() > 0
}

/// A well-formed map: well-formed entries with pairwise distinct keys.
pub open spec fn entries_wf(e: Seq<(Seq<u8>, Seq<u8>)>) -> bool {
    &&& forall|i: int| 0 <= i < e.len() ==> entry_wf(#[trigger] e[i])
    &&& forall|i: int, j: int| 0 <= i < j < e.len() ==> e[i].0 != e[j].0
}

/// The position of key `k` at or after `i`, if present.
pub open spec fn find_key_from(e: Seq<(Seq<u8>, Seq<u8>)>, k: Seq<u8>, i: int) -> Option<int>
    decreases e.len() - i,
{
    if i < 0 || i >= e.len() {
        None
    } else if e[i].0 == k {
        Some(i)
    } else {
        find_key_from(e, k, i + 1)
    }
}

/// Inserting one pair: an existing key keeps its place and takes the new
/// value; a new key is appended.
pub open spec fn merge_one(e: Seq<(Seq<u8>, Seq<u8>)>, k: Seq<u8>, v: Seq<u8>) -> Seq<
    (Seq<u8>, Seq<u8>),
> {
    match find_key_from(e, k, 0) {
        Some(i) => e.update(i, (k, v)),
        None => e.push((k, v)),
    }
}

/// Folding a whole list of additions in, left to right: last write wins.
pub open spec fn merge_all(e: Seq<(Seq<u8>, Seq<u8>)>, adds: Seq<(Seq<u8>, Seq<u8>)>) -> Seq<
    (Seq<u8>, Seq<u8>),
>
    decreases adds.len(),
{
    if adds.len() == 0 {
        e
    } else {
        merge_all(merge_one(e, adds[0].0, adds[0].1), adds.drop_first())
    }
}

/// A response that carries nothing to merge leaves the map exactly as it
/// was: the update is idempotent under no new cookies.
pub proof fn lemma_merge_nothing_is_identity(e: Seq<(Seq<u8>, Seq<u8>)>)
    ensures
        merge_all(e, Seq::<(Seq<u8>, Seq<u8>)>::empty()) == e,
{
}

proof fn lemma_find_key_present(e: Seq<(Seq<u8>, Seq<u8>)>, k: Seq<u8>, i: int, r: int)
    requires
        0 <= i,
        find_key_from(e, k, i) == Some(r),
    ensures
        i <= r < e.len(),
        e[r].0 == k,
    decreases e.len() - i,
{
    if i < e.len() && e[i].0 != k {
        lemma_find_key_present(e, k, i + 1, r);
    }
}

proof fn lemma_find_key_absent(e: Seq<(Seq<u8>, Seq<u8>)>, k: Seq<u8>, i: int)
    requires
        0 <= i,
        find_key_from(e, k, i) is None,
    ensures
        forall|j: int| i <= j < e.len() ==> e[j].0 != k,
    decreases e.len() - i,
{
    if i < e.len() {
        lemma_find_key_absent(e, k, i + 1);
    }
}

/// Merging a well-formed entry keeps the map well-formed.
pub proof fn lemma_merge_one_wf(e: Seq<(Seq<u8>, Seq<u8>)>, k: Seq<u8>, v: Seq<u8>)
    requires
        entries_wf(e),
        entry_wf((k, v)),
    ensures
        entries_wf(merge_one(e, k, v)),
{
    match find_key_from(e, k, 0) {
        Some(i) => {
            lemma_find_key_present(e, k, 0, i);
            let m = e.update(i, (k, v));
            assert forall|a: int, b: int| 0 <= a < b < m.len() implies m[a].0 != m[b].0 by {
                assert(e[a].0 != e[b].0);
            }
        },
        None => {
            lemma_find_key_absent(e, k, 0);
        },
    }
}

/// Merging any list of well-formed entries keeps the map well-formed.
pub proof fn lemma_merge_all_wf(e: Seq<(Seq<u8>, Seq<u8>)>, adds: Seq<(Seq<u8>, Seq<u8>)>)
    requires
        entries_wf(e),
        forall|i: int| 0 <= i < adds.len() ==> entry_wf(#[trigger] adds[i]),
    ensures
        entries_wf(merge_all(e, adds)),
    decreases adds.len(),
{
    if adds.len() > 0 {
        lemma_merge_one_wf(e, adds[0].0, adds[0].1);
        lemma_merge_all_wf(merge_one(e, adds[0].0, adds[0].1), adds.drop_first());
    }
}

/// Persisted cookie and default-header state, scoped to one (name, host)
/// pair.
#[derive(Debug, Clone, PartialEq, Eq)]
pub struct Session {
    pub name: Vec<u8>,
    pub host: Vec<u8>,
    pub cookies: Vec<(Vec<u8>, Vec<u8>)>,
    pub headers: Vec<(Vec<u8>, Vec<u8>)>,
}

impl Session {
    /// Well-formedness: delimiter-free identity, well-formed maps.
    pub open spec fn wf(self) -> bool {
        &&& clean(self.name@)
        &&& clean(self.host@)
        &&& entries_wf(kv_view(self.cookies@))
        &&& entries_wf(kv_view(self.headers@))
    }

    /// A fresh, empty session for the given identity.
    pub fn empty(name: Vec<u8>, host: Vec<u8>) -> (s: Session)
        requires
            clean(name@),
            clean(host@),
        ensures
            s.wf(),
            s.name@ == name@,
            s.host@ == host@,
            s.cookies@.len() == 0,
            s.headers@.len() == 0,
    {
        let s = Session { name, host, cookies: Vec::new(), headers: Vec::new() };
        proof {
            assert(kv_view(s.cookies@) =~= Seq::<(Seq<u8>, Seq<u8>)>::empty());
            assert(kv_view(s.headers@) =~= Seq::<(Seq<u8>, Seq<u8>)>::empty());
        }
        s
    }

    /// Merges response-carried cookies and any configured default-header
    /// updates into the session, last write winning per key. Never fails.
    pub fn update_with_response(
        &mut self,
        cookies: &Vec<(Vec<u8>, Vec<u8>)>,
        header_updates: &Vec<(Vec<u8>, Vec<u8>)>,
    )
        requires
            old(self).wf(),
            forall|i: int| 0 <= i < cookies@.len() ==> entry_wf(#[trigger] kv_view(cookies@)[i]),
            forall|i: int|
                0 <= i < header_updates@.len() ==> entry_wf(
                    #[trigger] kv_view(header_updates@)[i],
                ),
        ensures
            final(self).wf(),
            final(self).name@ == old(self).name@,
            final(self).host@ == old(self).host@,
            kv_view(final(self).cookies@) == merge_all(
                kv_view(old(self).cookies@),
                kv_view(cookies@),
            ),
            kv_view(final(self).headers@) == merge_all(
                kv_view(old(self).headers@),
                kv_view(header_updates@),
            ),
    {
        merge_entries(&mut self.cookies, cookies);
        merge_entries(&mut self.headers, header_updates);
        proof {
            lemma_merge_all_wf(kv_view(old(self).cookies@), kv_view(cookies@));
            lemma_merge_all_wf(kv_view(old(self).headers@), kv_view(header_updates@));
        }
    }
}

/// Finds the entry with key `k`.
pub fn find_key(entries: &Vec<(Vec<u8>, Vec<u8>)>, k: &[u8]) -> (r: Option<usize>)
    ensures
        match r {
            Some(i) => find_key_from(kv_view(entries@), k@, 0) == Some(i as int),
            None => find_key_from(kv_view(entries@), k@, 0) is None,
        },
{
    let ghost e = kv_view(entries@);
    let mut i: usize = 0;
    while i < entries.len()
        invariant
            i <= entries@.len(),
            e == kv_view(entries@),
            e.len() == entries@.len(),
            find_key_from(e, k@, 0) == find_key_from(e, k@, i as int),
        decreases entries@.len() - i,
    {
        if bytes_eq(entries[i].0.as_slice(), k) {
            return Some(i);
        }
        i = i + 1;
    }
    None
}

/// Inserts one pair, last write winning on an existing key.
pub fn insert_entry(entries: &mut Vec<(Vec<u8>, Vec<u8>)>, k: Vec<u8>, v: Vec<u8>)
    ensures
        kv_view(final(entries)@) == merge_one(kv_view(old(entries)@), k@, v@),
{
    let ghost before = kv_view(entries@);
    match find_key(entries, k.as_slice()) {
        Some(i) => {
            proof {
                lemma_find_key_present(before, k@, 0, i as int);
            }
            entries.set(i, (k, v));
            proof {
                assert(kv_view(entries@) =~= merge_one(before, before[i as int].0, v@));
            }
        },
        None => {
            entries.push((k, v));
            proof {
                assert(kv_view(entries@) =~= before.push((k@, v@)));
            }
        },
    }
}

/// Folds a whole list of additions into the map, in order.
pub fn merge_entries(entries: &mut Vec<(Vec<u8>, Vec<u8>)>, adds: &Vec<(Vec<u8>, Vec<u8>)>)
    ensures
        kv_view(final(entries)@) == merge_all(kv_view(old(entries)@), kv_view(adds@)),
{
    let ghost adds_v = kv_view(adds@);
    proof {
        assert(adds_v.subrange(0, adds_v.len() as int) =~= adds_v);
    }
    let mut i: usize = 0;
    while i < adds.len()
        invariant
            i <= adds@.len(),
            adds_v == kv_view(adds@),
            adds_v.len() == adds@.len(),
            merge_all(kv_view(old(entries)@), adds_v) == merge_all(
                kv_view(entries@),
                adds_v.subrange(i as int, adds_v.len() as int),
            ),
        decreases adds@.len() - i,
    {
        let ghost mid = kv_view(entries@);
        let key = clone_bytes(&adds[i].0);
        let value = clone_bytes(&adds[i].1);
        insert_entry(entries, key, value);
        i = i + 1;
        proof {
            let rest_before = adds_v.subrange(i - 1, adds_v.len() as int);
            let rest_after = adds_v.subrange(i as int, adds_v.len() as int);
            assert(rest_before[0] == adds_v[i - 1]);
            assert(rest_before.drop_first() =~= rest_after);
        }
    }
    proof {
        assert(adds_v.subrange(adds_v.len() as int, adds_v.len() as int) =~= Seq::<
            (Seq<u8>, Seq<u8>),
        >::empty());
    }
}

/// Copies a key/value list.
pub fn clone_entries(e: &Vec<(Vec<u8>, Vec<u8>)>) -> (r: Vec<(Vec<u8>, Vec<u8>)>)
    ensures
        kv_view(r@) == kv_view(e@),
{
    let mut r: Vec<(Vec<u8>, Vec<u8>)> = Vec::new();
    proof {
        assert(kv_view(r@) =~= kv_view(e@).subrange(0, 0));
    }
    let mut i: usize = 0;
    while i < e.len()
        invariant
            i <= e@.len(),
            kv_view(r@) == kv_view(e@).subrange(0, i as int),
        decreases e@.len() - i,
    {
        let ghost prev = kv_view(r@);
        let ghost prev_r = r@;
        let k = clone_bytes(&e[i].0);
        let v = clone_bytes(&e[i].1);
        let ghost kk = k@;
        let ghost vv = v@;
        r.push((k, v));
        i = i + 1;
        proof {
            assert(kv_view(r@).len() == prev.len() + 1);
            assert(kv_view(r@)[prev.len() as int] == (kk, vv));
            assert(kv_view(e@)[i - 1] == (e@[i - 1].0@, e@[i - 1].1@));
            assert forall|j: int| 0 <= j < prev.len() implies kv_view(r@)[j] == prev[j] by {
                assert(r@[j] == prev_r[j]);
            }
            assert(kv_view(r@) =~= kv_view(e@).subrange(0, i as int));
        }
    }
    proof {
        assert(kv_view(e@).subrange(0, e@.len() as int) =~= kv_view(e@));
    }
    r
}

/// Copies a byte vector.
pub fn clone_bytes(s: &Vec<u8>) -> (r: Vec<u8>)
    ensures
        r@ == s@,
{
    let mut r: Vec<u8> = Vec::new();
    push_bytes(&mut r, s.as_slice());
    proof {
        assert(r@ =~= s@);
    }
    r
}

} // verus!
