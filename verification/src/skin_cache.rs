//! A bounded cache of loaded skins keyed by PNG path, evicting the entry
//! inserted (or refreshed) longest ago. Paths are keyed by their components
//! (`path_key`), so two spellings of one path share an entry.
use vstd::prelude::*;

use crate::path_text::{path_key, path_key_text};

verus! {

/// Whether `key` occurs in the entries.
pub open spec fn has_key<T>(entries: Seq<(Seq<char>, T)>, key: Seq<char>) -> bool {
    exists|i: int| 0 <= i < entries.len() && (#[trigger] entries[i]).0 == key
}

/// No key occurs twice.
pub open spec fn keys_distinct<T>(entries: Seq<(Seq<char>, T)>) -> bool {
    forall|i: int, j: int|
        0 <= i < entries.len() && 0 <= j < entries.len() && i != j ==> (#[trigger] entries[i]).0
            != (#[trigger] entries[j]).0
}

/// The value stored under `key`, if any.
pub open spec fn lookup<T>(entries: Seq<(Seq<char>, T)>, key: Seq<char>) -> Option<T> {
    if has_key(entries, key) {
        let i = choose|i: int| 0 <= i < entries.len() && (#[trigger] entries[i]).0 == key;
        Some(entries[i].1)
    } else {
        None
    }
}

/// The entries without the one stored under `key`.
pub open spec fn without_key<T>(entries: Seq<(Seq<char>, T)>, key: Seq<char>) -> Seq<(Seq<char>, T)> {
    entries.filter(other_key(key))
}

/// Whether an entry is stored under a key other than `key`.
pub open spec fn other_key<T>(key: Seq<char>) -> spec_fn((Seq<char>, T)) -> bool {
    |e: (Seq<char>, T)| e.0 != key
}

/// The entries after inserting `(key, value)`: an older entry under `key` is
/// dropped, the new one goes last, and when that exceeds the capacity the
/// oldest entry is evicted.
pub open spec fn entries_after_insert<T>(
    entries: Seq<(Seq<char>, T)>,
    capacity: nat,
    key: Seq<char>,
    value: T,
) -> Seq<(Seq<char>, T)> {
    let pushed = without_key(entries, key).push((key, value));
    if pushed.len() > capacity {
        pushed.drop_first()
    } else {
        pushed
    }
}

/// A cache of skins keyed by path, holding at most `capacity` entries,
/// ordered from the least to the most recently inserted. Each entry is
/// stored under the `path_key` of its path.
pub struct MascotSkinCache<T> {
    capacity: usize,
    entries: Vec<(String, T)>,
    inserted: Ghost<Seq<(Seq<char>, T)>>,
}

impl<T> View for MascotSkinCache<T> {
    type V = Seq<(Seq<char>, T)>;

    closed spec fn view(&self) -> Seq<(Seq<char>, T)> {
        self.entries@.map_values(|e: (String, T)| (e.0@, e.1))
    }
}

impl<T> MascotSkinCache<T> {
    /// The most entries the cache holds.
    pub closed spec fn capacity(&self) -> nat {
        self.capacity as nat
    }

    /// Every insert made since the cache was created, in order, each under
    /// the key its path is stored by.
    pub closed spec fn inserts(&self) -> Seq<(Seq<char>, T)> {
        self.inserted@
    }

    #[verifier::type_invariant]
    closed spec fn well_formed(&self) -> bool {
        &&& self.capacity >= 1
        &&& self@.len() <= self.capacity
        &&& keys_distinct(self@)
        &&& self@ == entries_after_inserts(self.inserted@, self.capacity as nat)
    }

    /// An empty cache holding up to `capacity` entries (at least one).
    pub fn new(capacity: usize) -> (c: Self)
        ensures
            c@ == Seq::<(Seq<char>, T)>::empty(),
            c.inserts() == Seq::<(Seq<char>, T)>::empty(),
            c.capacity() == if capacity < 1 {
                1
            } else {
                capacity
            },
    {
        let capacity = if capacity < 1 {
            1
        } else {
            capacity
        };
        let entries: Vec<(String, T)> = Vec::new();
        assert(entries@.map_values(|e: (String, T)| (e.0@, e.1)) =~= entries_after_inserts(
            Seq::<(Seq<char>, T)>::empty(),
            capacity as nat,
        ));
        let c = MascotSkinCache { capacity, entries, inserted: Ghost(Seq::empty()) };
        assert(c@ =~= Seq::<(Seq<char>, T)>::empty());
        c
    }

    fn index_of(&self, path: &String) -> (r: Option<usize>)
        ensures
            match r {
                Some(i) => i < self@.len() && self@[i as int].0 == path@,
                None => !has_key(self@, path@),
            },
    {
        let mut i: usize = 0;
        while i < self.entries.len()
            invariant
                i <= self.entries@.len(),
                self@.len() == self.entries@.len(),
                self@ == self.entries@.map_values(|e: (String, T)| (e.0@, e.1)),
                forall|j: int| 0 <= j < i ==> (#[trigger] self@[j]).0 != path@,
            decreases self.entries.len() - i,
        {
            if self.entries[i].0 == *path {
                return Some(i);
            }
            i = i + 1;
        }
        None
    }

    /// The value cached under `path`: the value last inserted under it, as
    /// long as fewer than `capacity` other paths were inserted after it.
    pub fn get(&self, path: &String) -> (r: Option<&T>)
        ensures
            match r {
                Some(v) => lookup(self@, path_key(path@)) == Some(*v),
                None => lookup(self@, path_key(path@)) is None,
            },
            ({
                let hist = self.inserts();
                let last = last_insert_index(hist, path_key(path@));
                match r {
                    Some(v) => last >= 0 && keys_inserted_after(hist, last).len() < self.capacity()
                        && *v == hist[last].1,
                    None => last == -1 || keys_inserted_after(hist, last).len() >= self.capacity(),
                }
            }),
    {
        proof {
            use_type_invariant(self);
            lemma_lookup_after_inserts(self.inserted@, self.capacity as nat, path_key(path@));
            lemma_last_insert_index_bounds(self.inserted@, path_key(path@));
        }
        let key = path_key_text(path.as_str());
        match self.index_of(&key) {
            Some(i) => {
                let ghost k = choose|k: int| 0 <= k < self@.len() && (#[trigger] self@[k]).0 == key@;
                assert(k == i as int);
                Some(&self.entries[i].1)
            },
            None => None,
        }
    }

    /// Caches `value` under `path`, replacing an older value under that path,
    /// and evicts the oldest entry when the cache would exceed its capacity.
    pub fn insert(&mut self, path: String, value: T)
        ensures
            final(self)@ == entries_after_insert(
                old(self)@,
                old(self).capacity(),
                path_key(path@),
                value,
            ),
            final(self).capacity() == old(self).capacity(),
            lookup(final(self)@, path_key(path@)) == Some(value),
            final(self)@.len() <= final(self).capacity(),
            keys_distinct(final(self)@),
            final(self).inserts() == old(self).inserts().push((path_key(path@), value)),
    {
        proof {
            use_type_invariant(&*self);
        }
        let path = path_key_text(path.as_str());
        let ghost gv = value;
        let fresh: Vec<(String, T)> = Vec::new();
        assert(fresh@.map_values(|e: (String, T)| (e.0@, e.1)) =~= entries_after_inserts(
            Seq::<(Seq<char>, T)>::empty(),
            self.capacity as nat,
        ));
        let mut current = MascotSkinCache {
            capacity: self.capacity,
            entries: fresh,
            inserted: Ghost(Seq::empty()),
        };
        std::mem::swap(self, &mut current);
        proof {
            use_type_invariant(&current);
        }
        let MascotSkinCache { capacity, mut entries, inserted } = current;
        let ghost old_view = entries@.map_values(|e: (String, T)| (e.0@, e.1));
        let ghost key = path@;
        let ghost ev = entries@.map_values(|e: (String, T)| (e.0@, e.1));
        assert(ev == old_view);
        let mut i: usize = 0;
        let mut found: Option<usize> = None;
        while i < entries.len()
            invariant
                i <= entries@.len(),
                key == path@,
                ev == entries@.map_values(|e: (String, T)| (e.0@, e.1)),
                found is None ==> forall|j: int| 0 <= j < i ==> (#[trigger] ev[j]).0 != key,
                found matches Some(f) ==> f < entries@.len() && ev[f as int].0 == key,
            decreases entries.len() - i,
        {
            assert(ev[i as int].0 == entries@[i as int].0@);
            let entry_key: &String = &entries[i].0;
            let same = entry_key.eq(&path);

            if found.is_none() && same {
                found = Some(i);
            }
            i = i + 1;
        }
        let ghost removed = without_key(old_view, key);
        match found {
            Some(f) => {
                entries.remove(f);
                proof {
                    lemma_remove_is_filter(old_view, f as int, key);
                }
            },
            None => {
                proof {
                    lemma_filter_all_kept(old_view, key);
                }
            },
        }
        assert(entries@.map_values(|e: (String, T)| (e.0@, e.1)) =~= removed);
        entries.push((path, value));
        assert(entries@.map_values(|e: (String, T)| (e.0@, e.1)) =~= removed.push((key, value)));
        proof {
            lemma_filter_keeps_distinct(old_view, key);
        }
        if entries.len() > capacity {
            entries.remove(0);
            assert(entries@.map_values(|e: (String, T)| (e.0@, e.1)) =~= removed.push(
                (key, value),
            ).drop_first());
        }
        proof {
            lemma_insert_then_lookup(old_view, capacity as nat, key, gv);
            let hist = inserted@.push((key, gv));
            assert(hist.drop_last() =~= inserted@);
            assert(hist.last() == (key, gv));
        }
        *self = MascotSkinCache {
            capacity,
            entries,
            inserted: Ghost(inserted@.push((key, gv))),
        };
    }
}

/// Removing the single entry under `key` from entries with distinct keys is
/// filtering that key out.
proof fn lemma_remove_is_filter<T>(entries: Seq<(Seq<char>, T)>, f: int, key: Seq<char>)
    requires
        keys_distinct(entries),
        0 <= f < entries.len(),
        entries[f].0 == key,
    ensures
        entries.remove(f) == without_key(entries, key),
    decreases entries.len(),
{
    reveal(Seq::filter);
    if f == entries.len() - 1 {
        lemma_filter_all_kept(entries.drop_last(), key);
        assert(entries.remove(f) =~= entries.drop_last());
    } else {
        let init = entries.drop_last();
        assert(keys_distinct(init));
        lemma_remove_is_filter(init, f, key);
        assert(entries.last().0 != key) by {
            assert(entries[entries.len() - 1].0 != entries[f].0);
        }
        assert(entries.remove(f) =~= init.remove(f).push(entries.last()));
    }
}

/// Filtering out a key that does not occur keeps every entry.
proof fn lemma_filter_all_kept<T>(entries: Seq<(Seq<char>, T)>, key: Seq<char>)
    requires
        forall|j: int| 0 <= j < entries.len() ==> (#[trigger] entries[j]).0 != key,
    ensures
        without_key(entries, key) == entries,
    decreases entries.len(),
{
    reveal(Seq::filter);
    if entries.len() > 0 {
        lemma_filter_all_kept(entries.drop_last(), key);
        assert(entries.drop_last().push(entries.last()) =~= entries);
    }
}

/// After filtering out `key` and pushing an entry under `key`, keys stay
/// distinct, and every remaining entry was there before.
proof fn lemma_filter_keeps_distinct<T>(entries: Seq<(Seq<char>, T)>, key: Seq<char>)
    requires
        keys_distinct(entries),
    ensures
        forall|v: T| keys_distinct(#[trigger] without_key(entries, key).push((key, v))),
        forall|j: int|
            0 <= j < without_key(entries, key).len() ==> (#[trigger] without_key(entries, key)[j]).0
                != key,
    decreases entries.len(),
{
    reveal(Seq::filter);
    let w = without_key(entries, key);
    assert forall|j: int| 0 <= j < w.len() implies (#[trigger] w[j]).0 != key by {
        entries.lemma_filter_pred(other_key(key), j);
    }
    assert(keys_distinct(w)) by {
        lemma_filter_distinct(entries, key);
    }
    assert forall|v: T| keys_distinct(#[trigger] w.push((key, v))) by {
        let p = w.push((key, v));
        assert forall|i: int, j: int|
            0 <= i < p.len() && 0 <= j < p.len() && i != j implies (#[trigger] p[i]).0 != (
            #[trigger] p[j]).0 by {
            if i < w.len() && j < w.len() {
                assert(p[i] == w[i] && p[j] == w[j]);
            } else if i < w.len() {
                assert(p[i] == w[i]);
            } else {
                assert(p[j] == w[j]);
            }
        }
    }
}

/// Filtering keeps keys distinct.
proof fn lemma_filter_distinct<T>(entries: Seq<(Seq<char>, T)>, key: Seq<char>)
    requires
        keys_distinct(entries),
    ensures
        keys_distinct(without_key(entries, key)),
    decreases entries.len(),
{
    reveal(Seq::filter);
    if entries.len() > 0 {
        let init = entries.drop_last();
        assert(keys_distinct(init));
        lemma_filter_distinct(init, key);
        let wi = without_key(init, key);
        let last = entries.last();
        if last.0 != key {
            assert forall|j: int| 0 <= j < wi.len() implies (#[trigger] wi[j]).0 != last.0 by {
                assert(wi.contains(wi[j]));
                init.lemma_filter_contains_rev(other_key(key), wi[j]);
                let k = choose|k: int| 0 <= k < init.len() && init[k] == wi[j];
                assert(entries[k] == init[k]);
                assert(k != entries.len() - 1);
                assert(entries[entries.len() - 1] == last);
            }
            let w = wi.push(last);
            assert(without_key(entries, key) == w);
            assert forall|i: int, j: int|
                0 <= i < w.len() && 0 <= j < w.len() && i != j implies (#[trigger] w[i]).0 != (
                #[trigger] w[j]).0 by {
                if i < wi.len() && j < wi.len() {
                    assert(w[i] == wi[i] && w[j] == wi[j]);
                } else if i < wi.len() {
                    assert(w[i] == wi[i]);
                } else {
                    assert(w[j] == wi[j]);
                }
            }
        } else {
            assert(without_key(entries, key) == wi);
        }
    }
}

/// After `(key, value)` is inserted, looking `key` up finds `value`: the new
/// entry is the newest, and the cache always keeps at least one entry.
pub proof fn lemma_insert_then_lookup<T>(
    entries: Seq<(Seq<char>, T)>,
    capacity: nat,
    key: Seq<char>,
    value: T,
)
    requires
        capacity >= 1,
        keys_distinct(entries),
        entries.len() <= capacity,
    ensures
        lookup(entries_after_insert(entries, capacity, key, value), key) == Some(value),
        keys_distinct(entries_after_insert(entries, capacity, key, value)),
        entries_after_insert(entries, capacity, key, value).len() <= capacity,
{
    lemma_filter_keeps_distinct(entries, key);
    entries.lemma_filter_len(other_key(key));
    let w = without_key(entries, key);
    let p = w.push((key, value));
    assert(keys_distinct(p));
    let r = entries_after_insert(entries, capacity, key, value);
    let last = r.len() - 1;
    assert(r[last] == (key, value));
    assert(keys_distinct(r)) by {
        if p.len() > capacity {
            assert forall|i: int, j: int|
                0 <= i < r.len() && 0 <= j < r.len() && i != j implies (#[trigger] r[i]).0 != (
                #[trigger] r[j]).0 by {
                assert(r[i] == p[i + 1] && r[j] == p[j + 1]);
            }
        }
    }
    assert(has_key(r, key));
    let k = choose|k: int| 0 <= k < r.len() && (#[trigger] r[k]).0 == key;
    assert(k == last);
}

/// What a cache without a bound would hold after `inserts`, made in order
/// on an empty one: each inserted key once, with the value last inserted
/// under it, ordered by when it was last inserted (most recent last).
pub open spec fn latest_entries<T>(inserts: Seq<(Seq<char>, T)>) -> Seq<(Seq<char>, T)>
    decreases inserts.len(),
{
    if inserts.len() == 0 {
        Seq::empty()
    } else {
        let prev = latest_entries(inserts.drop_last());
        without_key(prev, inserts.last().0).push(inserts.last())
    }
}

/// The last `n` entries of `entries` (all of them if there are fewer).
pub open spec fn newest<T>(entries: Seq<(Seq<char>, T)>, n: nat) -> Seq<(Seq<char>, T)> {
    if entries.len() <= n {
        entries
    } else {
        entries.skip(entries.len() - n)
    }
}

/// The entries of a cache of the given capacity after `inserts`, made in
/// order on an empty one.
pub open spec fn entries_after_inserts<T>(
    inserts: Seq<(Seq<char>, T)>,
    capacity: nat,
) -> Seq<(Seq<char>, T)>
    decreases inserts.len(),
{
    if inserts.len() == 0 {
        Seq::empty()
    } else {
        entries_after_insert(
            entries_after_inserts(inserts.drop_last(), capacity),
            capacity,
            inserts.last().0,
            inserts.last().1,
        )
    }
}

/// Filtering a key out of entries with distinct keys removes one entry when
/// the key occurs and none when it does not.
proof fn lemma_without_key_len<T>(entries: Seq<(Seq<char>, T)>, key: Seq<char>)
    requires
        keys_distinct(entries),
    ensures
        has_key(entries, key) ==> without_key(entries, key).len() == entries.len() - 1,
        !has_key(entries, key) ==> without_key(entries, key) == entries,
{
    if has_key(entries, key) {
        let f = choose|f: int| 0 <= f < entries.len() && (#[trigger] entries[f]).0 == key;
        lemma_remove_is_filter(entries, f, key);
    } else {
        lemma_filter_all_kept(entries, key);
    }
}

/// The unbounded entries never repeat a key.
proof fn lemma_latest_entries_distinct<T>(inserts: Seq<(Seq<char>, T)>)
    ensures
        keys_distinct(latest_entries(inserts)),
    decreases inserts.len(),
{
    if inserts.len() > 0 {
        lemma_latest_entries_distinct(inserts.drop_last());
        lemma_filter_keeps_distinct(latest_entries(inserts.drop_last()), inserts.last().0);
        let v = inserts.last().1;
        assert(keys_distinct(
            without_key(latest_entries(inserts.drop_last()), inserts.last().0).push(
                (inserts.last().0, v),
            ),
        ));
        assert(inserts.last() == (inserts.last().0, v));
    }
}

/// One insert into the newest `capacity` entries keeps the newest
/// `capacity` entries of the unbounded cache after that insert.
proof fn lemma_insert_keeps_newest<T>(
    all: Seq<(Seq<char>, T)>,
    capacity: nat,
    key: Seq<char>,
    value: T,
)
    requires
        capacity >= 1,
        keys_distinct(all),
    ensures
        entries_after_insert(newest(all, capacity), capacity, key, value) == newest(
            without_key(all, key).push((key, value)),
            capacity,
        ),
{
    let s: int = if all.len() <= capacity {
        0
    } else {
        all.len() - capacity
    };
    let a = all.take(s);
    let b = all.skip(s);
    assert(all =~= a + b);
    assert(newest(all, capacity) == b);
    Seq::filter_distributes_over_add(a, b, other_key(key));
    assert(without_key(all, key) == without_key(a, key) + without_key(b, key));
    assert(keys_distinct(a)) by {
        assert forall|i: int, j: int|
            0 <= i < a.len() && 0 <= j < a.len() && i != j implies (#[trigger] a[i]).0 != (
            #[trigger] a[j]).0 by {
            assert(a[i] == all[i] && a[j] == all[j]);
        }
    }
    assert(keys_distinct(b)) by {
        assert forall|i: int, j: int|
            0 <= i < b.len() && 0 <= j < b.len() && i != j implies (#[trigger] b[i]).0 != (
            #[trigger] b[j]).0 by {
            assert(b[i] == all[i + s] && b[j] == all[j + s]);
        }
    }
    lemma_without_key_len(a, key);
    lemma_without_key_len(b, key);
    let wa = without_key(a, key);
    let wb = without_key(b, key);
    let kv = (key, value);
    if has_key(b, key) {
        let f = choose|f: int| 0 <= f < b.len() && (#[trigger] b[f]).0 == key;
        assert(!has_key(a, key)) by {
            if has_key(a, key) {
                let g = choose|g: int| 0 <= g < a.len() && (#[trigger] a[g]).0 == key;
                assert(all[g] == a[g] && all[f + s] == b[f]);
            }
        }
        assert(wb.push(kv).len() <= capacity);
        assert((a + wb.push(kv)).skip(s) =~= wb.push(kv));
        assert(without_key(all, key).push(kv) =~= a + wb.push(kv));
    } else {
        assert(wb == b);
        if b.len() + 1 > capacity {
            assert(all.len() >= capacity);
            if has_key(a, key) {
                assert(without_key(all, key).push(kv) =~= wa + b.push(kv));
                assert((wa + b.push(kv)).skip(s) =~= b.push(kv).drop_first());
            } else {
                assert(without_key(all, key).push(kv) =~= a + b.push(kv));
                assert((a + b.push(kv)).skip(s + 1) =~= b.push(kv).drop_first());
            }
        } else {
            assert(s == 0);
            assert(a.len() == 0);
            assert(!has_key(a, key)) by {
                if has_key(a, key) {
                    let g = choose|g: int| 0 <= g < a.len() && (#[trigger] a[g]).0 == key;
                }
            }
            assert(without_key(all, key).push(kv) =~= b.push(kv));
        }
    }
}

/// After any run of inserts on an empty cache of capacity `capacity` (at
/// least one), the cache holds exactly the `capacity` most recently inserted
/// distinct paths (all of them when there are fewer), each with the value
/// last inserted under it, oldest first.
pub proof fn lemma_inserts_keep_newest<T>(inserts: Seq<(Seq<char>, T)>, capacity: nat)
    requires
        capacity >= 1,
    ensures
        entries_after_inserts(inserts, capacity) == newest(latest_entries(inserts), capacity),
    decreases inserts.len(),
{
    if inserts.len() > 0 {
        let init = inserts.drop_last();
        lemma_inserts_keep_newest(init, capacity);
        lemma_latest_entries_distinct(init);
        lemma_insert_keeps_newest(
            latest_entries(init),
            capacity,
            inserts.last().0,
            inserts.last().1,
        );
        assert(inserts.last() == (inserts.last().0, inserts.last().1));
    }
}

/// The index of the last insert under `key`, or -1 when none was made.
pub open spec fn last_insert_index<T>(inserts: Seq<(Seq<char>, T)>, key: Seq<char>) -> int
    decreases inserts.len(),
{
    if inserts.len() == 0 {
        -1
    } else if inserts.last().0 == key {
        inserts.len() - 1
    } else {
        last_insert_index(inserts.drop_last(), key)
    }
}

proof fn lemma_last_insert_index_bounds<T>(inserts: Seq<(Seq<char>, T)>, key: Seq<char>)
    ensures
        -1 <= last_insert_index(inserts, key) < inserts.len(),
        last_insert_index(inserts, key) >= 0 ==> inserts[last_insert_index(inserts, key)].0
            == key,
        last_insert_index(inserts, key) == -1 ==> forall|i: int|
            0 <= i < inserts.len() ==> (#[trigger] inserts[i]).0 != key,
        forall|j: int|
            last_insert_index(inserts, key) < j < inserts.len() ==> (#[trigger] inserts[j]).0
                != key,
    decreases inserts.len(),
{
    if inserts.len() > 0 {
        let init = inserts.drop_last();
        lemma_last_insert_index_bounds(init, key);
        if inserts.last().0 != key {
            assert forall|j: int|
                last_insert_index(inserts, key) < j < inserts.len() implies (
                #[trigger] inserts[j]).0 != key by {
                if j < inserts.len() - 1 {
                    assert(inserts[j] == init[j]);
                }
            }
            assert forall|i: int| 0 <= i < inserts.len() && last_insert_index(inserts, key) == -1
                implies (#[trigger] inserts[i]).0 != key by {
                if i < inserts.len() - 1 {
                    assert(inserts[i] == init[i]);
                }
            }
            if last_insert_index(inserts, key) >= 0 {
                assert(inserts[last_insert_index(inserts, key)] == init[last_insert_index(
                    init,
                    key,
                )]);
            }
        }
    }
}

/// What the unbounded entries are: every key inserted, and no other, each
/// once, paired with the value of its last insert, in the order of the last
/// inserts.
pub proof fn lemma_latest_entries_shape<T>(inserts: Seq<(Seq<char>, T)>)
    ensures
        keys_distinct(latest_entries(inserts)),
        forall|key: Seq<char>|
            has_key(latest_entries(inserts), key) <==> #[trigger] last_insert_index(inserts, key)
                >= 0,
        forall|m: int|
            0 <= m < latest_entries(inserts).len() ==> 0 <= last_insert_index(
                inserts,
                (#[trigger] latest_entries(inserts)[m]).0,
            ) && latest_entries(inserts)[m] == inserts[last_insert_index(
                inserts,
                latest_entries(inserts)[m].0,
            )],
        forall|m1: int, m2: int|
            0 <= m1 < m2 < latest_entries(inserts).len() ==> last_insert_index(
                inserts,
                (#[trigger] latest_entries(inserts)[m1]).0,
            ) < last_insert_index(inserts, (#[trigger] latest_entries(inserts)[m2]).0),
    decreases inserts.len(),
{
    lemma_latest_entries_distinct(inserts);
    if inserts.len() > 0 {
        let init = inserts.drop_last();
        let n = inserts.len() - 1;
        let k = inserts.last().0;
        lemma_latest_entries_shape(init);
        let prev = latest_entries(init);
        let w = without_key(prev, k);
        let l = latest_entries(inserts);
        assert(l == w.push(inserts.last()));
        assert forall|q: Seq<char>| #![auto] q != k implies last_insert_index(inserts, q)
            == last_insert_index(init, q) by {}
        assert(last_insert_index(inserts, k) == n);
        assert forall|q: Seq<char>| #![auto] true implies last_insert_index(init, q) < n by {
            lemma_last_insert_index_bounds(init, q);
        }
        // The kept entries are those of `prev` with one index skipped at most.
        let skip: int = if has_key(prev, k) {
            choose|f: int| 0 <= f < prev.len() && (#[trigger] prev[f]).0 == k
        } else {
            prev.len() as int
        };
        lemma_without_key_len(prev, k);
        if has_key(prev, k) {
            lemma_remove_is_filter(prev, skip, k);
            assert(w == prev.remove(skip));
        }
        assert forall|m: int| 0 <= m < w.len() implies (#[trigger] w[m]) == prev[if m < skip {
            m
        } else {
            m + 1
        }] && w[m].0 != k by {
            if !has_key(prev, k) {
                assert(w[m] == prev[m]);
            }
        }
        assert forall|key: Seq<char>|
            has_key(l, key) <==> #[trigger] last_insert_index(inserts, key) >= 0 by {
            if key != k {
                if has_key(l, key) {
                    let i = choose|i: int| 0 <= i < l.len() && (#[trigger] l[i]).0 == key;
                    let j = if i < skip {
                        i
                    } else {
                        i + 1
                    };
                    assert(l[i] == w[i]);
                    assert(prev[j].0 == key);
                }
                if last_insert_index(inserts, key) >= 0 {
                    assert(has_key(prev, key));
                    let j = choose|j: int| 0 <= j < prev.len() && (#[trigger] prev[j]).0 == key;
                    assert(j != skip);
                    let i = if j < skip {
                        j
                    } else {
                        j - 1
                    };
                    assert(w[i] == prev[j]);
                    assert(l[i] == w[i]);
                }
            } else {
                assert(l[l.len() - 1].0 == k);
            }
        }
        assert forall|m: int| 0 <= m < l.len() implies 0 <= last_insert_index(
            inserts,
            (#[trigger] l[m]).0,
        ) && l[m] == inserts[last_insert_index(inserts, l[m].0)] by {
            if m < w.len() {
                let j = if m < skip {
                    m
                } else {
                    m + 1
                };
                assert(l[m] == w[m]);
                assert(prev[j] == init[last_insert_index(init, prev[j].0)]);
            }
        }
        assert forall|m1: int, m2: int| 0 <= m1 < m2 < l.len() implies last_insert_index(
            inserts,
            (#[trigger] l[m1]).0,
        ) < last_insert_index(inserts, (#[trigger] l[m2]).0) by {
            let j1 = if m1 < skip {
                m1
            } else {
                m1 + 1
            };
            assert(l[m1] == w[m1]);
            if m2 < w.len() {
                let j2 = if m2 < skip {
                    m2
                } else {
                    m2 + 1
                };
                assert(l[m2] == w[m2]);
                assert(prev[j1] == w[m1] && prev[j2] == w[m2]);
            }
        }
    }
}

/// The distinct keys inserted after the insert at index `i`.
pub open spec fn keys_inserted_after<T>(inserts: Seq<(Seq<char>, T)>, i: int) -> Set<Seq<char>> {
    inserts.skip(i + 1).map_values(|e: (Seq<char>, T)| e.0).to_set()
}

/// Looking a path up after any run of inserts on an empty cache of capacity
/// `capacity` (at least one): a path never inserted is not found; a path
/// last inserted with value `v` is found with `v` when fewer than `capacity`
/// other distinct paths were inserted after it, and is not found otherwise.
pub proof fn lemma_lookup_after_inserts<T>(
    inserts: Seq<(Seq<char>, T)>,
    capacity: nat,
    key: Seq<char>,
)
    requires
        capacity >= 1,
    ensures
        last_insert_index(inserts, key) == -1 ==> lookup(
            entries_after_inserts(inserts, capacity),
            key,
        ) is None,
        last_insert_index(inserts, key) >= 0 ==> lookup(
            entries_after_inserts(inserts, capacity),
            key,
        ) == if keys_inserted_after(inserts, last_insert_index(inserts, key)).len() < capacity {
            Some(inserts[last_insert_index(inserts, key)].1)
        } else {
            None::<T>
        },
{
    lemma_inserts_keep_newest(inserts, capacity);
    lemma_latest_entries_shape(inserts);
    lemma_last_insert_index_bounds(inserts, key);
    let l = latest_entries(inserts);
    let e = entries_after_inserts(inserts, capacity);
    let s: int = if l.len() <= capacity {
        0
    } else {
        l.len() - capacity
    };
    assert(e =~= l.skip(s));
    assert(keys_distinct(e)) by {
        assert forall|i: int, j: int|
            0 <= i < e.len() && 0 <= j < e.len() && i != j implies (#[trigger] e[i]).0 != (
            #[trigger] e[j]).0 by {
            assert(e[i] == l[i + s] && e[j] == l[j + s]);
        }
    }
    let idx = last_insert_index(inserts, key);
    if idx == -1 {
        assert(!has_key(l, key));
        if has_key(e, key) {
            let i = choose|i: int| 0 <= i < e.len() && (#[trigger] e[i]).0 == key;
            assert(e[i] == l[i + s]);
        }
    } else {
        assert(has_key(l, key));
        let pos = choose|m: int| 0 <= m < l.len() && (#[trigger] l[m]).0 == key;
        assert(l[pos] == inserts[idx]);
        let after = l.skip(pos + 1).map_values(|x: (Seq<char>, T)| x.0);
        let set = keys_inserted_after(inserts, idx);
        assert(after.no_duplicates()) by {
            assert forall|i: int, j: int|
                0 <= i < after.len() && 0 <= j < after.len() && i != j implies after[i]
                != after[j] by {
                assert(after[i] == l[i + pos + 1].0 && after[j] == l[j + pos + 1].0);
            }
        }
        after.unique_seq_to_set();
        assert(after.to_set() =~= set) by {
            let rest = inserts.skip(idx + 1).map_values(|x: (Seq<char>, T)| x.0);
            assert forall|q: Seq<char>| after.to_set().contains(q) implies set.contains(q) by {
                assert(after.contains(q));
                let i = choose|i: int| 0 <= i < after.len() && after[i] == q;
                let m = i + pos + 1;
                assert(after[i] == l[m].0);
                let li = last_insert_index(inserts, q);
                assert(li > idx) by {
                    assert(last_insert_index(inserts, l[pos].0) < last_insert_index(
                        inserts,
                        l[m].0,
                    ));
                }
                lemma_last_insert_index_bounds(inserts, q);
                assert(rest[li - idx - 1] == q);
                assert(rest.contains(q));
            }
            assert forall|q: Seq<char>| set.contains(q) implies after.to_set().contains(q) by {
                assert(rest.contains(q));
                let j = choose|j: int| 0 <= j < rest.len() && rest[j] == q;
                assert(inserts[j + idx + 1].0 == q);
                lemma_last_insert_index_bounds(inserts, q);
                let li = last_insert_index(inserts, q);
                assert(li >= j + idx + 1);
                assert(has_key(l, q));
                let m = choose|m: int| 0 <= m < l.len() && (#[trigger] l[m]).0 == q;
                assert(m > pos) by {
                    if m < pos {
                        assert(last_insert_index(inserts, l[m].0) < last_insert_index(
                            inserts,
                            l[pos].0,
                        ));
                    } else if m == pos {
                    }
                }
                assert(after[m - pos - 1] == q);
                assert(after.contains(q));
            }
        }
        assert(set.len() == l.len() - pos - 1);
        if pos >= s {
            assert(e[pos - s] == l[pos]);
            assert(has_key(e, key));
            let i = choose|i: int| 0 <= i < e.len() && (#[trigger] e[i]).0 == key;
            assert(e[i] == l[i + s]);
            assert(i == pos - s);
        } else {
            if has_key(e, key) {
                let i = choose|i: int| 0 <= i < e.len() && (#[trigger] e[i]).0 == key;
                assert(e[i] == l[i + s]);
            }
        }
    }
}

} // verus!
