//! The favorite shuffle: every minute the server shows another favorite PSD,
//! walking a shuffled playlist so that each favorite comes up once per round.
use vstd::prelude::*;

use crate::path_text::{file_name, file_name_of, path_key, same_path};
use crate::status::{duration_as_nanos, duration_since_unix_epoch, system_time_now};
use crate::text::{parse_u64, parse_u64_text, trim, trim_ws};

verus! {

/// The xorshift step of the playlist generator.
pub open spec fn xorshift(v: u64) -> u64 {
    let a = v ^ (v >> 12u64);
    let b = a ^ (a << 25u64);
    b ^ (b >> 27u64)
}

/// The number the playlist generator hands out for a state.
pub open spec fn rng_output(state: u64) -> u64 {
    state.wrapping_mul(2_685_821_657_736_338_717u64)
}

/// The generator state a seed starts from (a zero seed becomes 1).
pub open spec fn seed_state(seed: u64) -> u64 {
    if seed < 1 {
        1
    } else {
        seed
    }
}

/// A small xorshift generator that shuffles the playlist.
pub struct PlaylistRng {
    state: u64,
}

impl PlaylistRng {
    /// The current state.
    pub closed spec fn state(&self) -> u64 {
        self.state
    }

    /// A generator seeded with `seed` (0 is replaced by 1).
    pub fn new(seed: u64) -> (r: Self)
        ensures
            r.state() == seed_state(seed),
    {
        PlaylistRng { state: if seed < 1 { 1 } else { seed } }
    }

    /// Advances the generator and returns its next number.
    pub fn next_u64(&mut self) -> (r: u64)
        ensures
            final(self).state() == xorshift(old(self).state()),
            r == rng_output(xorshift(old(self).state())),
    {
        let mut value = self.state;
        value ^= value >> 12u64;
        value ^= value << 25u64;
        value ^= value >> 27u64;
        self.state = value;
        value.wrapping_mul(2_685_821_657_736_338_717u64)
    }
}

/// `s` with the elements at `i` and `j` exchanged.
pub open spec fn swap_seq<A>(s: Seq<A>, i: int, j: int) -> Seq<A> {
    s.update(i, s[j]).update(j, s[i])
}

/// The Fisher-Yates passes for positions `index` down to 1: each swaps the
/// position with one drawn from the generator at or below it.
pub open spec fn shuffle_from(order: Seq<usize>, state: u64, index: int) -> Seq<usize>
    decreases index,
{
    if index < 1 {
        order
    } else {
        let next_state = xorshift(state);
        let j = (rng_output(next_state) as usize) as int % (index + 1);
        shuffle_from(swap_seq(order, index, j), next_state, index - 1)
    }
}

/// The indices `0..n` in order.
pub open spec fn identity_order(n: nat) -> Seq<usize> {
    Seq::new(n, |i: int| i as usize)
}

/// The shuffled order of `n` items for a seed.
pub open spec fn shuffled_order(n: nat, seed: u64) -> Seq<usize> {
    shuffle_from(identity_order(n), seed_state(seed), n - 1)
}

/// The identity of a favorite: its zip and PSD path.
#[derive(Debug, Clone, PartialEq, Eq, Hash)]
pub struct FavoriteKey {
    pub zip_path: String,
    pub psd_path_in_zip: String,
}

/// A favorite PSD. The scale is kept as the bit pattern of a finite positive
/// `f32` (the float itself stays with the caller).
#[derive(Debug, Clone)]
pub struct FavoriteEntry {
    pub zip_path: String,
    pub psd_path_in_zip: String,
    pub psd_file_name: String,
    pub mascot_scale_bits: Option<u32>,
}

/// The identity of a favorite as text.
pub type KeyView = (Seq<char>, Seq<char>);

impl FavoriteKey {
    /// The key as text, each path by its components.
    pub open spec fn view_key(self) -> KeyView {
        (path_key(self.zip_path@), path_key(self.psd_path_in_zip@))
    }

    /// A copy of this key.
    pub fn duplicate(&self) -> (k: Self)
        ensures
            k == *self,
    {
        FavoriteKey { zip_path: self.zip_path.clone(), psd_path_in_zip: self.psd_path_in_zip.clone() }
    }
}

impl FavoriteEntry {
    /// The entry's identity as text, each path by its components.
    pub open spec fn key_view(self) -> KeyView {
        (path_key(self.zip_path@), path_key(self.psd_path_in_zip@))
    }

    /// The entry's identity.
    pub fn key(&self) -> (k: FavoriteKey)
        ensures
            k.view_key() == self.key_view(),
    {
        FavoriteKey { zip_path: self.zip_path.clone(), psd_path_in_zip: self.psd_path_in_zip.clone() }
    }

    /// A copy of this entry.
    pub fn duplicate(&self) -> (e: Self)
        ensures
            e == *self,
    {
        FavoriteEntry {
            zip_path: self.zip_path.clone(),
            psd_path_in_zip: self.psd_path_in_zip.clone(),
            psd_file_name: self.psd_file_name.clone(),
            mascot_scale_bits: self.mascot_scale_bits,
        }
    }

    /// Whether this entry is stored under `key`.
    pub fn has_key(&self, key: &FavoriteKey) -> (b: bool)
        ensures
            b == (self.key_view() == key.view_key()),
    {
        same_path(self.zip_path.as_str(), key.zip_path.as_str()) && same_path(
            self.psd_path_in_zip.as_str(),
            key.psd_path_in_zip.as_str(),
        )
    }
}

/// Two entries are the same favorite with the same scale: the same paths,
/// compared by their components (the file name is not compared).
pub open spec fn same_favorite(a: FavoriteEntry, b: FavoriteEntry) -> bool {
    a.key_view() == b.key_view() && a.mascot_scale_bits == b.mascot_scale_bits
}

/// Two lists of favorites are equal entry by entry.
pub open spec fn same_favorites(a: Seq<FavoriteEntry>, b: Seq<FavoriteEntry>) -> bool {
    a.len() == b.len() && forall|i: int| 0 <= i < a.len() ==> #[trigger] same_favorite(a[i], b[i])
}

/// Two favorite lists are the same list only entry by entry: lists of
/// different lengths differ, and so do lists with, at some position, a
/// different zip path, PSD path (by components) or scale; every list is the
/// same as itself.
pub proof fn lemma_favorite_lists_differ_at_any_entry(
    a: Seq<FavoriteEntry>,
    b: Seq<FavoriteEntry>,
    i: int,
)
    ensures
        a.len() != b.len() ==> !same_favorites(a, b),
        0 <= i < a.len() && i < b.len() && (path_key(a[i].zip_path@) != path_key(b[i].zip_path@)
            || path_key(a[i].psd_path_in_zip@) != path_key(b[i].psd_path_in_zip@)
            || a[i].mascot_scale_bits != b[i].mascot_scale_bits) ==> !same_favorites(a, b),
        same_favorites(a, a),
{
    if 0 <= i < a.len() && i < b.len() && same_favorites(a, b) {
        assert(same_favorite(a[i], b[i]));
    }
    assert forall|j: int| 0 <= j < a.len() implies #[trigger] same_favorite(a[j], a[j]) by {}
}

/// Whether two lists of favorites are equal entry by entry.
pub fn favorites_equal(a: &Vec<FavoriteEntry>, b: &Vec<FavoriteEntry>) -> (r: bool)
    ensures
        r == same_favorites(a@, b@),
{
    if a.len() != b.len() {
        return false;
    }
    let mut i: usize = 0;
    while i < a.len()
        invariant
            a.len() == b.len(),
            i <= a.len(),
            forall|j: int| 0 <= j < i ==> #[trigger] same_favorite(a@[j], b@[j]),
        decreases a.len() - i,
    {
        let x = &a[i];
        let y = &b[i];
        if !(same_path(x.zip_path.as_str(), y.zip_path.as_str()) && same_path(
            x.psd_path_in_zip.as_str(),
            y.psd_path_in_zip.as_str(),
        ) && x.mascot_scale_bits == y.mascot_scale_bits) {
            assert(!same_favorite(a@[i as int], b@[i as int]));
            return false;
        }
        i = i + 1;
    }
    true
}

/// The position of the first entry of `order` at or after `i` whose key is
/// not `current`.
pub open spec fn first_other_from(
    order: Seq<usize>,
    keys: Seq<KeyView>,
    current: KeyView,
    i: int,
) -> Option<int>
    decreases order.len() - i,
{
    if i < 0 || i >= order.len() {
        None
    } else if keys[order[i] as int] != current {
        Some(i)
    } else {
        first_other_from(order, keys, current, i + 1)
    }
}

/// The shuffled order with its first entry moved away from the current
/// favorite: when the first shuffled entry is the one on screen and another
/// favorite exists, the first other one is swapped to the front.
pub open spec fn front_fixed(order: Seq<usize>, keys: Seq<KeyView>, current: Option<KeyView>) -> Seq<
    usize,
> {
    match current {
        Some(c) => if order.len() > 1 && keys[order[0] as int] == c {
            match first_other_from(order, keys, c, 0) {
                Some(p) => swap_seq(order, 0, p),
                None => order,
            }
        } else {
            order
        },
        None => order,
    }
}

/// The keys of a list of favorites.
pub open spec fn entry_keys(favorites: Seq<FavoriteEntry>) -> Seq<KeyView> {
    favorites.map_values(|e: FavoriteEntry| e.key_view())
}

/// The order in which a playlist visits the favorites.
pub open spec fn playlist_order(
    favorites: Seq<FavoriteEntry>,
    current: Option<KeyView>,
    seed: u64,
) -> Seq<usize> {
    front_fixed(shuffled_order(favorites.len(), seed), entry_keys(favorites), current)
}

/// The playlist: the favorites in playlist order.
pub open spec fn playlist_of(
    favorites: Seq<FavoriteEntry>,
    current: Option<KeyView>,
    seed: u64,
) -> Seq<FavoriteEntry> {
    playlist_order(favorites, current, seed).map_values(|k: usize| favorites[k as int])
}

/// The view of an optional borrowed key.
pub open spec fn opt_ref_key_view(k: Option<&FavoriteKey>) -> Option<KeyView> {
    match k {
        Some(k) => Some(k.view_key()),
        None => None,
    }
}

/// `order` holds each index below `n` exactly once.
pub open spec fn is_permutation_of(order: Seq<usize>, n: nat) -> bool {
    &&& order.len() == n
    &&& forall|i: int| 0 <= i < order.len() ==> (#[trigger] order[i]) < n
    &&& forall|i: int, j: int|
        0 <= i < order.len() && 0 <= j < order.len() && i != j ==> #[trigger] order[i]
            != #[trigger] order[j]
}

proof fn lemma_swap_keeps_permutation(order: Seq<usize>, n: nat, i: int, j: int)
    requires
        is_permutation_of(order, n),
        0 <= i < order.len(),
        0 <= j < order.len(),
    ensures
        is_permutation_of(swap_seq(order, i, j), n),
{
    let s = swap_seq(order, i, j);
    assert forall|a: int, b: int|
        0 <= a < s.len() && 0 <= b < s.len() && a != b implies #[trigger] s[a] != #[trigger] s[b] by {
        let oa = if a == j {
            i
        } else if a == i {
            j
        } else {
            a
        };
        let ob = if b == j {
            i
        } else if b == i {
            j
        } else {
            b
        };
        assert(s[a] == order[oa]);
        assert(s[b] == order[ob]);
    }
}

proof fn lemma_shuffle_keeps_permutation(order: Seq<usize>, n: nat, state: u64, index: int)
    requires
        is_permutation_of(order, n),
        index < n,
    ensures
        is_permutation_of(shuffle_from(order, state, index), n),
    decreases index,
{
    if index >= 1 {
        let next_state = xorshift(state);
        let j = (rng_output(next_state) as usize) as int % (index + 1);
        lemma_swap_keeps_permutation(order, n, index, j);
        lemma_shuffle_keeps_permutation(swap_seq(order, index, j), n, next_state, index - 1);
    }
}

proof fn lemma_first_other_from(order: Seq<usize>, keys: Seq<KeyView>, current: KeyView, i: int)
    requires
        0 <= i,
    ensures
        first_other_from(order, keys, current, i) matches Some(p) ==> i <= p < order.len() && keys[order[p] as int] != current,
        first_other_from(order, keys, current, i) is None ==> forall|q: int|
            i <= q < order.len() ==> keys[#[trigger] order[q] as int] == current,
    decreases order.len() - i,
{
    if i < order.len() && keys[order[i] as int] == current {
        lemma_first_other_from(order, keys, current, i + 1);
    }
}

/// Every playlist visits each favorite exactly once: its order is a
/// permutation of the favorites' positions.
pub proof fn lemma_playlist_is_permutation(
    favorites: Seq<FavoriteEntry>,
    current: Option<KeyView>,
    seed: u64,
)
    requires
        favorites.len() <= usize::MAX,
    ensures
        is_permutation_of(playlist_order(favorites, current, seed), favorites.len()),
        playlist_of(favorites, current, seed).len() == favorites.len(),
{
    let n = favorites.len();
    let id = identity_order(n);
    assert(is_permutation_of(id, n));
    if n > 0 {
        lemma_shuffle_keeps_permutation(id, n, seed_state(seed), n - 1);
    }
    let sh = shuffled_order(n, seed);
    assert(is_permutation_of(sh, n));
    if let Some(c) = current {
        if sh.len() > 1 && entry_keys(favorites)[sh[0] as int] == c {
            lemma_first_other_from(sh, entry_keys(favorites), c, 0);
            if let Some(p) = first_other_from(sh, entry_keys(favorites), c, 0) {
                lemma_swap_keeps_permutation(sh, n, 0, p);
            }
        }
    }
}

/// A playlist never starts with the favorite on screen when another
/// favorite exists.
pub proof fn lemma_playlist_avoids_current_first(
    favorites: Seq<FavoriteEntry>,
    current: KeyView,
    seed: u64,
    other: int,
)
    requires
        favorites.len() <= usize::MAX,
        0 <= other < favorites.len(),
        favorites[other].key_view() != current,
    ensures
        playlist_of(favorites, Some(current), seed)[0].key_view() != current,
{
    lemma_playlist_is_permutation(favorites, Some(current), seed);
    let n = favorites.len();
    let keys = entry_keys(favorites);
    let sh = shuffled_order(n, seed);
    let id = identity_order(n);
    assert(is_permutation_of(id, n));
    if n > 0 {
        lemma_shuffle_keeps_permutation(id, n, seed_state(seed), n - 1);
    }
    let order = playlist_order(favorites, Some(current), seed);
    if keys[sh[0] as int] == current {
        assert(n > 1) by {
            if n == 1 {
                assert(sh[0] < 1);
                assert(sh[0] == 0);
                assert(other == 0);
                assert(keys[0] == favorites[0].key_view());
            }
        }
        lemma_first_other_from(sh, keys, current, 0);
        match first_other_from(sh, keys, current, 0) {
            Some(p) => {
                assert(order[0] == sh[p]);
                assert(keys[sh[p] as int] == favorites[sh[p] as int].key_view());
            },
            None => {
                // every position holds the current favorite, yet `other` is
                // somewhere in the permutation
                assert(exists|q: int| 0 <= q < n && sh[q] == other) by {
                    lemma_permutation_covers(sh, n, other);
                }
                let q = choose|q: int| 0 <= q < n && sh[q] == other;
                assert(keys[sh[q] as int] == current);
                assert(keys[other] == favorites[other].key_view());
            },
        }
    } else {
        assert(order == sh);
        assert(keys[sh[0] as int] == favorites[sh[0] as int].key_view());
    }
}

/// A permutation of `0..n` contains every index below `n`.
pub proof fn lemma_permutation_covers(order: Seq<usize>, n: nat, x: int)
    requires
        is_permutation_of(order, n),
        0 <= x < n,
    ensures
        exists|q: int| 0 <= q < n && order[q] == x,
{
    let oi = order.map_values(|v: usize| v as int);
    assert(oi.no_duplicates()) by {
        assert forall|i: int, j: int|
            0 <= i < oi.len() && 0 <= j < oi.len() && i != j implies oi[i] != oi[j] by {
            assert(order[i] != order[j]);
        }
    }
    oi.unique_seq_to_set();
    let s = oi.to_set();
    let full = <int as vstd::set_lib::FiniteRange>::range_set(0, n as int);
    <int as vstd::set_lib::FiniteRange>::range_properties(0, n as int);
    assert(s.subset_of(full)) by {
        assert forall|v: int| s.contains(v) implies full.contains(v) by {
            let i = choose|i: int| 0 <= i < oi.len() && oi[i] == v;
            assert(order[i] < n);
        }
    }
    vstd::set_lib::lemma_len_subset(s, full);
    if !s.contains(x) {
        assert(s.insert(x).subset_of(full));
        vstd::set_lib::lemma_len_subset(s.insert(x), full);
        assert(s.insert(x).len() == s.len() + 1);
        assert(false);
    }
    let q = choose|q: int| 0 <= q < oi.len() && oi[q] == x;
    assert(order[q] == x);
}

/// Builds the playlist: the favorites shuffled by the seed, with the one on
/// screen moved off the front when another exists.
pub fn build_playlist(
    favorites: &Vec<FavoriteEntry>,
    current_key: Option<&FavoriteKey>,
    seed: u64,
) -> (playlist: Vec<FavoriteEntry>)
    ensures
        playlist@ == playlist_of(favorites@, opt_ref_key_view(current_key), seed),
{
    let n = favorites.len();
    let mut order: Vec<usize> = Vec::new();
    let mut k: usize = 0;
    while k < n
        invariant
            k <= n,
            n == favorites.len(),
            order@ == identity_order(k as nat),
        decreases n - k,
    {
        order.push(k);
        assert(order@ =~= identity_order((k + 1) as nat));
        k = k + 1;
    }
    let mut rng = PlaylistRng::new(seed);
    if n > 1 {
        let mut index: usize = n - 1;
        while index >= 1
            invariant
                1 < n,
                n == favorites.len(),
                order@.len() == n,
                index < n,
                shuffled_order(n as nat, seed) == shuffle_from(order@, rng.state(), index as int),
            decreases index,
        {
            let ghost before = order@;
            let ghost st = rng.state();
            let r = rng.next_u64();
            let swap_index = (#[verifier::truncate] (r as usize)) % (index + 1);
            let a = order[index];
            let b = order[swap_index];
            order.set(index, b);
            order.set(swap_index, a);
            assert(order@ =~= swap_seq(before, index as int, swap_index as int));
            index = index - 1;
        }
    }
    let ghost keys = entry_keys(favorites@);
    let ghost cur = opt_ref_key_view(current_key);
    assert(order@ == shuffled_order(n as nat, seed));
    proof {
        let id = identity_order(n as nat);
        assert(is_permutation_of(id, n as nat));
        if n > 0 {
            lemma_shuffle_keeps_permutation(id, n as nat, seed_state(seed), n - 1);
        }
    }
    if let Some(c) = current_key {
        if n > 1 && favorites[order[0]].has_key(c) {
            let mut p: usize = 0;
            while p < n && favorites[order[p]].has_key(c)
                invariant
                    n == favorites.len(),
                    order@.len() == n,
                    is_permutation_of(order@, n as nat),
                    keys == entry_keys(favorites@),
                    p <= n,
                    first_other_from(order@, keys, c.view_key(), 0) == first_other_from(
                        order@,
                        keys,
                        c.view_key(),
                        p as int,
                    ),
                decreases n - p,
            {
                assert(keys[order@[p as int] as int] == favorites@[order@[p as int] as int].key_view());
                p = p + 1;
            }
            if p < n {
                assert(keys[order@[p as int] as int] == favorites@[order@[p as int] as int].key_view());
                let ghost before = order@;
                let a = order[0];
                let b = order[p];
                order.set(0, b);
                order.set(p, a);
                assert(order@ =~= swap_seq(before, 0, p as int));
            }
            assert(keys[order@[0] as int] == favorites@[order@[0] as int].key_view());
        } else {
            proof {
                if n > 1 {
                    assert(keys[order@[0] as int] == favorites@[order@[0] as int].key_view());
                }
            }
        }
    }
    let ghost final_order = playlist_order(favorites@, cur, seed);
    assert(order@ == final_order);
    proof {
        lemma_playlist_is_permutation(favorites@, cur, seed);
    }
    let mut playlist: Vec<FavoriteEntry> = Vec::new();
    let mut i: usize = 0;
    while i < n
        invariant
            n == favorites.len(),
            order@ == final_order,
            is_permutation_of(final_order, n as nat),
            i <= n,
            playlist@ == final_order.take(i as int).map_values(|k: usize| favorites@[k as int]),
        decreases n - i,
    {
        let e = favorites[order[i]].duplicate();
        playlist.push(e);
        assert(final_order.take(i + 1) =~= final_order.take(i as int).push(final_order[i as int]));
        assert(playlist@ =~= final_order.take(i + 1).map_values(|k: usize| favorites@[k as int]));
        i = i + 1;
    }
    assert(final_order.take(n as int) =~= final_order);
    playlist
}

/// How long each favorite stays on screen, in milliseconds.
pub const FAVORITE_SHUFFLE_INTERVAL_MS: u64 = 60_000;

/// How long a psd-viewer-tui heartbeat keeps the shuffle paused, in seconds.
pub const PSD_VIEWER_TUI_ACTIVITY_TTL_SECS: u64 = 5;

/// The state of the shuffle between rotations. Times are milliseconds on a
/// monotonic clock chosen by the caller.
pub struct FavoriteShuffleState {
    pub next_rotation_at_ms: u64,
    pub last_selected_key: Option<FavoriteKey>,
    pub known_favorites: Vec<FavoriteEntry>,
    pub remaining: Vec<FavoriteEntry>,
    pub shuffle_seed: u64,
}

/// Whether the key last shown differs from the one on screen (both known).
pub open spec fn selection_moved(last: Option<FavoriteKey>, current: Option<KeyView>) -> bool {
    match (last, current) {
        (Some(l), Some(c)) => l.view_key() != c,
        _ => false,
    }
}

/// What is left of `remaining` after skipping entries for the favorite on
/// screen: the next candidate and the rest.
pub open spec fn pop_candidate(remaining: Seq<FavoriteEntry>, current: Option<KeyView>) -> (Option<
    FavoriteEntry,
>, Seq<FavoriteEntry>)
    decreases remaining.len(),
{
    if remaining.len() == 0 {
        (None, remaining)
    } else if current is Some && remaining[0].key_view() == current->0 {
        pop_candidate(remaining.skip(1), current)
    } else {
        (Some(remaining[0]), remaining.skip(1))
    }
}

/// The seed value in `u64` arithmetic after one more shuffle.
pub open spec fn next_seed(seed: u64) -> u64 {
    seed.wrapping_add(1)
}

/// Whether a time lies before the end of the `u64` clock by at least one
/// interval.
pub open spec fn time_fits(now: u64) -> bool {
    now + FAVORITE_SHUFFLE_INTERVAL_MS <= u64::MAX
}

impl FavoriteShuffleState {
    /// A state whose first rotation is due one interval after `now`, shuffling
    /// with `seed`.
    pub fn new_with_seed(now: u64, seed: u64) -> (s: Self)
        requires
            time_fits(now),
        ensures
            s.next_rotation_at_ms == now + FAVORITE_SHUFFLE_INTERVAL_MS,
            s.last_selected_key is None,
            s.known_favorites@.len() == 0,
            s.remaining@.len() == 0,
            s.shuffle_seed == seed,
    {
        FavoriteShuffleState {
            next_rotation_at_ms: now + FAVORITE_SHUFFLE_INTERVAL_MS,
            last_selected_key: None,
            known_favorites: Vec::new(),
            remaining: Vec::new(),
            shuffle_seed: seed,
        }
    }

    /// A state whose first rotation is due one interval after `now`, seeded
    /// from the wall clock (nanoseconds since the epoch, truncated to 64 bits,
    /// or 0 before the epoch).
    pub fn new(now: u64) -> (s: Self)
        requires
            time_fits(now),
        ensures
            s.next_rotation_at_ms == now + FAVORITE_SHUFFLE_INTERVAL_MS,
            s.last_selected_key is None,
            s.known_favorites@.len() == 0,
            s.remaining@.len() == 0,
    {
        let seed = seed_from_system_time();
        Self::new_with_seed(now, seed)
    }

    /// Whether the next rotation is due at `now`.
    pub fn is_due(&self, now: u64) -> (b: bool)
        ensures
            b == (now >= self.next_rotation_at_ms),
    {
        now >= self.next_rotation_at_ms
    }

    /// Schedules the next rotation one interval after `now` and records the
    /// favorite now on screen.
    pub fn finish_rotation(&mut self, now: u64, selected_key: Option<FavoriteKey>)
        requires
            time_fits(now),
        ensures
            final(self).next_rotation_at_ms == now + FAVORITE_SHUFFLE_INTERVAL_MS,
            final(self).last_selected_key == selected_key,
            final(self).known_favorites == old(self).known_favorites,
            final(self).remaining == old(self).remaining,
            final(self).shuffle_seed == old(self).shuffle_seed,
    {
        self.next_rotation_at_ms = now + FAVORITE_SHUFFLE_INTERVAL_MS;
        self.last_selected_key = selected_key;
    }

    /// Readies the playlist for a rotation: the round restarts when the
    /// favorite on screen is not the one last chosen or the favorites
    /// changed, and an exhausted round is reshuffled with the next seed.
    pub fn prepare_rotation(&mut self, favorites: Vec<FavoriteEntry>, current_key: Option<&FavoriteKey>)
        requires
            favorites@.len() <= usize::MAX,
        ensures
            ({
                let cur = opt_ref_key_view(current_key);
                let changed = !same_favorites(old(self).known_favorites@, favorites@);
                let restart = selection_moved(old(self).last_selected_key, cur) || changed;
                let kept = if restart {
                    Seq::<FavoriteEntry>::empty()
                } else {
                    old(self).remaining@
                };
                &&& final(self).known_favorites@ == if changed {
                    favorites@
                } else {
                    old(self).known_favorites@
                }
                &&& final(self).remaining@ == if kept.len() == 0 {
                    playlist_of(favorites@, cur, old(self).shuffle_seed)
                } else {
                    kept
                }
                &&& final(self).shuffle_seed == if kept.len() == 0 {
                    next_seed(old(self).shuffle_seed)
                } else {
                    old(self).shuffle_seed
                }
                &&& final(self).next_rotation_at_ms == old(self).next_rotation_at_ms
                &&& final(self).last_selected_key == old(self).last_selected_key
            }),
    {
        let moved = match (&self.last_selected_key, current_key) {
            (Some(last), Some(current)) => !(same_path(
                last.zip_path.as_str(),
                current.zip_path.as_str(),
            ) && same_path(last.psd_path_in_zip.as_str(), current.psd_path_in_zip.as_str())),
            _ => false,
        };
        if moved {
            self.remaining = Vec::new();
        }
        if !favorites_equal(&self.known_favorites, &favorites) {
            let mut copy: Vec<FavoriteEntry> = Vec::new();
            let mut i: usize = 0;
            while i < favorites.len()
                invariant
                    i <= favorites.len(),
                    copy@ == favorites@.take(i as int),
                decreases favorites.len() - i,
            {
                copy.push(favorites[i].duplicate());
                assert(favorites@.take(i + 1) =~= favorites@.take(i as int).push(favorites@[i as int]));
                i = i + 1;
            }
            assert(favorites@.take(favorites.len() as int) =~= favorites@);
            self.known_favorites = copy;
            self.remaining = Vec::new();
        }
        if self.remaining.len() == 0 {
            self.remaining = build_playlist(&favorites, current_key, self.shuffle_seed);
            self.shuffle_seed = self.shuffle_seed.wrapping_add(1);
        }
    }

    /// Takes the next favorite to show, skipping entries for the favorite on
    /// screen.
    pub fn pop_next_candidate(&mut self, current_key: Option<&FavoriteKey>) -> (r: Option<
        FavoriteEntry,
    >)
        ensures
            (r, final(self).remaining@) == pop_candidate(
                old(self).remaining@,
                opt_ref_key_view(current_key),
            ),
            final(self).known_favorites == old(self).known_favorites,
            final(self).next_rotation_at_ms == old(self).next_rotation_at_ms,
            final(self).last_selected_key == old(self).last_selected_key,
            final(self).shuffle_seed == old(self).shuffle_seed,
        decreases old(self).remaining@.len(),
    {
        if self.remaining.len() == 0 {
            return None;
        }
        let favorite = self.remaining.remove(0);
        assert(old(self).remaining@.skip(1) =~= self.remaining@);
        let skip = match current_key {
            Some(current) => favorite.has_key(current),
            None => false,
        };
        if skip {
            self.pop_next_candidate(current_key)
        } else {
            Some(favorite)
        }
    }
}

/// The shuffle seed made of a reading of the clock: `elapsed_ns` is the whole
/// nanoseconds since the Unix epoch, `None` when the clock is before it.
pub open spec fn seed_of(elapsed_ns: Option<u128>) -> u64 {
    match elapsed_ns {
        Some(ns) => (ns % 0x1_0000_0000_0000_0000u128) as u64,
        None => 0,
    }
}

/// Turns a reading of the clock into a shuffle seed: the nanoseconds since
/// the epoch truncated to their low 64 bits, or 0 before the epoch.
pub fn seed_from_elapsed(elapsed_ns: Option<u128>) -> (r: u64)
    ensures
        r == seed_of(elapsed_ns),
{
    match elapsed_ns {
        Some(ns) => (ns % 0x1_0000_0000_0000_0000u128) as u64,
        None => 0,
    }
}

/// Nanoseconds since the Unix epoch, truncated to 64 bits (0 before the
/// epoch): the seed of a fresh shuffle, `seed_from_elapsed` applied to the
/// clock's reading. The reading comes from the clock, so no clause fixes it.
pub fn seed_from_system_time() -> u64 {
    let now = system_time_now();
    let elapsed_ns = match duration_since_unix_epoch(&now) {
        Ok(elapsed) => Some(duration_as_nanos(&elapsed)),
        Err(_) => None,
    };
    seed_from_elapsed(elapsed_ns)
}

/// What a shuffle update does before any file is read.
#[derive(Debug, Clone, Copy, PartialEq, Eq, Structural)]
pub enum ShuffleGate {
    /// Nothing to do now (favorite ensemble shown, or not yet due).
    Idle,
    /// The rotation is skipped because a non-default variation is shown.
    PausedForDisplayDiff,
    /// The rotation may go on: check the psd-viewer-tui heartbeat next.
    Proceed,
}

impl FavoriteShuffleState {
    /// The first decisions of a shuffle update. While the favorite ensemble
    /// is shown, or while a non-default variation is on screen at a due
    /// rotation, the rotation is rescheduled with the favorite on screen;
    /// before the rotation is due nothing changes.
    pub fn begin_update(
        &mut self,
        favorite_ensemble_enabled: bool,
        display_diff_active: bool,
        current_key: Option<FavoriteKey>,
        now: u64,
    ) -> (g: ShuffleGate)
        requires
            time_fits(now),
        ensures
            favorite_ensemble_enabled ==> g == ShuffleGate::Idle,
            !favorite_ensemble_enabled && now < old(self).next_rotation_at_ms ==> g
                == ShuffleGate::Idle && *final(self) == *old(self),
            !favorite_ensemble_enabled && now >= old(self).next_rotation_at_ms && display_diff_active
                ==> g == ShuffleGate::PausedForDisplayDiff,
            !favorite_ensemble_enabled && now >= old(self).next_rotation_at_ms && !display_diff_active
                ==> g == ShuffleGate::Proceed && *final(self) == *old(self),
            g != ShuffleGate::Proceed && (favorite_ensemble_enabled || now >= old(
                self,
            ).next_rotation_at_ms) ==> final(self).next_rotation_at_ms == now
                + FAVORITE_SHUFFLE_INTERVAL_MS && final(self).last_selected_key == current_key
                && final(self).remaining == old(self).remaining && final(self).known_favorites == old(
                self,
            ).known_favorites && final(self).shuffle_seed == old(self).shuffle_seed,
    {
        if favorite_ensemble_enabled {
            self.finish_rotation(now, current_key);
            return ShuffleGate::Idle;
        }
        if !self.is_due(now) {
            return ShuffleGate::Idle;
        }
        if display_diff_active {
            self.finish_rotation(now, current_key);
            return ShuffleGate::PausedForDisplayDiff;
        }
        ShuffleGate::Proceed
    }
}

/// The favorite shown by a configuration, or `None` when its zip or PSD path
/// is empty.
pub fn current_config_key(zip_path: &str, psd_path_in_zip: &str) -> (k: Option<FavoriteKey>)
    ensures
        match k {
            Some(k) => zip_path@.len() > 0 && psd_path_in_zip@.len() > 0 && k.zip_path@
                == zip_path@ && k.psd_path_in_zip@ == psd_path_in_zip@,
            None => zip_path@.len() == 0 || psd_path_in_zip@.len() == 0,
        },
{
    if zip_path.is_empty() || psd_path_in_zip.is_empty() {
        return None;
    }
    Some(
        FavoriteKey {
            zip_path: String::from_str(zip_path),
            psd_path_in_zip: String::from_str(psd_path_in_zip),
        },
    )
}

/// The file name a favorite is listed under: the stored one, or else the
/// PSD path's file name, or else the whole PSD path.
pub open spec fn listed_file_name(psd_file_name: Seq<char>, psd_path_in_zip: Seq<char>) -> Seq<char> {
    if psd_file_name.len() > 0 {
        psd_file_name
    } else {
        match file_name_of(psd_path_in_zip) {
            Some(n) => n,
            None => psd_path_in_zip,
        }
    }
}

/// A favorite read from the favorites file: the file name filled in when
/// missing, and the scale (the bits of an `f32`) kept only when it is finite
/// and positive.
pub fn favorite_entry_from_file(
    zip_path: String,
    psd_path_in_zip: String,
    psd_file_name: String,
    mascot_scale_bits: Option<u32>,
) -> (e: FavoriteEntry)
    ensures
        e.zip_path == zip_path,
        e.psd_path_in_zip == psd_path_in_zip,
        e.psd_file_name@ == listed_file_name(psd_file_name@, psd_path_in_zip@),
        e.mascot_scale_bits == crate::ensemble_entries::clean_scale(mascot_scale_bits),
{
    let scale = crate::ensemble_entries::sanitize_scale_bits(mascot_scale_bits);
    let name = if psd_file_name.as_str().is_empty() {
        match file_name(psd_path_in_zip.as_str()) {
            Some(n) => n,
            None => psd_path_in_zip.clone(),
        }
    } else {
        psd_file_name
    };
    FavoriteEntry { zip_path, psd_path_in_zip, psd_file_name: name, mascot_scale_bits: scale }
}

/// Whether any entry is stored under `key`.
pub open spec fn seq_has_key(entries: Seq<FavoriteEntry>, key: KeyView) -> bool {
    exists|i: int| 0 <= i < entries.len() && (#[trigger] entries[i]).key_view() == key
}

/// The favorites kept from a file: entries with an empty path are dropped,
/// and of entries with the same key only the first is kept.
pub open spec fn kept_favorites(entries: Seq<FavoriteEntry>) -> Seq<FavoriteEntry>
    decreases entries.len(),
{
    if entries.len() == 0 {
        entries
    } else {
        let prev = kept_favorites(entries.drop_last());
        let e = entries.last();
        if e.zip_path@.len() == 0 || e.psd_path_in_zip@.len() == 0 || seq_has_key(
            prev,
            e.key_view(),
        ) {
            prev
        } else {
            prev.push(e)
        }
    }
}

/// Drops favorites with an empty path and repeated favorites, keeping the
/// first of each.
pub fn sanitize_favorites(favorites: Vec<FavoriteEntry>) -> (kept: Vec<FavoriteEntry>)
    ensures
        kept@ == kept_favorites(favorites@),
{
    let mut kept: Vec<FavoriteEntry> = Vec::new();
    let mut i: usize = 0;
    while i < favorites.len()
        invariant
            i <= favorites.len(),
            kept@ == kept_favorites(favorites@.take(i as int)),
        decreases favorites.len() - i,
    {
        let e = &favorites[i];
        assert(favorites@.take(i + 1).drop_last() =~= favorites@.take(i as int));
        assert(favorites@.take(i + 1).last() == favorites@[i as int]);
        if !(e.zip_path.as_str().is_empty() || e.psd_path_in_zip.as_str().is_empty()) {
            let mut seen = false;
            let mut j: usize = 0;
            while j < kept.len()
                invariant
                    j <= kept.len(),
                    !seen ==> forall|q: int| 0 <= q < j ==> (#[trigger] kept@[q]).key_view()
                        != e.key_view(),
                    seen ==> seq_has_key(kept@, e.key_view()),
                decreases kept.len() - j,
            {
                if same_path(kept[j].zip_path.as_str(), e.zip_path.as_str()) && same_path(
                    kept[j].psd_path_in_zip.as_str(),
                    e.psd_path_in_zip.as_str(),
                ) {
                    assert(kept@[j as int].key_view() == e.key_view());
                    seen = true;
                }
                j = j + 1;
            }
            if !seen {
                kept.push(e.duplicate());
            }
        }
        i = i + 1;
    }
    assert(favorites@.take(favorites.len() as int) =~= favorites@);
    kept
}

/// The favorites kept from a file never repeat a key and never have an
/// empty path.
pub proof fn lemma_kept_favorites_distinct(entries: Seq<FavoriteEntry>)
    ensures
        forall|i: int, j: int|
            0 <= i < kept_favorites(entries).len() && 0 <= j < kept_favorites(entries).len() && i
                != j ==> (#[trigger] kept_favorites(entries)[i]).key_view() != (
            #[trigger] kept_favorites(entries)[j]).key_view(),
        forall|i: int|
            0 <= i < kept_favorites(entries).len() ==> (#[trigger] kept_favorites(
                entries,
            )[i]).zip_path@.len() > 0 && kept_favorites(entries)[i].psd_path_in_zip@.len() > 0,
    decreases entries.len(),
{
    if entries.len() > 0 {
        lemma_kept_favorites_distinct(entries.drop_last());
        let prev = kept_favorites(entries.drop_last());
        let e = entries.last();
        let k = kept_favorites(entries);
        if !(e.zip_path@.len() == 0 || e.psd_path_in_zip@.len() == 0 || seq_has_key(
            prev,
            e.key_view(),
        )) {
            assert forall|i: int, j: int|
                0 <= i < k.len() && 0 <= j < k.len() && i != j implies (#[trigger] k[i]).key_view()
                != (#[trigger] k[j]).key_view() by {
                if i < prev.len() && j < prev.len() {
                    assert(k[i] == prev[i] && k[j] == prev[j]);
                } else if i < prev.len() {
                    assert(k[i] == prev[i]);
                } else {
                    assert(k[j] == prev[j]);
                }
            }
            assert forall|i: int| 0 <= i < k.len() implies (#[trigger] k[i]).zip_path@.len() > 0
                && k[i].psd_path_in_zip@.len() > 0 by {
                if i < prev.len() {
                    assert(k[i] == prev[i]);
                }
            }
        }
    }
}

/// The path of the favorites file under a data root
/// (`<root>/favorites/favorites.toml`).
pub fn favorites_path_for(data_root: &str) -> (p: String)
    ensures
        p@ == crate::path_text::join_path(crate::path_text::join_path(data_root@, "favorites"@), "favorites.toml"@),
{
    let dir = crate::path_text::join(data_root, "favorites");
    crate::path_text::join(dir.as_str(), "favorites.toml")
}

/// Whether a psd-viewer-tui heartbeat pauses the shuffle at `now` (Unix
/// seconds): the file's trimmed text is a Unix time no later than `now` and
/// at most the activity TTL before it. A missing or unreadable file
/// (`None`), an empty or malformed heartbeat, or one from the future pauses
/// nothing.
pub open spec fn heartbeat_pauses(text: Option<Seq<char>>, now: u64) -> bool {
    match text {
        None => false,
        Some(t) => {
            let h = trim_ws(t);
            h.len() > 0 && match parse_u64_text(h) {
                Some(active_at) => active_at <= now && now - active_at
                    <= PSD_VIEWER_TUI_ACTIVITY_TTL_SECS,
                None => false,
            }
        },
    }
}

/// Decides from the text of the psd-viewer-tui activity file whether the
/// shuffle is paused, as `heartbeat_pauses` says.
pub fn suppress_rotation_for_activity_text(heartbeat: Option<&str>, now_unix_timestamp: u64) -> (b:
    bool)
    ensures
        b == heartbeat_pauses(
            match heartbeat {
                Some(t) => Some(t@),
                None => None,
            },
            now_unix_timestamp,
        ),
{
    let text = match heartbeat {
        Some(t) => t,
        None => return false,
    };
    let trimmed = trim(text);
    if trimmed.as_str().is_empty() {
        return false;
    }
    let active_at = match parse_u64(trimmed.as_str()) {
        Some(a) => a,
        None => return false,
    };
    if active_at > now_unix_timestamp {
        return false;
    }
    now_unix_timestamp - active_at <= PSD_VIEWER_TUI_ACTIVITY_TTL_SECS
}

/// The positions of the favorites-file entries stored under `key`: the
/// entries whose scale a scale change for that key rewrites.
pub fn favorite_indices_for_key(entry_keys: &Vec<FavoriteKey>, key: &FavoriteKey) -> (r: Vec<usize>)
    ensures
        forall|k: int|
            0 <= k < r@.len() ==> #[trigger] r@[k] < entry_keys@.len() && entry_keys@[r@[k] as int].view_key()
                == key.view_key(),
        forall|i: int| 0 <= i < entry_keys@.len() && (#[trigger] entry_keys@[i]).view_key() == key.view_key() ==> r@.contains(i as usize),
        forall|a: int, b: int| 0 <= a < b < r@.len() ==> r@[a] < r@[b],
{
    let mut r: Vec<usize> = Vec::new();
    let mut i: usize = 0;
    while i < entry_keys.len()
        invariant
            i <= entry_keys.len(),
            forall|k: int|
                0 <= k < r@.len() ==> #[trigger] r@[k] < i && entry_keys@[r@[k] as int].view_key()
                    == key.view_key(),
            forall|j: int| 0 <= j < i && (#[trigger] entry_keys@[j]).view_key() == key.view_key() ==> r@.contains(j as usize),
            forall|a: int, b: int| 0 <= a < b < r@.len() ==> r@[a] < r@[b],
        decreases entry_keys.len() - i,
    {
        let k = &entry_keys[i];
        if same_path(k.zip_path.as_str(), key.zip_path.as_str()) && same_path(
            k.psd_path_in_zip.as_str(),
            key.psd_path_in_zip.as_str(),
        ) {
            let ghost before = r@;
            r.push(i);
            assert(r@[r@.len() - 1] == i);
            assert forall|q: int| 0 <= q < r@.len() implies #[trigger] r@[q] < i + 1
                && entry_keys@[r@[q] as int].view_key() == key.view_key() by {
                if q < before.len() {
                    assert(r@[q] == before[q]);
                }
            }
            assert forall|a: int, b: int| 0 <= a < b < r@.len() implies r@[a] < r@[b] by {
                assert(r@[a] == before[a]);
                if b < before.len() {
                    assert(r@[b] == before[b]);
                }
            }
            assert forall|j: int| 0 <= j < i + 1 && (#[trigger] entry_keys@[j]).view_key() == key.view_key() implies r@.contains(j as usize) by {
                if j < i {
                    assert(before.contains(j as usize));
                    let w = choose|w: int| 0 <= w < before.len() && before[w] == j as usize;
                    assert(r@[w] == j as usize);
                } else {
                    assert(r@[r@.len() - 1] == j as usize);
                }
            }
        }
        i = i + 1;
    }
    r
}

} // verus!
