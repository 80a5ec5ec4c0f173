//! Entries of an ensemble file (the favorite ensemble, or the ensemble of
//! named characters): cleaning what was read, and picking the saved entry
//! of a resolved character.
use vstd::prelude::*;

use crate::character::ResolvedCharacterSkin;
use crate::path_text::{file_name, file_name_of, path_key, same_path};
use crate::text::{trim, trim_ws};

verus! {

/// A layer shown or hidden against the PSD's default.
#[derive(Debug, Clone, Copy, PartialEq, Eq, Structural)]
pub struct LayerOverride {
    pub layer_index: usize,
    pub visible: bool,
}

/// One mascot of an ensemble file. Scales and positions are kept as the
/// bits of their `f32` values.
#[derive(Debug, Clone)]
pub struct EnsembleEntry {
    pub character_name: Option<String>,
    pub zip_path: String,
    pub psd_path_in_zip: String,
    pub psd_file_name: String,
    pub visibility_overrides: Vec<LayerOverride>,
    pub mascot_scale_bits: Option<u32>,
    pub position_bits: Option<(u32, u32)>,
}

/// What an entry says, as plain values: (character name, zip path, PSD
/// path, PSD file name, layer overrides, scale bits, position bits).
pub open spec fn entry_view(e: EnsembleEntry) -> (
    Option<Seq<char>>,
    Seq<char>,
    Seq<char>,
    Seq<char>,
    Seq<LayerOverride>,
    Option<u32>,
    Option<(u32, u32)>,
) {
    (
        match e.character_name {
            Some(n) => Some(n@),
            None => None,
        },
        e.zip_path@,
        e.psd_path_in_zip@,
        e.psd_file_name@,
        e.visibility_overrides@,
        e.mascot_scale_bits,
        e.position_bits,
    )
}

/// The bits of a finite `f32` (exponent not all ones).
pub open spec fn finite_bits(b: u32) -> bool {
    (b & 0x7F80_0000u32) != 0x7F80_0000u32
}

/// The bits of a finite `f32` greater than zero.
pub open spec fn positive_finite_bits(b: u32) -> bool {
    b < 0x8000_0000u32 && b != 0 && finite_bits(b)
}

/// A scale is kept only when it is finite and positive.
pub open spec fn clean_scale(s: Option<u32>) -> Option<u32> {
    match s {
        Some(b) => if positive_finite_bits(b) {
            Some(b)
        } else {
            None
        },
        None => None,
    }
}

/// A position is kept only when both coordinates are finite.
pub open spec fn clean_position(p: Option<(u32, u32)>) -> Option<(u32, u32)> {
    match p {
        Some((x, y)) => if finite_bits(x) && finite_bits(y) {
            Some((x, y))
        } else {
            None
        },
        None => None,
    }
}

/// A character name is kept trimmed, and only when something is left.
pub open spec fn clean_name(n: Option<Seq<char>>) -> Option<Seq<char>> {
    match n {
        Some(t) => if trim_ws(t).len() > 0 {
            Some(trim_ws(t))
        } else {
            None
        },
        None => None,
    }
}

/// The file name of a path, or the whole path when it names no file.
pub open spec fn file_name_or_path(p: Seq<char>) -> Seq<char> {
    match file_name_of(p) {
        Some(n) => n,
        None => p,
    }
}

/// An entry as it is kept: name trimmed, missing PSD file name taken from
/// the PSD path, invalid scale and position dropped.
pub open spec fn cleaned(
    v: (
        Option<Seq<char>>,
        Seq<char>,
        Seq<char>,
        Seq<char>,
        Seq<LayerOverride>,
        Option<u32>,
        Option<(u32, u32)>,
    ),
) -> (Option<Seq<char>>, Seq<char>, Seq<char>, Seq<char>, Seq<LayerOverride>, Option<u32>, Option<
    (u32, u32),
>) {
    (
        clean_name(v.0),
        v.1,
        v.2,
        if v.3.len() == 0 {
            file_name_or_path(v.2)
        } else {
            v.3
        },
        v.4,
        clean_scale(v.5),
        clean_position(v.6),
    )
}

/// Two entries stand for the same mascot: same zip and PSD paths (compared
/// by their components) and the same layer overrides.
pub open spec fn same_identity(
    a: (
        Option<Seq<char>>,
        Seq<char>,
        Seq<char>,
        Seq<char>,
        Seq<LayerOverride>,
        Option<u32>,
        Option<(u32, u32)>,
    ),
    b: (
        Option<Seq<char>>,
        Seq<char>,
        Seq<char>,
        Seq<char>,
        Seq<LayerOverride>,
        Option<u32>,
        Option<(u32, u32)>,
    ),
) -> bool {
    path_key(a.1) == path_key(b.1) && path_key(a.2) == path_key(b.2) && a.4 == b.4
}

/// The first position in `acc` of an entry for the same mascot as `v`.
pub open spec fn identity_position(
    acc: Seq<
        (
            Option<Seq<char>>,
            Seq<char>,
            Seq<char>,
            Seq<char>,
            Seq<LayerOverride>,
            Option<u32>,
            Option<(u32, u32)>,
        ),
    >,
    v: (
        Option<Seq<char>>,
        Seq<char>,
        Seq<char>,
        Seq<char>,
        Seq<LayerOverride>,
        Option<u32>,
        Option<(u32, u32)>,
    ),
) -> Option<int>
    decreases acc.len(),
{
    if acc.len() == 0 {
        None
    } else {
        match identity_position(acc.drop_last(), v) {
            Some(i) => Some(i),
            None => if same_identity(acc.last(), v) {
                Some(acc.len() - 1)
            } else {
                None
            },
        }
    }
}

/// The entries kept from a file: entries with an empty zip or PSD path are
/// dropped, the others cleaned, and a later entry for a mascot already
/// kept takes that entry's place.
pub open spec fn sanitized(
    vs: Seq<
        (
            Option<Seq<char>>,
            Seq<char>,
            Seq<char>,
            Seq<char>,
            Seq<LayerOverride>,
            Option<u32>,
            Option<(u32, u32)>,
        ),
    >,
) -> Seq<
    (Option<Seq<char>>, Seq<char>, Seq<char>, Seq<char>, Seq<LayerOverride>, Option<u32>, Option<(u32, u32)>),
>
    decreases vs.len(),
{
    if vs.len() == 0 {
        Seq::empty()
    } else {
        let acc = sanitized(vs.drop_last());
        let e = vs.last();
        if e.1.len() == 0 || e.2.len() == 0 {
            acc
        } else {
            let c = cleaned(e);
            match identity_position(acc, c) {
                Some(i) => acc.update(i, c),
                None => acc.push(c),
            }
        }
    }
}

/// The views of a list of entries.
pub open spec fn entry_views(es: Seq<EnsembleEntry>) -> Seq<
    (Option<Seq<char>>, Seq<char>, Seq<char>, Seq<char>, Seq<LayerOverride>, Option<u32>, Option<(u32, u32)>),
> {
    es.map_values(|e: EnsembleEntry| entry_view(e))
}

fn copy_overrides(v: &Vec<LayerOverride>) -> (r: Vec<LayerOverride>)
    ensures
        r@ == v@,
{
    let mut r: Vec<LayerOverride> = Vec::new();
    let mut i: usize = 0;
    while i < v.len()
        invariant
            i <= v.len(),
            r@ == v@.take(i as int),
        decreases v.len() - i,
    {
        r.push(v[i]);
        assert(v@.take(i + 1) =~= v@.take(i as int).push(v@[i as int]));
        i = i + 1;
    }
    assert(v@.take(v.len() as int) =~= v@);
    r
}

fn overrides_equal(a: &Vec<LayerOverride>, b: &Vec<LayerOverride>) -> (r: bool)
    ensures
        r == (a@ == b@),
{
    if a.len() != b.len() {
        return false;
    }
    let mut i: usize = 0;
    while i < a.len()
        invariant
            a.len() == b.len(),
            i <= a.len(),
            forall|j: int| 0 <= j < i ==> a@[j] == b@[j],
        decreases a.len() - i,
    {
        if a[i].layer_index != b[i].layer_index || a[i].visible != b[i].visible {
            return false;
        }
        i = i + 1;
    }
    assert(a@ =~= b@);
    true
}

fn is_finite_bits(b: u32) -> (r: bool)
    ensures
        r == finite_bits(b),
{
    (b & 0x7F80_0000u32) != 0x7F80_0000u32
}

/// Keeps a scale only when its bits are those of a finite positive `f32`.
pub fn sanitize_scale_bits(scale: Option<u32>) -> (r: Option<u32>)
    ensures
        r == clean_scale(scale),
{
    match scale {
        Some(b) => if b < 0x8000_0000u32 && b != 0 && is_finite_bits(b) {
            Some(b)
        } else {
            None
        },
        None => None,
    }
}

/// Keeps a position only when both coordinates are finite.
pub fn sanitize_position_bits(position: Option<(u32, u32)>) -> (r: Option<(u32, u32)>)
    ensures
        r == clean_position(position),
{
    match position {
        Some((x, y)) => if is_finite_bits(x) && is_finite_bits(y) {
            Some((x, y))
        } else {
            None
        },
        None => None,
    }
}

/// A character name trimmed, or none when nothing is left.
pub fn sanitize_character_name(character_name: &Option<String>) -> (r: Option<String>)
    ensures
        match clean_name(
            match character_name {
                Some(n) => Some(n@),
                None => None,
            },
        ) {
            Some(t) => r matches Some(s) && s@ == t,
            None => r is None,
        },
{
    match character_name {
        Some(n) => {
            let t = trim(n.as_str());
            if t.as_str().is_empty() {
                None
            } else {
                Some(t)
            }
        },
        None => None,
    }
}

/// The PSD file name of an entry: its own when set, else the file name of
/// its PSD path.
pub fn psd_file_name(saved_name: &str, psd_path_in_zip: &str) -> (r: String)
    ensures
        r@ == (if saved_name@.len() == 0 {
            file_name_or_path(psd_path_in_zip@)
        } else {
            saved_name@
        }),
{
    if !saved_name.is_empty() {
        return String::from_str(saved_name);
    }
    match file_name(psd_path_in_zip) {
        Some(n) => n,
        None => String::from_str(psd_path_in_zip),
    }
}

fn cleaned_entry(e: &EnsembleEntry) -> (c: EnsembleEntry)
    ensures
        entry_view(c) == cleaned(entry_view(*e)),
{
    let name = sanitize_character_name(&e.character_name);
    EnsembleEntry {
        character_name: name,
        zip_path: e.zip_path.clone(),
        psd_path_in_zip: e.psd_path_in_zip.clone(),
        psd_file_name: psd_file_name(e.psd_file_name.as_str(), e.psd_path_in_zip.as_str()),
        visibility_overrides: copy_overrides(&e.visibility_overrides),
        mascot_scale_bits: sanitize_scale_bits(e.mascot_scale_bits),
        position_bits: sanitize_position_bits(e.position_bits),
    }
}

fn same_entry_identity(a: &EnsembleEntry, b: &EnsembleEntry) -> (r: bool)
    ensures
        r == same_identity(entry_view(*a), entry_view(*b)),
{
    same_path(a.zip_path.as_str(), b.zip_path.as_str()) && same_path(
        a.psd_path_in_zip.as_str(),
        b.psd_path_in_zip.as_str(),
    ) && overrides_equal(&a.visibility_overrides, &b.visibility_overrides)
}

proof fn lemma_identity_position_first(
    acc: Seq<
        (
            Option<Seq<char>>,
            Seq<char>,
            Seq<char>,
            Seq<char>,
            Seq<LayerOverride>,
            Option<u32>,
            Option<(u32, u32)>,
        ),
    >,
    v: (
        Option<Seq<char>>,
        Seq<char>,
        Seq<char>,
        Seq<char>,
        Seq<LayerOverride>,
        Option<u32>,
        Option<(u32, u32)>,
    ),
)
    ensures
        match identity_position(acc, v) {
            Some(i) => 0 <= i < acc.len() && same_identity(acc[i], v) && forall|j: int|
                0 <= j < i ==> !same_identity(#[trigger] acc[j], v),
            None => forall|j: int| 0 <= j < acc.len() ==> !same_identity(#[trigger] acc[j], v),
        },
    decreases acc.len(),
{
    if acc.len() > 0 {
        let init = acc.drop_last();
        lemma_identity_position_first(init, v);
        match identity_position(init, v) {
            Some(i) => {
                assert(acc[i] == init[i]);
                assert forall|j: int| 0 <= j < i implies !same_identity(#[trigger] acc[j], v) by {
                    assert(acc[j] == init[j]);
                }
            },
            None => {
                assert forall|j: int| 0 <= j < acc.len() - 1 implies !same_identity(
                    #[trigger] acc[j],
                    v,
                ) by {
                    assert(acc[j] == init[j]);
                }
            },
        }
    }
}

/// Cleans the entries read from an ensemble file, as `sanitized` says.
pub fn sanitize_ensemble_entries(entries: &Vec<EnsembleEntry>) -> (kept: Vec<EnsembleEntry>)
    ensures
        entry_views(kept@) == sanitized(entry_views(entries@)),
{
    let mut kept: Vec<EnsembleEntry> = Vec::new();
    let mut i: usize = 0;
    assert(entry_views(entries@).take(0) =~= Seq::empty());
    assert(entry_views(kept@) =~= Seq::empty());
    while i < entries.len()
        invariant
            i <= entries.len(),
            entry_views(kept@) == sanitized(entry_views(entries@).take(i as int)),
        decreases entries.len() - i,
    {
        let ghost vs = entry_views(entries@);
        assert(vs.take(i + 1).drop_last() =~= vs.take(i as int));
        assert(vs.take(i + 1).last() == entry_view(entries@[i as int]));
        let e = &entries[i];
        if !(e.zip_path.as_str().is_empty() || e.psd_path_in_zip.as_str().is_empty()) {
            let c = cleaned_entry(e);
            let ghost acc = entry_views(kept@);
            proof {
                lemma_identity_position_first(acc, entry_view(c));
            }
            let mut j: usize = 0;
            let mut found = false;
            while j < kept.len() && !found
                invariant
                    j <= kept.len(),
                    acc == entry_views(kept@),
                    forall|q: int| 0 <= q < j ==> !same_identity(#[trigger] acc[q], entry_view(c)),
                    found ==> j < kept.len() && same_identity(acc[j as int], entry_view(c)),
                decreases kept.len() - j + (if found {
                    0int
                } else {
                    1int
                }),
            {
                if same_entry_identity(&kept[j], &c) {
                    found = true;
                } else {
                    j = j + 1;
                }
            }
            if found {
                assert(identity_position(acc, entry_view(c)) == Some(j as int));
                kept[j] = c;
                assert(entry_views(kept@) =~= acc.update(j as int, entry_view(c)));
            } else {
                assert(identity_position(acc, entry_view(c)) is None);
                kept.push(c);
                assert(entry_views(kept@) =~= acc.push(entry_view(c)));
            }
        }
        i = i + 1;
    }
    assert(entry_views(entries@).take(entries.len() as int) =~= entry_views(entries@));
    kept
}

/// The entries kept from a file never stand twice for the same mascot, and
/// none has an empty zip or PSD path.
pub proof fn lemma_sanitized_identities_distinct(
    vs: Seq<
        (
            Option<Seq<char>>,
            Seq<char>,
            Seq<char>,
            Seq<char>,
            Seq<LayerOverride>,
            Option<u32>,
            Option<(u32, u32)>,
        ),
    >,
)
    ensures
        forall|i: int, j: int|
            0 <= i < j < sanitized(vs).len() ==> !same_identity(
                #[trigger] sanitized(vs)[i],
                #[trigger] sanitized(vs)[j],
            ),
        forall|i: int|
            0 <= i < sanitized(vs).len() ==> (#[trigger] sanitized(vs)[i]).1.len() > 0
                && sanitized(vs)[i].2.len() > 0,
    decreases vs.len(),
{
    if vs.len() > 0 {
        lemma_sanitized_identities_distinct(vs.drop_last());
        let acc = sanitized(vs.drop_last());
        let e = vs.last();
        if !(e.1.len() == 0 || e.2.len() == 0) {
            let c = cleaned(e);
            lemma_identity_position_first(acc, c);
            let s = sanitized(vs);
            match identity_position(acc, c) {
                Some(k) => {
                    assert forall|i: int, j: int| 0 <= i < j < s.len() implies !same_identity(
                        #[trigger] s[i],
                        #[trigger] s[j],
                    ) by {
                        if i == k {
                            assert(same_identity(acc[k], c));
                            assert(s[j] == acc[j]);
                        } else if j == k {
                            assert(same_identity(acc[k], c));
                            assert(s[i] == acc[i]);
                        } else {
                            assert(s[i] == acc[i] && s[j] == acc[j]);
                        }
                    }
                    assert forall|i: int| 0 <= i < s.len() implies (#[trigger] s[i]).1.len() > 0
                        && s[i].2.len() > 0 by {
                        if i != k {
                            assert(s[i] == acc[i]);
                        }
                    }
                },
                None => {
                    assert forall|i: int, j: int| 0 <= i < j < s.len() implies !same_identity(
                        #[trigger] s[i],
                        #[trigger] s[j],
                    ) by {
                        if j == acc.len() {
                            assert(s[i] == acc[i]);
                        } else {
                            assert(s[i] == acc[i] && s[j] == acc[j]);
                        }
                    }
                    assert forall|i: int| 0 <= i < s.len() implies (#[trigger] s[i]).1.len() > 0
                        && s[i].2.len() > 0 by {
                        if i < acc.len() {
                            assert(s[i] == acc[i]);
                        }
                    }
                },
            }
        }
    }
}

/// The saved entry for the same zip and PSD as a resolved character: the
/// first one.
pub open spec fn saved_entry_index(
    saved: Seq<EnsembleEntry>,
    zip_path: Seq<char>,
    psd_path_in_zip: Seq<char>,
) -> Option<int>
    decreases saved.len(),
{
    if saved.len() == 0 {
        None
    } else {
        match saved_entry_index(saved.drop_last(), zip_path, psd_path_in_zip) {
            Some(i) => Some(i),
            None => if path_key(saved.last().zip_path@) == path_key(zip_path) && path_key(
                saved.last().psd_path_in_zip@,
            ) == path_key(psd_path_in_zip) {
                Some(saved.len() - 1)
            } else {
                None
            },
        }
    }
}

/// The saved layout comes only from a saved entry for the same zip and the
/// same PSD (both compared by components): the first such entry when there
/// is one, and none when no saved entry has both.
pub proof fn lemma_saved_layout_is_for_same_psd(
    saved: Seq<EnsembleEntry>,
    zip_path: Seq<char>,
    psd_path_in_zip: Seq<char>,
)
    ensures
        match saved_entry_index(saved, zip_path, psd_path_in_zip) {
            Some(i) => 0 <= i < saved.len() && path_key(saved[i].zip_path@) == path_key(zip_path)
                && path_key(saved[i].psd_path_in_zip@) == path_key(psd_path_in_zip) && forall|j: int|
                0 <= j < i ==> !(path_key((#[trigger] saved[j]).zip_path@) == path_key(zip_path)
                && path_key(saved[j].psd_path_in_zip@) == path_key(psd_path_in_zip)),
            None => forall|j: int|
                0 <= j < saved.len() ==> !(path_key((#[trigger] saved[j]).zip_path@) == path_key(
                    zip_path,
                ) && path_key(saved[j].psd_path_in_zip@) == path_key(psd_path_in_zip)),
        },
    decreases saved.len(),
{
    if saved.len() > 0 {
        let init = saved.drop_last();
        lemma_saved_layout_is_for_same_psd(init, zip_path, psd_path_in_zip);
        assert forall|j: int| 0 <= j < init.len() implies saved[j] == init[j] by {}
    }
}

/// The entry of the named-character ensemble for a resolved character: its
/// name, zip, PSD and PSD file name, with the layer overrides, scale and
/// position of the saved entry for the same zip and PSD when there is one.
pub fn vpt_entry_from_resolved(resolved: &ResolvedCharacterSkin, saved_entries: &Vec<EnsembleEntry>) -> (e:
    EnsembleEntry)
    ensures
        e.character_name matches Some(n) && n@ == resolved.character_name@,
        e.zip_path@ == resolved.zip_path@,
        e.psd_path_in_zip@ == resolved.psd_path_in_zip@,
        e.psd_file_name@ == file_name_or_path(resolved.psd_path_in_zip@),
        match saved_entry_index(saved_entries@, resolved.zip_path@, resolved.psd_path_in_zip@) {
            Some(i) => e.visibility_overrides@ == saved_entries@[i].visibility_overrides@
                && e.mascot_scale_bits == saved_entries@[i].mascot_scale_bits && e.position_bits
                == saved_entries@[i].position_bits,
            None => e.visibility_overrides@.len() == 0 && e.mascot_scale_bits is None
                && e.position_bits is None,
        },
{
    let mut found: Option<usize> = None;
    let mut k: usize = 0;
    assert(saved_entries@.take(0) =~= Seq::<EnsembleEntry>::empty());
    while k < saved_entries.len()
        invariant
            k <= saved_entries.len(),
            found is None ==> saved_entry_index(
                saved_entries@.take(k as int),
                resolved.zip_path@,
                resolved.psd_path_in_zip@,
            ) is None,
            found matches Some(f) ==> f < k && saved_entry_index(
                saved_entries@,
                resolved.zip_path@,
                resolved.psd_path_in_zip@,
            ) == Some(f as int),
        decreases saved_entries.len() - k,
    {
        assert(saved_entries@.take(k + 1).drop_last() =~= saved_entries@.take(k as int));
        if found.is_none() && same_path(saved_entries[k].zip_path.as_str(), resolved.zip_path.as_str())
            && same_path(
            saved_entries[k].psd_path_in_zip.as_str(),
            resolved.psd_path_in_zip.as_str(),
        ) {
            proof {
                lemma_saved_index_prefix(
                    saved_entries@,
                    k as int + 1,
                    resolved.zip_path@,
                    resolved.psd_path_in_zip@,
                );
            }
            found = Some(k);
        }
        k = k + 1;
    }
    assert(saved_entries@.take(saved_entries.len() as int) =~= saved_entries@);
    let name = Some(resolved.character_name.clone());
    let zip_path = resolved.zip_path.clone();
    let psd_path = resolved.psd_path_in_zip.clone();
    proof {
        reveal_strlit("");
    }
    let file = psd_file_name("", resolved.psd_path_in_zip.as_str());
    match found {
        Some(f) => EnsembleEntry {
            character_name: name,
            zip_path,
            psd_path_in_zip: psd_path,
            psd_file_name: file,
            visibility_overrides: copy_overrides(&saved_entries[f].visibility_overrides),
            mascot_scale_bits: saved_entries[f].mascot_scale_bits,
            position_bits: saved_entries[f].position_bits,
        },
        None => EnsembleEntry {
            character_name: name,
            zip_path,
            psd_path_in_zip: psd_path,
            psd_file_name: file,
            visibility_overrides: Vec::new(),
            mascot_scale_bits: None,
            position_bits: None,
        },
    }
}

/// Once an entry for the zip and PSD lies in the first `n` saved entries,
/// the first such entry is found there.
proof fn lemma_saved_index_prefix(
    saved: Seq<EnsembleEntry>,
    n: int,
    zip_path: Seq<char>,
    psd_path_in_zip: Seq<char>,
)
    requires
        0 <= n <= saved.len(),
        saved_entry_index(saved.take(n), zip_path, psd_path_in_zip) is Some,
    ensures
        saved_entry_index(saved, zip_path, psd_path_in_zip) == saved_entry_index(
            saved.take(n),
            zip_path,
            psd_path_in_zip,
        ),
    decreases saved.len() - n,
{
    if n < saved.len() {
        assert(saved.take(n + 1).drop_last() =~= saved.take(n));
        lemma_saved_index_prefix(saved, n + 1, zip_path, psd_path_in_zip);
    } else {
        assert(saved.take(n) =~= saved);
    }
}

/// The file name of a PSD path, which mouth-flap skins are named after;
/// a path that names no file is refused with the error text.
pub fn required_psd_file_name(psd_path_in_zip: &str) -> (r: Result<String, String>)
    ensures
        match file_name_of(psd_path_in_zip@) {
            Some(n) => r matches Ok(s) && s@ == n,
            None => r matches Err(e) && e@ == "invalid PSD file name in '"@ + psd_path_in_zip@
                + "'"@,
        },
{
    match file_name(psd_path_in_zip) {
        Some(n) => Ok(n),
        None => {
            let mut e = String::from_str("invalid PSD file name in '");
            e.append(psd_path_in_zip);
            e.append("'");
            Err(e)
        },
    }
}

} // verus!
