//! Resolving a character name to one of the cached PSD skins, and guessing
//! the configured character from the paths of the current skin.
use vstd::prelude::*;

use crate::favorite_shuffle::{rng_output, seed_state, xorshift};
use crate::path_text::{file_name, file_name_of, strip_path_prefix, strip_prefix};
use crate::text::{chars_of, decimal_text, push_decimal, string_of_chars, trim, trim_ws};

verus! {

/// Whether `needle` occurs in `hay` as a contiguous run.
pub open spec fn contains_text(hay: Seq<char>, needle: Seq<char>) -> bool {
    exists|i: int| 0 <= i <= hay.len() - needle.len() && #[trigger] hay.subrange(i, i + needle.len()) == needle
}

fn matches_at(hay: &Vec<char>, needle: &Vec<char>, i: usize) -> (b: bool)
    requires
        i + needle.len() <= hay.len(),
    ensures
        b == (hay@.subrange(i as int, i + needle.len()) == needle@),
{
    let mut k: usize = 0;
    while k < needle.len()
        invariant
            i + needle.len() <= hay.len(),
            k <= needle.len(),
            forall|j: int| 0 <= j < k ==> hay@[i + j] == needle@[j],
        decreases needle.len() - k,
    {
        if hay[i + k] != needle[k] {
            assert(hay@.subrange(i as int, i + needle.len())[k as int] != needle@[k as int]);
            return false;
        }
        k = k + 1;
    }
    assert(hay@.subrange(i as int, i + needle.len()) =~= needle@);
    true
}

/// Whether `needle` occurs in `hay`, as `str::contains` says.
pub fn contains(hay: &str, needle: &str) -> (b: bool)
    ensures
        b == contains_text(hay@, needle@),
{
    let h = chars_of(hay);
    let n = chars_of(needle);
    if n.len() > h.len() {
        return false;
    }
    let last = h.len() - n.len();
    let mut i: usize = 0;
    loop
        invariant
            n.len() <= h.len(),
            last == h.len() - n.len(),
            h@ == hay@,
            n@ == needle@,
            i <= last,
            forall|j: int| 0 <= j < i ==> #[trigger] hay@.subrange(j, j + needle@.len()) != needle@,
        decreases last - i,
    {
        if matches_at(&h, &n, i) {
            return true;
        }
        if i == last {
            return false;
        }
        i = i + 1;
    }
}

/// A PSD file found in an extracted zip.
#[derive(Debug, Clone)]
pub struct PsdEntry {
    pub path: String,
    pub rendered_png_path: Option<String>,
}

/// A cached zip: where it is, where it was extracted, and its PSDs.
#[derive(Debug, Clone)]
pub struct ZipEntry {
    pub zip_path: String,
    pub extracted_dir: String,
    pub psds: Vec<PsdEntry>,
}

/// A skin that may stand for a character.
#[derive(Debug, Clone)]
pub struct CharacterSkinCandidate {
    pub zip_path: String,
    pub psd_path_in_zip: String,
    pub png_path: String,
}

/// The skin chosen for a character.
#[derive(Debug, Clone)]
pub struct ResolvedCharacterSkin {
    pub character_name: String,
    pub zip_path: String,
    pub psd_path_in_zip: String,
    pub png_path: String,
    pub display_diff_path: Option<String>,
    pub candidate_count: usize,
}

/// Why a character could not be resolved.
#[derive(Debug, Clone)]
pub enum CharacterError {
    /// The name is empty or only whitespace.
    EmptyName,
    /// No cached skin matches the name.
    NoCandidates { character_name: String, cache_context: String, zip_entry_count: usize },
}

/// The text a character error is reported with.
pub open spec fn character_error_text(e: CharacterError) -> Seq<char> {
    match e {
        CharacterError::EmptyName => "character_name must not be empty"@,
        CharacterError::NoCandidates { character_name, cache_context, zip_entry_count } =>
            "no matching character skin candidates were found: requested_character="@
            + character_name@ + " candidate_count=0 cache_context="@ + cache_context@
            + " zip_entry_count="@ + decimal_text(zip_entry_count as nat),
    }
}

impl CharacterError {
    /// The text this error is reported with.
    pub fn message(&self) -> (s: String)
        ensures
            s@ == character_error_text(*self),
    {
        match self {
            CharacterError::EmptyName => String::from_str("character_name must not be empty"),
            CharacterError::NoCandidates { character_name, cache_context, zip_entry_count } => {
                let mut s = String::from_str(
                    "no matching character skin candidates were found: requested_character=",
                );
                s.append(character_name.as_str());
                s.append(" candidate_count=0 cache_context=");
                s.append(cache_context.as_str());
                s.append(" zip_entry_count=");
                push_decimal(&mut s, *zip_entry_count as u128);
                s
            },
        }
    }
}

/// The requested name trimmed, refused when nothing is left.
pub fn normalize_character_name(character_name: &str) -> (r: Result<String, CharacterError>)
    ensures
        match r {
            Ok(n) => n@ == trim_ws(character_name@) && n@.len() > 0,
            Err(e) => e is EmptyName && trim_ws(character_name@).len() == 0,
        },
{
    let trimmed = trim(character_name);
    if trimmed.as_str().is_empty() {
        return Err(CharacterError::EmptyName);
    }
    Ok(trimmed)
}

/// Whether a zip belongs to a character: its path (or its file name)
/// contains the name.
pub open spec fn zip_matches(zip_path: Seq<char>, character_name: Seq<char>) -> bool {
    contains_text(zip_path, character_name) || match file_name_of(zip_path) {
        Some(n) => contains_text(n, character_name),
        None => false,
    }
}

/// A zip matches a character exactly when the name occurs somewhere in the
/// zip's path: in particular whenever it occurs in a folder of the path, and
/// whenever it occurs in the zip's file name.
pub proof fn lemma_zip_matches_when_path_names_character(
    zip_path: Seq<char>,
    character_name: Seq<char>,
)
    ensures
        contains_text(zip_path, character_name) ==> zip_matches(zip_path, character_name),
        (file_name_of(zip_path) matches Some(n) && contains_text(n, character_name))
            ==> zip_matches(zip_path, character_name),
        zip_matches(zip_path, character_name) ==> contains_text(zip_path, character_name),
{
    if let Some(n) = file_name_of(zip_path) {
        if contains_text(n, character_name) {
            let start = crate::path_text::file_name_start(zip_path);
            crate::path_text::lemma_file_name_start_bounds(zip_path);
            let k = choose|k: int|
                0 <= k <= n.len() - character_name.len() && #[trigger] n.subrange(
                    k,
                    k + character_name.len(),
                ) == character_name;
            assert(n == zip_path.skip(start));
            assert(zip_path.subrange(start + k, start + k + character_name.len()) =~= n.subrange(
                k,
                k + character_name.len(),
            ));
        }
    }
}

/// Whether a zip belongs to a character, as `zip_matches` says.
pub fn zip_matches_character(zip_path: &str, character_name: &str) -> (b: bool)
    ensures
        b == zip_matches(zip_path@, character_name@),
{
    if contains(zip_path, character_name) {
        return true;
    }
    match file_name(zip_path) {
        Some(n) => contains(n.as_str(), character_name),
        None => false,
    }
}

/// The path of a PSD inside its zip: relative to the extraction directory
/// when it lies in it.
pub open spec fn psd_path_within(psd_path: Seq<char>, extracted_dir: Seq<char>) -> Seq<char> {
    match strip_path_prefix(psd_path, extracted_dir) {
        Some(r) => r,
        None => psd_path,
    }
}

/// The path of a PSD inside its zip, as `psd_path_within` says.
pub fn psd_path_in_zip(zip_entry: &ZipEntry, psd: &PsdEntry) -> (p: String)
    ensures
        p@ == psd_path_within(psd.path@, zip_entry.extracted_dir@),
{
    match strip_prefix(psd.path.as_str(), zip_entry.extracted_dir.as_str()) {
        Some(r) => r,
        None => psd.path.clone(),
    }
}

/// The candidate a PSD offers for a character: the zip must match the name,
/// the PSD's path inside the zip must contain it, and the PSD must have been
/// rendered.
pub open spec fn candidate_of(
    zip_path: Seq<char>,
    extracted_dir: Seq<char>,
    psd_path: Seq<char>,
    rendered: Option<Seq<char>>,
    character_name: Seq<char>,
) -> Option<(Seq<char>, Seq<char>, Seq<char>)> {
    let inner = psd_path_within(psd_path, extracted_dir);
    if !zip_matches(zip_path, character_name) || !contains_text(inner, character_name) {
        None
    } else {
        match rendered {
            Some(png) => Some((zip_path, inner, png)),
            None => None,
        }
    }
}

/// A PSD is a candidate for a character exactly when the name occurs in
/// the zip's path and in the PSD's path inside the zip, and the PSD was
/// rendered; the candidate is then that zip, that inner path and the
/// rendered PNG.
pub proof fn lemma_candidate_needs_name_in_zip_and_psd(
    zip_path: Seq<char>,
    extracted_dir: Seq<char>,
    psd_path: Seq<char>,
    rendered: Option<Seq<char>>,
    character_name: Seq<char>,
)
    ensures
        candidate_of(zip_path, extracted_dir, psd_path, rendered, character_name) is Some <==> (
        contains_text(zip_path, character_name) && contains_text(
            psd_path_within(psd_path, extracted_dir),
            character_name,
        ) && rendered is Some),
        candidate_of(zip_path, extracted_dir, psd_path, rendered, character_name) matches Some(c)
            ==> c == (zip_path, psd_path_within(psd_path, extracted_dir), rendered->0),
{
    lemma_zip_matches_when_path_names_character(zip_path, character_name);
}

/// The view of a candidate.
pub open spec fn candidate_view(c: CharacterSkinCandidate) -> (Seq<char>, Seq<char>, Seq<char>) {
    (c.zip_path@, c.psd_path_in_zip@, c.png_path@)
}

/// The view of an optional string.
pub open spec fn opt_text(o: Option<String>) -> Option<Seq<char>> {
    match o {
        Some(s) => Some(s@),
        None => None,
    }
}

/// The candidate a PSD offers for a character, as `candidate_of` says.
pub fn character_skin_candidate(zip_entry: &ZipEntry, psd: &PsdEntry, character_name: &str) -> (r:
    Option<CharacterSkinCandidate>)
    ensures
        match r {
            Some(c) => candidate_of(
                zip_entry.zip_path@,
                zip_entry.extracted_dir@,
                psd.path@,
                opt_text(psd.rendered_png_path),
                character_name@,
            ) == Some(candidate_view(c)),
            None => candidate_of(
                zip_entry.zip_path@,
                zip_entry.extracted_dir@,
                psd.path@,
                opt_text(psd.rendered_png_path),
                character_name@,
            ) is None,
        },
{
    if !zip_matches_character(zip_entry.zip_path.as_str(), character_name) {
        return None;
    }
    let inner = psd_path_in_zip(zip_entry, psd);
    if !contains(inner.as_str(), character_name) {
        return None;
    }
    match &psd.rendered_png_path {
        Some(png) => Some(
            CharacterSkinCandidate {
                zip_path: zip_entry.zip_path.clone(),
                psd_path_in_zip: inner,
                png_path: png.clone(),
            },
        ),
        None => None,
    }
}

/// The candidates of one zip, in PSD order.
pub open spec fn zip_candidates(
    zip_path: Seq<char>,
    extracted_dir: Seq<char>,
    psds: Seq<PsdEntry>,
    character_name: Seq<char>,
) -> Seq<(Seq<char>, Seq<char>, Seq<char>)>
    decreases psds.len(),
{
    if psds.len() == 0 {
        Seq::empty()
    } else {
        let prev = zip_candidates(zip_path, extracted_dir, psds.drop_last(), character_name);
        match candidate_of(
            zip_path,
            extracted_dir,
            psds.last().path@,
            opt_text(psds.last().rendered_png_path),
            character_name,
        ) {
            Some(c) => prev.push(c),
            None => prev,
        }
    }
}

/// The candidates of all zips, zip by zip, each in PSD order.
pub open spec fn all_candidates(zips: Seq<ZipEntry>, character_name: Seq<char>) -> Seq<
    (Seq<char>, Seq<char>, Seq<char>),
>
    decreases zips.len(),
{
    if zips.len() == 0 {
        Seq::empty()
    } else {
        all_candidates(zips.drop_last(), character_name) + zip_candidates(
            zips.last().zip_path@,
            zips.last().extracted_dir@,
            zips.last().psds@,
            character_name,
        )
    }
}

/// Every cached skin that may stand for the character, as `all_candidates`
/// says.
pub fn character_skin_candidates(zip_entries: &Vec<ZipEntry>, character_name: &str) -> (r: Vec<
    CharacterSkinCandidate,
>)
    ensures
        r@.map_values(|c: CharacterSkinCandidate| candidate_view(c)) == all_candidates(
            zip_entries@,
            character_name@,
        ),
{
    let mut out: Vec<CharacterSkinCandidate> = Vec::new();
    let mut z: usize = 0;
    while z < zip_entries.len()
        invariant
            z <= zip_entries.len(),
            out@.map_values(|c: CharacterSkinCandidate| candidate_view(c)) == all_candidates(
                zip_entries@.take(z as int),
                character_name@,
            ),
        decreases zip_entries.len() - z,
    {
        let zip = &zip_entries[z];
        let ghost before = out@.map_values(|c: CharacterSkinCandidate| candidate_view(c));
        let mut p: usize = 0;
        while p < zip.psds.len()
            invariant
                p <= zip.psds.len(),
                out@.map_values(|c: CharacterSkinCandidate| candidate_view(c)) == before
                    + zip_candidates(
                    zip.zip_path@,
                    zip.extracted_dir@,
                    zip.psds@.take(p as int),
                    character_name@,
                ),
            decreases zip.psds.len() - p,
        {
            assert(zip.psds@.take(p + 1).drop_last() =~= zip.psds@.take(p as int));
            assert(zip.psds@.take(p + 1).last() == zip.psds@[p as int]);
            match character_skin_candidate(zip, &zip.psds[p], character_name) {
                Some(c) => {
                    out.push(c);
                    assert(out@.map_values(|c: CharacterSkinCandidate| candidate_view(c)) =~= (
                    before + zip_candidates(
                        zip.zip_path@,
                        zip.extracted_dir@,
                        zip.psds@.take(p as int),
                        character_name@,
                    )).push(candidate_view(c)));
                },
                None => {},
            }
            p = p + 1;
        }
        assert(zip.psds@.take(zip.psds.len() as int) =~= zip.psds@);
        assert(zip_entries@.take(z + 1).drop_last() =~= zip_entries@.take(z as int));
        assert(zip_entries@.take(z + 1).last() == zip_entries@[z as int]);
        z = z + 1;
    }
    assert(zip_entries@.take(zip_entries.len() as int) =~= zip_entries@);
    out
}

/// The position a seed picks among `count` candidates.
pub open spec fn candidate_index(count: nat, seed: u64) -> int {
    (rng_output(xorshift(seed_state(seed))) as usize) as int % (count as int)
}

/// The position a seed picks among `count` candidates (one xorshift step of
/// the seed, scrambled, modulo the count).
pub fn candidate_index_from_seed(candidate_count: usize, seed: u64) -> (i: usize)
    requires
        candidate_count > 0,
    ensures
        i as int == candidate_index(candidate_count as nat, seed),
        i < candidate_count,
{
    let mut value: u64 = if seed < 1 {
        1
    } else {
        seed
    };
    value ^= value >> 12u64;
    value ^= value << 25u64;
    value ^= value >> 27u64;
    let scrambled = value.wrapping_mul(2_685_821_657_736_338_717u64);
    (#[verifier::truncate] (scrambled as usize)) % candidate_count
}

/// A resolved skin as text: name, zip, PSD path, PNG, and how many
/// candidates there were (no display diff is chosen).
pub open spec fn resolution_of(
    character_name: Seq<char>,
    candidates: Seq<(Seq<char>, Seq<char>, Seq<char>)>,
    seed: u64,
) -> (Seq<char>, Seq<char>, Seq<char>, Seq<char>, nat) {
    let c = candidates[candidate_index(candidates.len(), seed)];
    (character_name, c.0, c.1, c.2, candidates.len())
}

/// The view of a resolved skin.
pub open spec fn resolved_view(r: ResolvedCharacterSkin) -> (
    Seq<char>,
    Seq<char>,
    Seq<char>,
    Seq<char>,
    nat,
) {
    (r.character_name@, r.zip_path@, r.psd_path_in_zip@, r.png_path@, r.candidate_count as nat)
}

/// Picks, with the seed, one of the cached skins matching the (already
/// normalized) character name; refused when none matches.
pub fn resolve_character_skin_from_entries(
    zip_entries: &Vec<ZipEntry>,
    character_name: &str,
    seed: u64,
    cache_context: &str,
) -> (r: Result<ResolvedCharacterSkin, CharacterError>)
    ensures
        all_candidates(zip_entries@, character_name@).len() == 0 <==> r is Err,
        match r {
            Ok(res) => resolved_view(res) == resolution_of(
                character_name@,
                all_candidates(zip_entries@, character_name@),
                seed,
            ) && res.display_diff_path is None,
            Err(e) => e matches CharacterError::NoCandidates {
                character_name: n,
                cache_context: c,
                zip_entry_count,
            } && n@ == character_name@ && c@ == cache_context@ && zip_entry_count
                == zip_entries@.len(),
        },
{
    let candidates = character_skin_candidates(zip_entries, character_name);
    let ghost cv = candidates@.map_values(|c: CharacterSkinCandidate| candidate_view(c));
    let count = candidates.len();
    if count == 0 {
        return Err(
            CharacterError::NoCandidates {
                character_name: String::from_str(character_name),
                cache_context: String::from_str(cache_context),
                zip_entry_count: zip_entries.len(),
            },
        );
    }
    let selected = candidate_index_from_seed(count, seed);
    let c = &candidates[selected];
    assert(cv[selected as int] == candidate_view(candidates@[selected as int]));
    Ok(
        ResolvedCharacterSkin {
            character_name: String::from_str(character_name),
            zip_path: c.zip_path.clone(),
            psd_path_in_zip: c.psd_path_in_zip.clone(),
            png_path: c.png_path.clone(),
            display_diff_path: None,
            candidate_count: count,
        },
    )
}

/// Resolves a requested character name: the name is trimmed (an empty name
/// is refused) and one matching cached skin is picked with the seed.
pub fn resolve_character_skin_with_seed(
    zip_entries: &Vec<ZipEntry>,
    character_name: &str,
    seed: u64,
    cache_context: &str,
) -> (r: Result<ResolvedCharacterSkin, CharacterError>)
    ensures
        trim_ws(character_name@).len() == 0 ==> r matches Err(CharacterError::EmptyName),
        trim_ws(character_name@).len() > 0 ==> (all_candidates(
            zip_entries@,
            trim_ws(character_name@),
        ).len() == 0 <==> r is Err),
        r matches Ok(res) ==> resolved_view(res) == resolution_of(
            trim_ws(character_name@),
            all_candidates(zip_entries@, trim_ws(character_name@)),
            seed,
        ) && res.display_diff_path is None,
        trim_ws(character_name@).len() > 0 && r is Err ==> (r matches Err(
            CharacterError::NoCandidates { character_name: n, cache_context: c, zip_entry_count },
        ) && n@ == trim_ws(character_name@) && c@ == cache_context@ && zip_entry_count
            == zip_entries@.len()),
{
    let name = normalize_character_name(character_name)?;
    resolve_character_skin_from_entries(zip_entries, name.as_str(), seed, cache_context)
}

/// The pieces of a path between separators, empty pieces included.
pub open spec fn path_segments(p: Seq<char>) -> Seq<Seq<char>>
    decreases p.len(),
{
    if p.len() == 0 {
        seq![Seq::empty()]
    } else {
        let prev = path_segments(p.drop_last());
        if crate::path_text::is_separator(p.last()) {
            prev.push(Seq::empty())
        } else {
            prev.update(prev.len() - 1, prev.last().push(p.last()))
        }
    }
}

proof fn lemma_path_segments_nonempty(p: Seq<char>)
    ensures
        path_segments(p).len() >= 1,
    decreases p.len(),
{
    if p.len() > 0 {
        lemma_path_segments_nonempty(p.drop_last());
    }
}

/// The non-empty pieces, in order.
pub open spec fn keep_nonempty(segs: Seq<Seq<char>>) -> Seq<Seq<char>>
    decreases segs.len(),
{
    if segs.len() == 0 {
        segs
    } else if segs.last().len() == 0 {
        keep_nonempty(segs.drop_last())
    } else {
        keep_nonempty(segs.drop_last()).push(segs.last())
    }
}

/// The components that the root of `p` makes: none for a relative path; the
/// separator for a path that starts with one; the drive (`C:`) and then the
/// separator for a drive root.
pub open spec fn root_components(p: Seq<char>) -> Seq<Seq<char>> {
    let n = crate::path_text::root_len(p);
    if n == 1 {
        seq![seq![p[0]]]
    } else if n == 3 {
        seq![p.take(2), seq![p[2]]]
    } else {
        Seq::empty()
    }
}

/// The components of a path: those of its root first, then the non-empty
/// pieces of the rest.
pub open spec fn path_components(p: Seq<char>) -> Seq<Seq<char>> {
    root_components(p) + keep_nonempty(path_segments(p.skip(crate::path_text::root_len(p))))
}

/// The components of a path, as `path_components` says.
pub fn components(path: &str) -> (r: Vec<String>)
    ensures
        r@.map_values(|s: String| s@) == path_components(path@),
{
    let whole = chars_of(path);
    let root = crate::path_text::root_length(&whole);
    let mut done: Vec<String> = Vec::new();
    if root == 1 {
        let mut sep = String::new();
        sep.push(whole[0]);
        assert(sep@ =~= seq![whole@[0]]);
        done.push(sep);
        assert(done@.map_values(|s: String| s@) =~= root_components(path@));
    } else if root == 3 {
        let mut drive = String::new();
        drive.push(whole[0]);
        drive.push(whole[1]);
        let mut sep = String::new();
        sep.push(whole[2]);
        assert(drive@ =~= whole@.take(2));
        assert(sep@ =~= seq![whole@[2]]);
        done.push(drive);
        done.push(sep);
        assert(done@.map_values(|s: String| s@) =~= root_components(path@));
    } else {
        assert(done@.map_values(|s: String| s@) =~= root_components(path@));
    }
    let ghost prefix = done@.map_values(|s: String| s@);
    let v = crate::path_text::chars_from(&whole, root);
    let mut cur: Vec<char> = Vec::new();
    let mut i: usize = 0;
    assert(v@.take(0) =~= Seq::<char>::empty());
    while i < v.len()
        invariant
            i <= v.len(),
            v@ == path@.skip(root as int),
            path_segments(v@.take(i as int)).len() >= 1,
            done@.map_values(|s: String| s@) == prefix + keep_nonempty(
                path_segments(v@.take(i as int)).drop_last(),
            ),
            cur@ == path_segments(v@.take(i as int)).last(),
        decreases v.len() - i,
    {
        let c = v[i];
        let ghost t = v@.take(i + 1);
        assert(t.drop_last() =~= v@.take(i as int));
        assert(t.last() == c);
        let ghost prev = path_segments(v@.take(i as int));
        proof {
            lemma_path_segments_nonempty(t);
        }
        if c == '/' || c == '\\' {
            assert(path_segments(t) == prev.push(Seq::empty()));
            assert(path_segments(t).drop_last() =~= prev);
            assert(prev =~= prev.drop_last().push(prev.last()));
            if cur.len() > 0 {
                let ghost old_done = done@.map_values(|s: String| s@);
                let seg = string_of_chars(&cur);
                done.push(seg);
                assert(done@.map_values(|s: String| s@) =~= old_done.push(cur@));
                assert(keep_nonempty(prev) == keep_nonempty(prev.drop_last()).push(prev.last()));
                assert(done@.map_values(|s: String| s@) =~= prefix + keep_nonempty(prev));
            } else {
                assert(done@.map_values(|s: String| s@) =~= prefix + keep_nonempty(prev));
            }
            cur = Vec::new();
            assert(cur@ =~= path_segments(t).last());
        } else {
            cur.push(c);
            assert(path_segments(t).drop_last() =~= prev.drop_last());
            assert(cur@ =~= path_segments(t).last());
        }
        i = i + 1;
    }
    assert(v@.take(v.len() as int) =~= v@);
    let ghost segs = path_segments(v@);
    assert(segs =~= segs.drop_last().push(segs.last()));
    if cur.len() > 0 {
        let ghost old_done = done@.map_values(|s: String| s@);
        let seg = string_of_chars(&cur);
        done.push(seg);
        assert(done@.map_values(|s: String| s@) =~= old_done.push(cur@));
        assert(keep_nonempty(segs) == keep_nonempty(segs.drop_last()).push(segs.last()));
    }
    assert(done@.map_values(|s: String| s@) =~= prefix + keep_nonempty(segs));
    done
}

/// A token without its extension: the part before the last `.`, or the
/// whole token when it has none.
pub open spec fn without_extension(t: Seq<char>) -> Seq<char> {
    match last_dot(t) {
        Some(d) => t.take(d),
        None => t,
    }
}

/// The position of the last `.` of a text.
pub open spec fn last_dot(t: Seq<char>) -> Option<int>
    decreases t.len(),
{
    if t.len() == 0 {
        None
    } else if t.last() == '.' {
        Some(t.len() - 1)
    } else {
        last_dot(t.drop_last())
    }
}

proof fn lemma_last_dot_bounds(t: Seq<char>)
    ensures
        last_dot(t) matches Some(d) ==> 0 <= d < t.len(),
    decreases t.len(),
{
    if t.len() > 0 && t.last() != '.' {
        lemma_last_dot_bounds(t.drop_last());
    }
}

/// Cuts the extension off a token, as `without_extension` says.
pub fn trim_extension(token: &str) -> (r: String)
    ensures
        r@ == without_extension(token@),
{
    let v = chars_of(token);
    let mut i: usize = v.len();
    assert(v@.take(v.len() as int) =~= v@);
    while i > 0 && v[i - 1] != '.'
        invariant
            i <= v.len(),
            last_dot(v@) == last_dot(v@.take(i as int)),
        decreases i,
    {
        assert(v@.take(i as int).drop_last() =~= v@.take(i - 1));
        i = i - 1;
    }
    if i == 0 {
        assert(v@.take(0) =~= Seq::<char>::empty());
        return string_of_chars(&v);
    }
    assert(v@.take(i as int).last() == '.');
    let mut out: Vec<char> = Vec::new();
    let mut k: usize = 0;
    while k < i - 1
        invariant
            0 < i <= v.len(),
            k <= i - 1,
            out@ == v@.take(k as int),
        decreases i - 1 - k,
    {
        out.push(v[k]);
        assert(v@.take(k + 1) =~= v@.take(k as int).push(v@[k as int]));
        k = k + 1;
    }
    string_of_chars(&out)
}

/// The search tokens of a path: each component trimmed, without its
/// extension, dropping tokens that end up empty.
pub open spec fn search_tokens(comps: Seq<Seq<char>>) -> Seq<Seq<char>>
    decreases comps.len(),
{
    if comps.len() == 0 {
        Seq::empty()
    } else {
        let prev = search_tokens(comps.drop_last());
        let t = trim_ws(comps.last());
        if t.len() > 0 && without_extension(t).len() > 0 {
            prev.push(without_extension(t))
        } else {
            prev
        }
    }
}

/// The search tokens of a path, as `search_tokens` says.
pub fn path_search_tokens(path: &str) -> (r: Vec<String>)
    ensures
        r@.map_values(|s: String| s@) == search_tokens(path_components(path@)),
{
    let comps = components(path);
    let ghost cv = comps@.map_values(|s: String| s@);
    let mut out: Vec<String> = Vec::new();
    let mut i: usize = 0;
    while i < comps.len()
        invariant
            i <= comps.len(),
            cv == comps@.map_values(|s: String| s@),
            out@.map_values(|s: String| s@) == search_tokens(cv.take(i as int)),
        decreases comps.len() - i,
    {
        assert(cv.take(i + 1).drop_last() =~= cv.take(i as int));
        assert(cv.take(i + 1).last() == comps@[i as int]@);
        let t = trim(comps[i].as_str());
        if !t.as_str().is_empty() {
            let token = trim_extension(t.as_str());
            if !token.as_str().is_empty() {
                out.push(token);
                assert(out@.map_values(|s: String| s@) =~= search_tokens(cv.take(i as int)).push(
                    without_extension(trim_ws(cv[i as int])),
                ));
            }
        }
        i = i + 1;
    }
    assert(cv.take(comps.len() as int) =~= cv);
    out
}

/// The text a zip path is searched in: the path, then a space and its file
/// name when it has one.
pub open spec fn searchable_text(path: Seq<char>) -> Seq<char> {
    match file_name_of(path) {
        Some(n) => path + seq![' '] + n,
        None => path,
    }
}

/// The searchable text of a path, as `searchable_text` says.
pub fn searchable_path_text(path: &str) -> (r: String)
    ensures
        r@ == searchable_text(path@),
{
    let mut text = String::from_str(path);
    match file_name(path) {
        Some(n) => {
            text.push(' ');
            text.append(n.as_str());
        },
        None => {},
    }
    text
}

/// Among the tokens found in `text`, the last longest one.
pub open spec fn last_longest_found(tokens: Seq<Seq<char>>, text: Seq<char>) -> Option<Seq<char>>
    decreases tokens.len(),
{
    if tokens.len() == 0 {
        None
    } else {
        let prev = last_longest_found(tokens.drop_last(), text);
        let t = tokens.last();
        if !contains_text(text, t) {
            prev
        } else {
            match prev {
                Some(p) => if t.len() >= p.len() {
                    Some(t)
                } else {
                    prev
                },
                None => Some(t),
            }
        }
    }
}

/// The character name shown in the status for the configured skin: the
/// longest token of the PSD path (the last one among equals) that the zip's
/// path or file name contains.
pub open spec fn status_character_name(zip_path: Seq<char>, psd_path_in_zip: Seq<char>) -> Option<
    Seq<char>,
> {
    last_longest_found(search_tokens(path_components(psd_path_in_zip)), searchable_text(zip_path))
}

/// The character name shown in the status, as `status_character_name` says.
pub fn configured_character_name_for_status(zip_path: &str, psd_path_in_zip: &str) -> (r: Option<
    String,
>)
    ensures
        opt_text(r) == status_character_name(zip_path@, psd_path_in_zip@),
{
    let zip_text = searchable_path_text(zip_path);
    let tokens = path_search_tokens(psd_path_in_zip);
    let ghost tv = tokens@.map_values(|s: String| s@);
    let mut best: Option<String> = None;
    let mut best_len: usize = 0;
    let mut i: usize = 0;
    while i < tokens.len()
        invariant
            i <= tokens.len(),
            tv == tokens@.map_values(|s: String| s@),
            opt_text(best) == last_longest_found(tv.take(i as int), zip_text@),
            best matches Some(b) ==> best_len == b@.len(),
        decreases tokens.len() - i,
    {
        assert(tv.take(i + 1).drop_last() =~= tv.take(i as int));
        assert(tv.take(i + 1).last() == tokens@[i as int]@);
        let t = &tokens[i];
        if contains(zip_text.as_str(), t.as_str()) {
            let len = t.as_str().unicode_len();
            let take = match &best {
                Some(_) => len >= best_len,
                None => true,
            };
            if take {
                best = Some(t.clone());
                best_len = len;
            }
        }
        i = i + 1;
    }
    assert(tv.take(tokens.len() as int) =~= tv);
    best
}

} // verus!
