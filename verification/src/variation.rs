//! Where rendered PSD variations are cached: file names, hashes and paths.
use vstd::prelude::*;

use sha2::{Digest, Sha256};

use crate::path_text::{join, join_path, with_extension, with_extension_path};
use crate::text::{chars_of, string_of_chars};
use vstd::string::StringSliceAdditionalSpecFns;

verus! {

/// The SHA-256 digest of a byte string; the algorithm is named, not written
/// out.
pub uninterp spec fn sha256_of(data: Seq<u8>) -> Seq<u8>;

/// `sha2::Sha256::digest`: the SHA-256 digest of `data`. Stated: the result is
/// the digest of exactly these bytes, and it is 32 bytes long (the output size
/// of `Sha256`).
#[verifier::external_body]
fn sha256_digest(data: &[u8]) -> (r: Vec<u8>)
    ensures
        r@ == sha256_of(data@),
        r@.len() == 32,
{
    Sha256::digest(data).to_vec()
}

/// The lowercase hexadecimal digit for a value below 16.
pub open spec fn hex_digit(d: nat) -> char {
    if d < 10 {
        crate::text::digit_char(d)
    } else if d == 10 {
        'a'
    } else if d == 11 {
        'b'
    } else if d == 12 {
        'c'
    } else if d == 13 {
        'd'
    } else if d == 14 {
        'e'
    } else {
        'f'
    }
}

/// Each byte as two lowercase hexadecimal digits, high nibble first.
pub open spec fn hex_text(bytes: Seq<u8>) -> Seq<char>
    decreases bytes.len(),
{
    if bytes.len() == 0 {
        Seq::empty()
    } else {
        hex_text(bytes.drop_last()) + seq![
            hex_digit((bytes.last() / 16) as nat),
            hex_digit((bytes.last() % 16) as nat),
        ]
    }
}

fn hex_digit_char(d: u8) -> (c: char)
    requires
        d < 16,
    ensures
        c == hex_digit(d as nat),
{
    if d < 10 {
        if d == 0 {
            '0'
        } else if d == 1 {
            '1'
        } else if d == 2 {
            '2'
        } else if d == 3 {
            '3'
        } else if d == 4 {
            '4'
        } else if d == 5 {
            '5'
        } else if d == 6 {
            '6'
        } else if d == 7 {
            '7'
        } else if d == 8 {
            '8'
        } else {
            '9'
        }
    } else if d == 10 {
        'a'
    } else if d == 11 {
        'b'
    } else if d == 12 {
        'c'
    } else if d == 13 {
        'd'
    } else if d == 14 {
        'e'
    } else {
        'f'
    }
}

/// The first `n` bytes of `bytes` in lowercase hexadecimal.
pub fn hex_prefix(bytes: &Vec<u8>, n: usize) -> (s: String)
    requires
        n <= bytes.len(),
    ensures
        s@ == hex_text(bytes@.take(n as int)),
{
    let mut s = String::new();
    let mut i: usize = 0;
    while i < n
        invariant
            n <= bytes.len(),
            i <= n,
            s@ == hex_text(bytes@.take(i as int)),
        decreases n - i,
    {
        let b = bytes[i];
        s.push(hex_digit_char(b / 16));
        s.push(hex_digit_char(b % 16));
        assert(bytes@.take(i + 1).drop_last() =~= bytes@.take(i as int));
        i = i + 1;
    }
    s
}

/// The short hash of a byte string: the first eight bytes of its SHA-256
/// digest in lowercase hexadecimal.
pub open spec fn short_hash(data: Seq<u8>) -> Seq<char> {
    hex_text(sha256_of(data).take(8))
}

/// The short hash of the serialized (JSON) form of a variation.
pub fn variation_hash(variation_json: &[u8]) -> (s: String)
    ensures
        s@ == short_hash(variation_json@),
{
    let digest = sha256_digest(variation_json);
    hex_prefix(&digest, 8)
}

/// The short hash of a PSD path, taken over its UTF-8 bytes.
pub fn hash_psd_path(psd_path_in_zip: &str) -> (s: String)
    ensures
        s@ == short_hash(psd_path_in_zip.spec_bytes()),
{
    let digest = sha256_digest(psd_path_in_zip.as_bytes());
    hex_prefix(&digest, 8)
}

/// Characters that cannot stand in a file name on common systems.
pub open spec fn is_reserved_file_char(c: char) -> bool {
    c == '<' || c == '>' || c == ':' || c == '"' || c == '/' || c == '\\' || c == '|' || c == '?'
        || c == '*'
}

/// Characters trimmed from both ends of a sanitized file name.
pub open spec fn is_trimmed_file_char(c: char) -> bool {
    c == ' ' || c == '.'
}

/// `s` without its leading spaces and dots.
pub open spec fn trim_start_file(s: Seq<char>) -> Seq<char>
    decreases s.len(),
{
    if s.len() > 0 && is_trimmed_file_char(s[0]) {
        trim_start_file(s.skip(1))
    } else {
        s
    }
}

/// `s` without its trailing spaces and dots.
pub open spec fn trim_end_file(s: Seq<char>) -> Seq<char>
    decreases s.len(),
{
    if s.len() > 0 && is_trimmed_file_char(s.last()) {
        trim_end_file(s.drop_last())
    } else {
        s
    }
}

/// A file name made safe: reserved characters become `_`, spaces and dots
/// are trimmed from both ends, and an empty result becomes `variation`.
pub open spec fn sanitized_file_name(name: Seq<char>) -> Seq<char> {
    let replaced = name.map_values(|c: char| if is_reserved_file_char(c) { '_' } else { c });
    let trimmed = trim_end_file(trim_start_file(replaced));
    if trimmed.len() == 0 {
        "variation"@
    } else {
        trimmed
    }
}

fn is_reserved(c: char) -> (b: bool)
    ensures
        b == is_reserved_file_char(c),
{
    c == '<' || c == '>' || c == ':' || c == '"' || c == '/' || c == '\\' || c == '|' || c == '?'
        || c == '*'
}

/// Makes a file name safe, as `sanitized_file_name` says.
pub fn sanitize_file_name(file_name: &str) -> (s: String)
    ensures
        s@ == sanitized_file_name(file_name@),
{
    let v = chars_of(file_name);
    let ghost replaced = v@.map_values(|c: char| if is_reserved_file_char(c) { '_' } else { c });
    let mut r: Vec<char> = Vec::new();
    let mut i: usize = 0;
    while i < v.len()
        invariant
            i <= v.len(),
            replaced == v@.map_values(|c: char| if is_reserved_file_char(c) { '_' } else { c }),
            r@ == replaced.take(i as int),
        decreases v.len() - i,
    {
        let c = v[i];
        r.push(if is_reserved(c) { '_' } else { c });
        assert(replaced.take(i + 1) =~= replaced.take(i as int).push(replaced[i as int]));
        i = i + 1;
    }
    assert(r@ =~= replaced);
    let mut lo: usize = 0;
    while lo < r.len() && (r[lo] == ' ' || r[lo] == '.')
        invariant
            lo <= r.len(),
            trim_start_file(replaced) == trim_start_file(r@.skip(lo as int)),
            r@ == replaced,
        decreases r.len() - lo,
    {
        assert(r@.skip(lo as int).skip(1) =~= r@.skip(lo + 1));
        lo = lo + 1;
    }
    let mut hi: usize = r.len();
    assert(r@.subrange(lo as int, hi as int) =~= r@.skip(lo as int));
    while hi > lo && (r[hi - 1] == ' ' || r[hi - 1] == '.')
        invariant
            lo <= hi <= r.len(),
            trim_end_file(trim_start_file(replaced)) == trim_end_file(
                r@.subrange(lo as int, hi as int),
            ),
        decreases hi,
    {
        assert(r@.subrange(lo as int, hi as int).drop_last() =~= r@.subrange(lo as int, hi - 1));
        hi = hi - 1;
    }
    proof {
        let t = r@.subrange(lo as int, hi as int);
        if lo < hi {
            assert(t[0] == r@[lo as int]);
            assert(t.last() == r@[hi - 1]);
            assert(trim_start_file(t) == t);
        } else {
            assert(t.len() == 0);
        }
    }
    if hi == lo {
        return String::from_str("variation");
    }
    let mut out: Vec<char> = Vec::new();
    let mut k: usize = lo;
    while k < hi
        invariant
            lo <= k <= hi <= r.len(),
            out@ == r@.subrange(lo as int, k as int),
        decreases hi - k,
    {
        out.push(r[k]);
        assert(r@.subrange(lo as int, k + 1) =~= r@.subrange(lo as int, k as int).push(
            r@[k as int],
        ));
        k = k + 1;
    }
    string_of_chars(&out)
}

proof fn lemma_trim_start_file(s: Seq<char>)
    ensures
        trim_start_file(s).len() <= s.len(),
        trim_start_file(s) == s.skip(s.len() - trim_start_file(s).len()),
        trim_start_file(s).len() > 0 ==> !is_trimmed_file_char(trim_start_file(s)[0]),
    decreases s.len(),
{
    if s.len() > 0 && is_trimmed_file_char(s[0]) {
        lemma_trim_start_file(s.skip(1));
        let t = trim_start_file(s.skip(1));
        assert(s.skip(1).skip(s.skip(1).len() - t.len()) =~= s.skip(s.len() - t.len()));
    } else {
        assert(s.skip(0) =~= s);
    }
}

proof fn lemma_trim_end_file(s: Seq<char>)
    ensures
        trim_end_file(s).len() <= s.len(),
        trim_end_file(s) == s.take(trim_end_file(s).len() as int),
        trim_end_file(s).len() > 0 ==> !is_trimmed_file_char(trim_end_file(s).last()),
    decreases s.len(),
{
    if s.len() > 0 && is_trimmed_file_char(s.last()) {
        lemma_trim_end_file(s.drop_last());
        let t = trim_end_file(s.drop_last());
        assert(s.drop_last().take(t.len() as int) =~= s.take(t.len() as int));
    } else {
        assert(s.take(s.len() as int) =~= s);
    }
}

/// A sanitized file name is never empty, holds no reserved character,
/// neither starts nor ends with a space or a dot, and sanitizing it again
/// changes nothing.
pub proof fn lemma_sanitized_file_name_is_clean(name: Seq<char>)
    ensures
        sanitized_file_name(name).len() > 0,
        forall|i: int|
            0 <= i < sanitized_file_name(name).len() ==> !is_reserved_file_char(
                #[trigger] sanitized_file_name(name)[i],
            ),
        !is_trimmed_file_char(sanitized_file_name(name)[0]),
        !is_trimmed_file_char(sanitized_file_name(name).last()),
        sanitized_file_name(sanitized_file_name(name)) == sanitized_file_name(name),
{
    reveal_strlit("variation");
    let replaced = name.map_values(|c: char| if is_reserved_file_char(c) { '_' } else { c });
    let front = trim_start_file(replaced);
    let trimmed = trim_end_file(front);
    lemma_trim_start_file(replaced);
    lemma_trim_end_file(front);
    let r = sanitized_file_name(name);
    if trimmed.len() > 0 {
        let off = replaced.len() - front.len();
        assert forall|i: int| 0 <= i < r.len() implies !is_reserved_file_char(#[trigger] r[i]) by {
            assert(r[i] == front[i]);
            assert(front[i] == replaced[i + off]);
        }
        assert(r[0] == front[0]);
    } else {
        assert(r =~= seq!['v', 'a', 'r', 'i', 'a', 't', 'i', 'o', 'n']);
    }
    let again = r.map_values(|c: char| if is_reserved_file_char(c) { '_' } else { c });
    assert(again =~= r);
    assert(trim_start_file(r) == r);
    assert(trim_end_file(r) == r);
}

/// `name` with every trailing `.psd` removed.
pub open spec fn strip_psd_suffixes(name: Seq<char>) -> Seq<char>
    decreases name.len(),
{
    if name.len() >= 4 && name.skip(name.len() - 4) == ".psd"@ {
        strip_psd_suffixes(name.take(name.len() - 4))
    } else {
        name
    }
}

/// Removes every trailing `.psd` from `name`.
pub fn trim_psd_suffixes(name: &str) -> (s: String)
    ensures
        s@ == strip_psd_suffixes(name@),
{
    let v = chars_of(name);
    let mut end: usize = v.len();
    proof {
        reveal_strlit(".psd");
        assert(v@.take(v.len() as int) =~= v@);
    }
    while end >= 4 && v[end - 4] == '.' && v[end - 3] == 'p' && v[end - 2] == 's' && v[end - 1]
        == 'd'
        invariant
            end <= v.len(),
            strip_psd_suffixes(v@) == strip_psd_suffixes(v@.take(end as int)),
        decreases end,
    {
        proof {
            reveal_strlit(".psd");
            let t = v@.take(end as int);
            assert(t.skip(t.len() - 4) =~= ".psd"@);
            assert(t.take(t.len() - 4) =~= v@.take(end - 4));
        }
        end = end - 4;
    }
    proof {
        reveal_strlit(".psd");
        let t = v@.take(end as int);
        if t.len() >= 4 && t.skip(t.len() - 4) == ".psd"@ {
            assert(t.skip(t.len() - 4)[0] == '.');
            assert(t.skip(t.len() - 4)[1] == 'p');
            assert(t.skip(t.len() - 4)[2] == 's');
            assert(t.skip(t.len() - 4)[3] == 'd');
        }
    }
    let mut out: Vec<char> = Vec::new();
    let mut k: usize = 0;
    while k < end
        invariant
            k <= end <= v.len(),
            out@ == v@.take(k as int),
        decreases end - k,
    {
        out.push(v[k]);
        assert(v@.take(k + 1) =~= v@.take(k as int).push(v@[k as int]));
        k = k + 1;
    }
    string_of_chars(&out)
}

/// The directory the variations of one PSD are cached in:
/// `<zip cache>/variations/<safe file name>__<psd hash>`.
pub open spec fn variation_dir_path(
    zip_cache_dir: Seq<char>,
    psd_path_in_zip_bytes: Seq<u8>,
    file_name: Seq<char>,
) -> Seq<char> {
    join_path(
        join_path(zip_cache_dir, "variations"@),
        sanitized_file_name(strip_psd_suffixes(file_name)) + "__"@ + short_hash(psd_path_in_zip_bytes),
    )
}

/// The directory the variations of one PSD are cached in.
pub fn variation_dir(zip_cache_dir: &str, psd_path_in_zip: &str, file_name: &str) -> (p: String)
    ensures
        p@ == variation_dir_path(zip_cache_dir@, psd_path_in_zip.spec_bytes(), file_name@),
{
    let psd_hash = hash_psd_path(psd_path_in_zip);
    let trimmed = trim_psd_suffixes(file_name);
    let mut base_name = sanitize_file_name(trimmed.as_str());
    base_name.append("__");
    base_name.append(psd_hash.as_str());
    let variations = join(zip_cache_dir, "variations");
    join(variations.as_str(), base_name.as_str())
}

/// The cached PNG of a variation: `<variation dir>/<variation hash>.png`.
pub open spec fn variation_png_file(
    zip_cache_dir: Seq<char>,
    psd_path_in_zip_bytes: Seq<u8>,
    file_name: Seq<char>,
    variation_json: Seq<u8>,
) -> Seq<char> {
    join_path(
        variation_dir_path(zip_cache_dir, psd_path_in_zip_bytes, file_name),
        short_hash(variation_json) + ".png"@,
    )
}

/// The cached PNG of a variation, given the variation's serialized (JSON)
/// form.
pub fn variation_png_path(
    zip_cache_dir: &str,
    psd_path_in_zip: &str,
    file_name: &str,
    variation_json: &[u8],
) -> (p: String)
    ensures
        p@ == variation_png_file(
            zip_cache_dir@,
            psd_path_in_zip.spec_bytes(),
            file_name@,
            variation_json@,
        ),
{
    let mut png_name = variation_hash(variation_json);
    png_name.append(".png");
    let dir = variation_dir(zip_cache_dir, psd_path_in_zip, file_name);
    join(dir.as_str(), png_name.as_str())
}

/// The variation spec saved beside a cached PNG (`.json` in place of its
/// extension).
pub fn variation_spec_path(png_path: &str) -> (p: String)
    ensures
        p@ == with_extension_path(png_path@, "json"@),
{
    with_extension(png_path, "json")
}

/// The render metadata saved beside a cached PNG (`.render.json` in place of
/// its extension).
pub fn variation_render_meta_path(png_path: &str) -> (p: String)
    ensures
        p@ == with_extension_path(png_path@, "render.json"@),
{
    with_extension(png_path, "render.json")
}

/// The format version of saved variation specs.
pub const SAVED_VARIATION_VERSION: u32 = 1;

/// Whether a saved variation spec may be used for a PSD: it has the current
/// format version and was saved for the same zip and PSD path.
pub open spec fn saved_variation_usable(
    version: u32,
    saved_zip_path: Seq<char>,
    saved_psd_path_in_zip: Seq<char>,
    zip_path: Seq<char>,
    psd_path_in_zip: Seq<char>,
) -> bool {
    version == SAVED_VARIATION_VERSION && saved_zip_path == zip_path && saved_psd_path_in_zip
        == psd_path_in_zip
}

/// Decides whether a loaded variation spec belongs to the given PSD.
pub fn saved_variation_matches(
    version: u32,
    saved_zip_path: &String,
    saved_psd_path_in_zip: &String,
    zip_path: &String,
    psd_path_in_zip: &String,
) -> (b: bool)
    ensures
        b == saved_variation_usable(
            version,
            saved_zip_path@,
            saved_psd_path_in_zip@,
            zip_path@,
            psd_path_in_zip@,
        ),
{
    if version != SAVED_VARIATION_VERSION {
        return false;
    }
    *saved_zip_path == *zip_path && *saved_psd_path_in_zip == *psd_path_in_zip
}

} // verus!
