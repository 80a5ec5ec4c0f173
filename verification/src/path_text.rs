//! Paths as text. The library sees a path as the characters of a normalized
//! path (no `.` components, no repeated or trailing separator, except a lone
//! root). Both `/` and `\` separate components, and a drive prefix such as
//! `C:\` starts an absolute path, as Windows reads paths; on a path that has
//! neither a backslash nor a drive prefix this is also how Unix reads it.
use vstd::prelude::*;

use crate::text::{chars_of, string_of_chars};

verus! {

/// A character that separates path components.
pub open spec fn is_separator(c: char) -> bool {
    c == '/' || c == '\\'
}

/// An ASCII letter, as a drive letter is.
pub open spec fn is_drive_letter(c: char) -> bool {
    ('a' <= c && c <= 'z') || ('A' <= c && c <= 'Z')
}

/// `p` starts with a drive letter, a colon and a separator (`C:\`).
pub open spec fn has_drive_root(p: Seq<char>) -> bool {
    p.len() >= 3 && is_drive_letter(p[0]) && p[1] == ':' && is_separator(p[2])
}

/// How many leading characters of `p` make up its root: a lone separator,
/// a drive root such as `C:\`, or nothing.
pub open spec fn root_len(p: Seq<char>) -> int {
    if p.len() > 0 && is_separator(p[0]) {
        1
    } else if has_drive_root(p) {
        3
    } else {
        0
    }
}

/// A path is absolute when it starts at a root.
pub open spec fn is_absolute_path(p: Seq<char>) -> bool {
    root_len(p) > 0
}

/// The length of the root of `v`, as `root_len` says.
pub fn root_length(v: &Vec<char>) -> (n: usize)
    ensures
        n as int == root_len(v@),
{
    if v.len() > 0 && (v[0] == '/' || v[0] == '\\') {
        1
    } else if v.len() >= 3 && (('a' <= v[0] && v[0] <= 'z') || ('A' <= v[0] && v[0] <= 'Z'))
        && v[1] == ':' && (v[2] == '/' || v[2] == '\\') {
        3
    } else {
        0
    }
}

/// `base` joined with `p`: an absolute `p` replaces `base`; otherwise a
/// `/` is put between them unless `base` is empty or already ends in a
/// separator.
pub open spec fn join_path(base: Seq<char>, p: Seq<char>) -> Seq<char> {
    if is_absolute_path(p) {
        p
    } else if base.len() == 0 || is_separator(base.last()) {
        base + p
    } else {
        base + seq!['/'] + p
    }
}

/// Joins `p` onto `base` as `join_path` says.
pub fn join(base: &str, p: &str) -> (r: String)
    ensures
        r@ == join_path(base@, p@),
{
    let bv = chars_of(base);
    let pv = chars_of(p);
    if root_length(&pv) > 0 {
        return string_of_chars(&pv);
    }
    let mut r = string_of_chars(&bv);
    if !(bv.len() == 0 || bv[bv.len() - 1] == '/' || bv[bv.len() - 1] == '\\') {
        r.push('/');
    }
    r.append(p);
    r
}

/// The index just past the last separator of `p`, or 0 when it has none:
/// where its final component starts.
pub open spec fn file_name_start(p: Seq<char>) -> int
    decreases p.len(),
{
    if p.len() == 0 {
        0
    } else if is_separator(p.last()) {
        p.len() as int
    } else {
        file_name_start(p.drop_last())
    }
}

/// The final component of `p` (empty when `p` ends in a separator).
pub open spec fn final_component(p: Seq<char>) -> Seq<char> {
    p.skip(file_name_start(p))
}

/// The position of the last `.` of `name` that is not its first character,
/// or `None`.
pub open spec fn extension_dot(name: Seq<char>) -> Option<int>
    decreases name.len(),
{
    if name.len() <= 1 {
        None
    } else if name.last() == '.' {
        Some(name.len() - 1)
    } else {
        extension_dot(name.drop_last())
    }
}

/// A final component that names no file: empty, `.` or `..`.
pub open spec fn names_no_file(name: Seq<char>) -> bool {
    name.len() == 0 || name == seq!['.'] || name == seq!['.', '.']
}

/// `p` with the extension of its final component replaced by `ext` (added
/// when it has none); `p` unchanged when its final component names no file.
/// The extension is what follows the last `.` that is not the first
/// character of the component.
pub open spec fn with_extension_path(p: Seq<char>, ext: Seq<char>) -> Seq<char> {
    let start = file_name_start(p);
    let name = p.skip(start);
    if names_no_file(name) {
        p
    } else {
        let stem_end = match extension_dot(name) {
            Some(d) => start + d,
            None => p.len() as int,
        };
        if ext.len() == 0 {
            p.take(stem_end)
        } else {
            p.take(stem_end) + seq!['.'] + ext
        }
    }
}

pub proof fn lemma_file_name_start_bounds(p: Seq<char>)
    ensures
        0 <= file_name_start(p) <= p.len(),
        forall|i: int| file_name_start(p) <= i < p.len() ==> !is_separator(p[i]),
        file_name_start(p) > 0 ==> is_separator(p[file_name_start(p) - 1]),
    decreases p.len(),
{
    if p.len() > 0 && !is_separator(p.last()) {
        let q = p.drop_last();
        lemma_file_name_start_bounds(q);
        assert forall|i: int| file_name_start(p) <= i < p.len() implies !is_separator(p[i]) by {
            if i < p.len() - 1 {
                assert(p[i] == q[i]);
            }
        }
        if file_name_start(p) > 0 {
            assert(p[file_name_start(p) - 1] == q[file_name_start(q) - 1]);
        }
    }
}

proof fn lemma_extension_dot_bounds(name: Seq<char>)
    ensures
        extension_dot(name) matches Some(d) ==> 0 < d < name.len() && name[d] == '.',
    decreases name.len(),
{
    if name.len() > 1 && name.last() != '.' {
        let q = name.drop_last();
        lemma_extension_dot_bounds(q);
        if let Some(d) = extension_dot(q) {
            assert(name[d] == q[d]);
        }
    }
}

/// Where the final component of `v` starts.
pub fn final_component_start(v: &Vec<char>) -> (s: usize)
    ensures
        s as int == file_name_start(v@),
        s <= v.len(),
{
    let mut i: usize = v.len();
    assert(v@.take(v.len() as int) =~= v@);
    while i > 0 && v[i - 1] != '/' && v[i - 1] != '\\'
        invariant
            i <= v.len(),
            file_name_start(v@) == file_name_start(v@.take(i as int)),
        decreases i,
    {
        assert(v@.take(i as int).drop_last() =~= v@.take(i - 1));
        i = i - 1;
    }
    proof {
        if i > 0 {
            assert(is_separator(v@.take(i as int).last()));
        } else {
            assert(v@.take(0) =~= Seq::<char>::empty());
        }
    }
    i
}

fn find_extension_dot(v: &Vec<char>, start: usize) -> (r: Option<usize>)
    requires
        start <= v.len(),
    ensures
        match extension_dot(v@.skip(start as int)) {
            Some(d) => r == Some((start as int + d) as usize),
            None => r is None,
        },
{
    let ghost name = v@.skip(start as int);
    let mut i: usize = v.len();
    assert(name =~= v@.subrange(start as int, v.len() as int));
    while i - start > 1 && v[i - 1] != '.'
        invariant
            i <= v.len(),
            start <= v.len(),
            name == v@.skip(start as int),
            i >= start,
            extension_dot(name) == extension_dot(v@.subrange(start as int, i as int)),
        decreases i,
    {
        assert(v@.subrange(start as int, i as int).drop_last() =~= v@.subrange(
            start as int,
            i - 1,
        ));
        i = i - 1;
    }
    if i - start > 1 {
        assert(v@.subrange(start as int, i as int).last() == '.');
        Some(i - 1)
    } else {
        None
    }
}

/// `p` with its extension replaced by `ext`, as `with_extension_path` says.
pub fn with_extension(p: &str, ext: &str) -> (r: String)
    ensures
        r@ == with_extension_path(p@, ext@),
{
    let v = chars_of(p);
    let start = final_component_start(&v);
    let name_len = v.len() - start;
    let ghost name = v@.skip(start as int);
    let no_file = name_len == 0 || (name_len == 1 && v[start] == '.') || (name_len == 2 && v[start]
        == '.' && v[start + 1] == '.');
    proof {
        if name_len == 1 && v[start as int] == '.' {
            assert(name =~= seq!['.']);
        }
        if name_len == 2 && v[start as int] == '.' && v[start + 1] == '.' {
            assert(name =~= seq!['.', '.']);
        }
        if name == seq!['.'] {
            assert(name[0] == '.');
        }
        if name == seq!['.', '.'] {
            assert(name[0] == '.' && name[1] == '.');
        }
    }
    if no_file {
        return string_of_chars(&v);
    }
    proof {
        lemma_extension_dot_bounds(name);
    }
    let stem_end = match find_extension_dot(&v, start) {
        Some(d) => d,
        None => v.len(),
    };
    let mut out: Vec<char> = Vec::new();
    let mut i: usize = 0;
    while i < stem_end
        invariant
            stem_end <= v.len(),
            i <= stem_end,
            out@ == v@.take(i as int),
        decreases stem_end - i,
    {
        out.push(v[i]);
        assert(v@.take(i as int).push(v@[i as int]) =~= v@.take(i + 1));
        i = i + 1;
    }
    let mut r = string_of_chars(&out);
    if ext.unicode_len() > 0 {
        r.push('.');
        r.append(ext);
    }
    r
}

/// The number of characters of `s` before its first separator.
pub open spec fn first_piece_len(s: Seq<char>) -> nat
    decreases s.len(),
{
    if s.len() == 0 || is_separator(s[0]) {
        0
    } else {
        1 + first_piece_len(s.skip(1))
    }
}

/// The first piece of `s` lies within it, holds no separator, and is
/// followed by a separator or the end.
pub proof fn lemma_first_piece_len(s: Seq<char>)
    ensures
        first_piece_len(s) <= s.len(),
        s.len() > 0 && !is_separator(s[0]) ==> first_piece_len(s) >= 1,
        forall|i: int| 0 <= i < first_piece_len(s) ==> !is_separator(#[trigger] s[i]),
        first_piece_len(s) < s.len() ==> is_separator(s[first_piece_len(s) as int]),
    decreases s.len(),
{
    if s.len() > 0 && !is_separator(s[0]) {
        let t = s.skip(1);
        lemma_first_piece_len(t);
        assert forall|i: int| 0 <= i < first_piece_len(s) implies !is_separator(#[trigger] s[i]) by {
            if i > 0 {
                assert(s[i] == t[i - 1]);
            }
        }
        if first_piece_len(s) < s.len() {
            assert(s[first_piece_len(s) as int] == t[first_piece_len(t) as int]);
        }
    }
}

/// `s` starts with a piece that is a lone `.`: one that names the current
/// directory.
pub open spec fn is_cur_dir_piece(s: Seq<char>) -> bool {
    s.len() > 0 && s[0] == '.' && first_piece_len(s) == 1
}

/// The components of the body of a path (the text after its head): the
/// pieces between separators, leaving out empty pieces and `.` pieces.
pub open spec fn body_components(s: Seq<char>) -> Seq<Seq<char>>
    decreases s.len(),
{
    if s.len() == 0 {
        Seq::empty()
    } else if is_separator(s[0]) || is_cur_dir_piece(s) {
        body_components(s.skip(1))
    } else {
        proof {
            lemma_first_piece_len(s);
        }
        seq![s.take(first_piece_len(s) as int)] + body_components(s.skip(first_piece_len(s) as int))
    }
}

/// A relative path whose first piece is `.`: that `.` stays its first
/// component.
pub open spec fn starts_at_cur_dir(p: Seq<char>) -> bool {
    root_len(p) == 0 && is_cur_dir_piece(p)
}

/// The length of the head of a path: its root, or a leading `.` piece of a
/// relative path.
pub open spec fn head_len(p: Seq<char>) -> int {
    if starts_at_cur_dir(p) {
        1
    } else {
        root_len(p)
    }
}

/// The body of a path: what follows its head.
pub open spec fn body_of(p: Seq<char>) -> Seq<char> {
    p.skip(head_len(p))
}

/// The upper-case form of an ASCII lower-case letter; other characters as
/// they are.
pub open spec fn ascii_upper(c: char) -> char {
    if 'a' <= c && c <= 'z' {
        ((c as u32) - 32u32) as char
    } else {
        c
    }
}

/// `char::to_ascii_uppercase`: ASCII letters `a` to `z` become `A` to `Z`;
/// every other character is returned unchanged, as the std documentation
/// says.
pub assume_specification[ char::to_ascii_uppercase ](c: &char) -> (r: char)
    ensures
        r == ascii_upper(*c),
;

/// The head of a path as the components it makes, written as text: empty
/// for none, `/` for a root, the drive letter in upper case with `:/` for a
/// drive root, `.` for a leading current directory.
pub open spec fn head_key(p: Seq<char>) -> Seq<char> {
    if root_len(p) == 1 {
        seq!['/']
    } else if root_len(p) == 3 {
        seq![ascii_upper(p[0]), ':', '/']
    } else if starts_at_cur_dir(p) {
        seq!['.']
    } else {
        Seq::empty()
    }
}

/// The body `s` after the components `comps` are taken off its front, or
/// `None` when its components do not start with `comps`.
pub open spec fn strip_body(s: Seq<char>, comps: Seq<Seq<char>>) -> Option<Seq<char>>
    decreases s.len(),
{
    if comps.len() == 0 {
        Some(s)
    } else if s.len() == 0 {
        None
    } else if is_separator(s[0]) || is_cur_dir_piece(s) {
        strip_body(s.skip(1), comps)
    } else {
        proof {
            lemma_first_piece_len(s);
        }
        if s.take(first_piece_len(s) as int) == comps[0] {
            strip_body(s.skip(first_piece_len(s) as int), comps.skip(1))
        } else {
            None
        }
    }
}

/// `s` without its leading separators and `.` pieces.
pub open spec fn trim_front(s: Seq<char>) -> Seq<char>
    decreases s.len(),
{
    if s.len() > 0 && (is_separator(s[0]) || is_cur_dir_piece(s)) {
        trim_front(s.skip(1))
    } else {
        s
    }
}

/// `s` without its trailing separators and `.` pieces.
pub open spec fn trim_back(s: Seq<char>) -> Seq<char>
    decreases s.len(),
{
    if s.len() == 0 {
        s
    } else if is_separator(s.last()) {
        trim_back(s.drop_last())
    } else if s.last() == '.' && (s.len() == 1 || is_separator(s[s.len() - 2])) {
        trim_back(s.drop_last())
    } else {
        s
    }
}

/// `path` relative to `base`, compared component by component: `None` when
/// the components of `base` do not start those of `path`. When `base` has
/// no component at all, `path` is given back without trailing separators
/// and `.` pieces; otherwise the text after the shared components, without
/// leading or trailing separators and `.` pieces.
pub open spec fn strip_path_prefix(path: Seq<char>, base: Seq<char>) -> Option<Seq<char>> {
    let base_comps = body_components(body_of(base));
    if head_key(base).len() == 0 && base_comps.len() == 0 {
        Some(path.take(head_len(path)) + trim_back(body_of(path)))
    } else if head_key(base) != head_key(path) {
        None
    } else {
        match strip_body(body_of(path), base_comps) {
            Some(rest) => Some(trim_back(trim_front(rest))),
            None => None,
        }
    }
}

/// The characters of `v` from index `from` on.
pub fn chars_from(v: &Vec<char>, from: usize) -> (r: Vec<char>)
    requires
        from <= v.len(),
    ensures
        r@ == v@.skip(from as int),
{
    let mut r: Vec<char> = Vec::new();
    let mut i: usize = from;
    while i < v.len()
        invariant
            from <= i <= v.len(),
            r@ == v@.subrange(from as int, i as int),
        decreases v.len() - i,
    {
        r.push(v[i]);
        assert(v@.subrange(from as int, i as int).push(v@[i as int]) =~= v@.subrange(
            from as int,
            i + 1,
        ));
        i = i + 1;
    }
    assert(v@.subrange(from as int, v.len() as int) =~= v@.skip(from as int));
    r
}


/// A copy of `v[from..to]`.
pub fn copy_range(v: &Vec<char>, from: usize, to: usize) -> (r: Vec<char>)
    requires
        from <= to <= v.len(),
    ensures
        r@ == v@.subrange(from as int, to as int),
{
    let mut r: Vec<char> = Vec::new();
    let mut i: usize = from;
    while i < to
        invariant
            from <= i <= to <= v.len(),
            r@ == v@.subrange(from as int, i as int),
        decreases to - i,
    {
        r.push(v[i]);
        assert(v@.subrange(from as int, i + 1) =~= v@.subrange(from as int, i as int).push(
            v@[i as int],
        ));
        i = i + 1;
    }
    r
}

fn is_sep_char(c: char) -> (b: bool)
    ensures
        b == is_separator(c),
{
    c == '/' || c == '\\'
}

/// The length of the piece of `v` that starts at `from`.
fn piece_len_at(v: &Vec<char>, from: usize) -> (n: usize)
    requires
        from <= v.len(),
    ensures
        n as nat == first_piece_len(v@.skip(from as int)),
        from + n <= v.len(),
{
    let mut i: usize = from;
    while i < v.len() && !is_sep_char(v[i])
        invariant
            from <= i <= v.len(),
            first_piece_len(v@.skip(from as int)) == (i - from) + first_piece_len(
                v@.skip(i as int),
            ),
        decreases v.len() - i,
    {
        assert(v@.skip(i as int).skip(1) =~= v@.skip(i + 1));
        assert(v@.skip(i as int)[0] == v@[i as int]);
        i = i + 1;
    }
    proof {
        if i < v.len() {
            assert(v@.skip(i as int)[0] == v@[i as int]);
        }
    }
    i - from
}

/// Whether the piece of `v` at `from` is a lone `.`.
fn cur_dir_at(v: &Vec<char>, from: usize) -> (b: bool)
    requires
        from <= v.len(),
    ensures
        b == is_cur_dir_piece(v@.skip(from as int)),
{
    if from < v.len() && v[from] == '.' {
        assert(v@.skip(from as int)[0] == v@[from as int]);
        piece_len_at(v, from) == 1
    } else {
        proof {
            if from < v.len() {
                assert(v@.skip(from as int)[0] == v@[from as int]);
            }
        }
        false
    }
}

/// Whether the piece `v[from..]` (its next `n` characters) equals `w`.
fn range_equals(v: &Vec<char>, from: usize, n: usize, w: &Vec<char>) -> (b: bool)
    requires
        from + n <= v.len(),
    ensures
        b == (v@.subrange(from as int, from + n) == w@),
{
    if n != w.len() {
        return false;
    }
    let mut k: usize = 0;
    while k < n
        invariant
            from + n <= v.len(),
            n == w.len(),
            k <= n,
            forall|j: int| 0 <= j < k ==> v@[from + j] == w@[j],
        decreases n - k,
    {
        if v[from + k] != w[k] {
            assert(v@.subrange(from as int, from + n)[k as int] != w@[k as int]);
            return false;
        }
        k = k + 1;
    }
    assert(v@.subrange(from as int, from + n) =~= w@);
    true
}

/// The components of the body `v[from..]`, as `body_components` says.
pub fn body_components_from(v: &Vec<char>, from: usize) -> (r: Vec<Vec<char>>)
    requires
        from <= v.len(),
    ensures
        r@.map_values(|c: Vec<char>| c@) == body_components(v@.skip(from as int)),
{
    let mut r: Vec<Vec<char>> = Vec::new();
    let mut i: usize = from;
    while i < v.len()
        invariant
            from <= i <= v.len(),
            r@.map_values(|c: Vec<char>| c@) + body_components(v@.skip(i as int))
                == body_components(v@.skip(from as int)),
        decreases v.len() - i,
    {
        let ghost s = v@.skip(i as int);
        assert(s[0] == v@[i as int]);
        assert(s.skip(1) =~= v@.skip(i + 1));
        if is_sep_char(v[i]) || cur_dir_at(v, i) {
            i = i + 1;
        } else {
            let n = piece_len_at(v, i);
            proof {
                lemma_first_piece_len(s);
            }
            let piece = copy_range(v, i, i + n);
            let ghost old_r = r@.map_values(|c: Vec<char>| c@);
            r.push(piece);
            assert(r@.map_values(|c: Vec<char>| c@) =~= old_r.push(piece@));
            assert(s.take(n as int) =~= piece@);
            assert(s.skip(n as int) =~= v@.skip(i + n));
            assert(body_components(s) == seq![piece@] + body_components(v@.skip(i + n)));
            assert(old_r.push(piece@) + body_components(v@.skip(i + n)) =~= old_r + (seq![piece@]
                + body_components(v@.skip(i + n))));
            i = i + n;
        }
    }
    assert(v@.skip(i as int) =~= Seq::<char>::empty());
    assert(r@.map_values(|c: Vec<char>| c@) + Seq::<Seq<char>>::empty() =~= r@.map_values(
        |c: Vec<char>| c@,
    ));
    r
}

/// The length of the head of `v`, as `head_len` says.
pub fn head_length(v: &Vec<char>) -> (n: usize)
    ensures
        n as int == head_len(v@),
        n <= v.len(),
{
    let root = root_length(v);
    if root == 0 && cur_dir_at(v, 0) {
        assert(v@.skip(0) =~= v@);
        1
    } else {
        assert(v@.skip(0) =~= v@);
        root
    }
}

/// The head of `v` as text, as `head_key` says.
pub fn head_key_of(v: &Vec<char>) -> (r: Vec<char>)
    ensures
        r@ == head_key(v@),
{
    let root = root_length(v);
    let mut r: Vec<char> = Vec::new();
    assert(v@.skip(0) =~= v@);
    if root == 1 {
        r.push('/');
        assert(r@ =~= seq!['/']);
    } else if root == 3 {
        r.push(v[0].to_ascii_uppercase());
        r.push(':');
        r.push('/');
        assert(r@ =~= seq![ascii_upper(v@[0]), ':', '/']);
    } else if cur_dir_at(v, 0) {
        r.push('.');
        assert(r@ =~= seq!['.']);
    } else {
        assert(r@ =~= Seq::<char>::empty());
    }
    r
}

/// Takes the components `comps` off the front of the body `v[from..]`, as
/// `strip_body` says; the index where the rest starts.
fn strip_body_at(v: &Vec<char>, from: usize, comps: &Vec<Vec<char>>) -> (r: Option<usize>)
    requires
        from <= v.len(),
    ensures
        match strip_body(v@.skip(from as int), comps@.map_values(|c: Vec<char>| c@)) {
            Some(rest) => r matches Some(k) && k <= v.len() && v@.skip(k as int) == rest,
            None => r is None,
        },
{
    let ghost cv = comps@.map_values(|c: Vec<char>| c@);
    let mut i: usize = from;
    let mut j: usize = 0;
    assert(cv.skip(0) =~= cv);
    while j < comps.len()
        invariant
            from <= i <= v.len(),
            j <= comps.len(),
            cv == comps@.map_values(|c: Vec<char>| c@),
            strip_body(v@.skip(i as int), cv.skip(j as int)) == strip_body(
                v@.skip(from as int),
                cv,
            ),
        decreases v.len() - i,
    {
        let ghost s = v@.skip(i as int);
        let ghost cs = cv.skip(j as int);
        if i == v.len() {
            assert(s.len() == 0);
            return None;
        }
        assert(s[0] == v@[i as int]);
        assert(s.skip(1) =~= v@.skip(i + 1));
        if is_sep_char(v[i]) || cur_dir_at(v, i) {
            i = i + 1;
        } else {
            let n = piece_len_at(v, i);
            proof {
                lemma_first_piece_len(s);
            }
            assert(s.take(n as int) =~= v@.subrange(i as int, i + n));
            assert(cs[0] == comps@[j as int]@);
            if range_equals(v, i, n, &comps[j]) {
                assert(s.skip(n as int) =~= v@.skip(i + n));
                assert(cs.skip(1) =~= cv.skip(j + 1));
                i = i + n;
                j = j + 1;
            } else {
                return None;
            }
        }
    }
    assert(cv.skip(j as int).len() == 0);
    Some(i)
}

/// Where `v[from..]` starts once its leading separators and `.` pieces are
/// dropped.
fn trim_front_at(v: &Vec<char>, from: usize) -> (k: usize)
    requires
        from <= v.len(),
    ensures
        from <= k <= v.len(),
        v@.skip(k as int) == trim_front(v@.skip(from as int)),
{
    let mut i: usize = from;
    while i < v.len() && (is_sep_char(v[i]) || cur_dir_at(v, i))
        invariant
            from <= i <= v.len(),
            trim_front(v@.skip(i as int)) == trim_front(v@.skip(from as int)),
        decreases v.len() - i,
    {
        assert(v@.skip(i as int)[0] == v@[i as int]);
        assert(v@.skip(i as int).skip(1) =~= v@.skip(i + 1));
        i = i + 1;
    }
    proof {
        if i < v.len() {
            assert(v@.skip(i as int)[0] == v@[i as int]);
        }
    }
    i
}

/// Where `v[from..to]` ends once its trailing separators and `.` pieces are
/// dropped.
fn trim_back_at(v: &Vec<char>, from: usize, to: usize) -> (e: usize)
    requires
        from <= to <= v.len(),
    ensures
        from <= e <= to,
        v@.subrange(from as int, e as int) == trim_back(v@.subrange(from as int, to as int)),
{
    let mut e: usize = to;
    while e > from && (is_sep_char(v[e - 1]) || (v[e - 1] == '.' && (e - 1 == from || is_sep_char(
        v[e - 2],
    ))))
        invariant
            from <= e <= to <= v.len(),
            trim_back(v@.subrange(from as int, e as int)) == trim_back(
                v@.subrange(from as int, to as int),
            ),
        decreases e,
    {
        let ghost t = v@.subrange(from as int, e as int);
        assert(t.last() == v@[e - 1]);
        if e - 1 > from {
            assert(t[t.len() - 2] == v@[e - 2]);
        }
        assert(t.drop_last() =~= v@.subrange(from as int, e - 1));
        e = e - 1;
    }
    proof {
        let t = v@.subrange(from as int, e as int);
        if e > from {
            assert(t.last() == v@[e - 1]);
            if e - 1 > from {
                assert(t[t.len() - 2] == v@[e - 2]);
            }
        }
    }
    e
}

/// `path` relative to `base`, as `strip_path_prefix` says.
pub fn strip_prefix(path: &str, base: &str) -> (r: Option<String>)
    ensures
        match strip_path_prefix(path@, base@) {
            Some(s) => r matches Some(t) && t@ == s,
            None => r is None,
        },
{
    let pv = chars_of(path);
    let bv = chars_of(base);
    let base_head = head_key_of(&bv);
    let base_head_len = head_length(&bv);
    let base_comps = body_components_from(&bv, base_head_len);
    let path_head_len = head_length(&pv);
    if base_head.len() == 0 && base_comps.len() == 0 {
        let e = trim_back_at(&pv, path_head_len, pv.len());
        let out = copy_range(&pv, 0, e);
        proof {
            let h = path_head_len as int;
            assert(pv@.subrange(h, pv@.len() as int) =~= body_of(pv@));
            assert(pv@.subrange(0, e as int) =~= pv@.take(h) + pv@.subrange(h, e as int));
        }
        return Some(string_of_chars(&out));
    }
    let path_head = head_key_of(&pv);
    if !range_equals(&base_head, 0, base_head.len(), &path_head) {
        assert(base_head@.subrange(0, base_head@.len() as int) =~= base_head@);
        return None;
    }
    assert(base_head@.subrange(0, base_head@.len() as int) =~= base_head@);
    match strip_body_at(&pv, path_head_len, &base_comps) {
        Some(k) => {
            let a = trim_front_at(&pv, k);
            let e = trim_back_at(&pv, a, pv.len());
            assert(pv@.subrange(a as int, pv@.len() as int) =~= pv@.skip(a as int));
            let out = copy_range(&pv, a, e);
            Some(string_of_chars(&out))
        },
        None => None,
    }
}


/// The components written one after another, each followed by `/`.
pub open spec fn joined_components(comps: Seq<Seq<char>>) -> Seq<char>
    decreases comps.len(),
{
    if comps.len() == 0 {
        Seq::empty()
    } else {
        joined_components(comps.drop_last()) + comps.last() + seq!['/']
    }
}

/// The text a path is keyed by: its head, a `/`, then each component of its
/// body followed by `/`. It depends on the components alone, so paths that
/// differ only in repeated or trailing separators or in `.` pieces get the
/// same key.
pub open spec fn path_key(p: Seq<char>) -> Seq<char> {
    head_key(p) + seq!['/'] + joined_components(body_components(body_of(p)))
}

/// The key of `path`, as `path_key` says.
pub fn path_key_text(path: &str) -> (r: String)
    ensures
        r@ == path_key(path@),
{
    let v = chars_of(path);
    let mut out = head_key_of(&v);
    out.push('/');
    let comps = body_components_from(&v, head_length(&v));
    let ghost cv = comps@.map_values(|c: Vec<char>| c@);
    let ghost start = out@;
    let mut i: usize = 0;
    assert(cv.take(0) =~= Seq::<Seq<char>>::empty());
    assert(start + joined_components(cv.take(0)) =~= start);
    while i < comps.len()
        invariant
            i <= comps.len(),
            cv == comps@.map_values(|c: Vec<char>| c@),
            out@ == start + joined_components(cv.take(i as int)),
        decreases comps.len() - i,
    {
        let mut k: usize = 0;
        let ghost before = out@;
        while k < comps[i].len()
            invariant
                i < comps.len(),
                k <= comps@[i as int].len(),
                out@ == before + comps@[i as int]@.take(k as int),
            decreases comps@[i as int].len() - k,
        {
            out.push(comps[i][k]);
            assert(comps@[i as int]@.take(k + 1) =~= comps@[i as int]@.take(k as int).push(
                comps@[i as int]@[k as int],
            ));
            k = k + 1;
        }
        assert(comps@[i as int]@.take(k as int) =~= comps@[i as int]@);
        out.push('/');
        assert(cv.take(i + 1).drop_last() =~= cv.take(i as int));
        assert(cv[i as int] == comps@[i as int]@);
        assert(out@ =~= start + joined_components(cv.take(i + 1)));
        i = i + 1;
    }
    assert(cv.take(i as int) =~= cv);
    assert(start =~= head_key(v@) + seq!['/']);
    string_of_chars(&out)
}

/// Whether two paths have the same components, as `Path` equality has it.
pub fn same_path(a: &str, b: &str) -> (r: bool)
    ensures
        r == (path_key(a@) == path_key(b@)),
{
    let ka = path_key_text(a);
    let kb = path_key_text(b);
    let kav = chars_of(ka.as_str());
    let kbv = chars_of(kb.as_str());
    if kav.len() != kbv.len() {
        return false;
    }
    let eq = range_equals(&kav, 0, kav.len(), &kbv);
    assert(kav@.subrange(0, kav@.len() as int) =~= kav@);
    eq
}

/// `p` with every backslash turned into a forward slash.
pub open spec fn forward_slashes(p: Seq<char>) -> Seq<char> {
    p.map_values(|c: char| if c == '\\' { '/' } else { c })
}

/// Replaces every backslash of `p` by a forward slash.
pub fn to_forward_slashes(p: &str) -> (r: String)
    ensures
        r@ == forward_slashes(p@),
{
    let v = chars_of(p);
    let mut out: Vec<char> = Vec::new();
    let mut i: usize = 0;
    while i < v.len()
        invariant
            i <= v.len(),
            out@ == forward_slashes(v@.take(i as int)),
        decreases v.len() - i,
    {
        let c = v[i];
        out.push(if c == '\\' { '/' } else { c });
        assert(forward_slashes(v@.take(i + 1)) =~= forward_slashes(v@.take(i as int)).push(
            if c == '\\' { '/' } else { c },
        ));
        i = i + 1;
    }
    assert(v@.take(v.len() as int) =~= v@);
    string_of_chars(&out)
}

/// The final component of `p` when it names a file, as `Path::file_name`
/// gives it for a normalized path.
pub open spec fn file_name_of(p: Seq<char>) -> Option<Seq<char>> {
    let name = final_component(p);
    if name.len() == 0 || name == seq!['.', '.'] {
        None
    } else {
        Some(name)
    }
}

/// The file name of `p`, as `file_name_of` says.
pub fn file_name(p: &str) -> (r: Option<String>)
    ensures
        match file_name_of(p@) {
            Some(n) => r matches Some(s) && s@ == n,
            None => r is None,
        },
{
    let v = chars_of(p);
    let start = final_component_start(&v);
    let name = chars_from(&v, start);
    if name.len() == 0 || (name.len() == 2 && name[0] == '.' && name[1] == '.') {
        proof {
            if name.len() == 2 {
                assert(name@ =~= seq!['.', '.']);
            }
        }
        None
    } else {
        proof {
            if name@ == seq!['.', '.'] {
                assert(name@[0] == '.' && name@[1] == '.');
            }
        }
        Some(string_of_chars(&name))
    }
}

} // verus!
