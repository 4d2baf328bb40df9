//! Pure logic on path strings: file-name and extension structure, and the
//! image extension allow-list.
//!
//! All contracts are stated over the character view of the string.

use vstd::prelude::*;

verus! {

/// The characters of `s`, as a vector that can be indexed directly.
pub fn chars_of(s: &str) -> (v: Vec<char>)
    ensures
        v@ == s@,
{
    let mut v: Vec<char> = Vec::new();
    for c in it: s.chars()
        invariant
            v@ == it.seq().subrange(0, it.index() as int),
            it.seq() == s@,
    {
        v.push(c);
    }
    proof {
        assert(v@ =~= s@);
    }
    v
}

/// The position of the last occurrence of `c` in `s`, or `-1` if absent.
pub open spec fn last_pos(s: Seq<char>, c: char) -> int
    decreases s.len(),
{
    if s.len() == 0 {
        -1
    } else if s[s.len() - 1] == c {
        s.len() - 1
    } else {
        last_pos(s.drop_last(), c)
    }
}

/// `last_pos` points at an occurrence of `c` and nothing later matches.
pub proof fn lemma_last_pos(s: Seq<char>, c: char)
    ensures
        -1 <= last_pos(s, c) < s.len(),
        last_pos(s, c) >= 0 ==> s[last_pos(s, c)] == c,
        forall|j: int| last_pos(s, c) < j < s.len() ==> s[j] != c,
    decreases s.len(),
{
    if s.len() > 0 && s[s.len() - 1] != c {
        lemma_last_pos(s.drop_last(), c);
        assert(forall|j: int| 0 <= j < s.len() - 1 ==> s[j] == s.drop_last()[j]);
    }
}

/// A witness at position `i` with nothing later pins `last_pos` down to `i`.
pub proof fn lemma_last_pos_unique(s: Seq<char>, c: char, i: int)
    requires
        0 <= i < s.len(),
        s[i] == c,
        forall|j: int| i < j < s.len() ==> s[j] != c,
    ensures
        last_pos(s, c) == i,
    decreases s.len(),
{
    if i < s.len() - 1 {
        lemma_last_pos_unique(s.drop_last(), c, i);
    }
}

/// Scan `v` from the end for `c`.
pub fn rfind_char(v: &Vec<char>, c: char) -> (r: Option<usize>)
    ensures
        r matches Some(i) ==> i == last_pos(v@, c) && i < v@.len() && v@[i as int] == c,
        r is None ==> last_pos(v@, c) == -1,
{
    let mut i: usize = v.len();
    while i > 0
        invariant
            i <= v@.len(),
            forall|j: int| i <= j < v@.len() ==> v@[j] != c,
        decreases i,
    {
        i = i - 1;
        if v[i] == c {
            proof {
                lemma_last_pos_unique(v@, c, i as int);
            }
            return Some(i);
        }
    }
    proof {
        lemma_last_pos(v@, c);
    }
    None
}

/// A copy of `v[from..to]`.
pub fn copy_range(v: &Vec<char>, from: usize, to: usize) -> (r: Vec<char>)
    requires
        from <= to <= v@.len(),
    ensures
        r@ == v@.subrange(from as int, to as int),
{
    let mut r: Vec<char> = Vec::new();
    let mut i: usize = from;
    while i < to
        invariant
            from <= i <= to <= v@.len(),
            r@ == v@.subrange(from as int, i as int),
        decreases to - i,
    {
        r.push(v[i]);
        proof {
            assert(v@.subrange(from as int, i + 1 as int) =~= v@.subrange(from as int, i as int).push(
                v@[i as int],
            ));
        }
        i = i + 1;
    }
    r
}

/// ASCII-fold one character to lower case.
pub open spec fn ascii_lower(c: char) -> char {
    if 'A' <= c && c <= 'Z' {
        ((c as u8) + 32) as char
    } else {
        c
    }
}

/// ASCII-fold a whole extension to lower case.
pub open spec fn lower_ext(e: Seq<char>) -> Seq<char> {
    e.map_values(|c: char| ascii_lower(c))
}

/// Executable counterpart of [`ascii_lower`].
pub fn lower_char(c: char) -> (r: char)
    ensures
        r == ascii_lower(c),
{
    if 'A' <= c && c <= 'Z' {
        ((c as u8) + 32) as char
    } else {
        c
    }
}

/// The final path component: everything after the last `/`.
pub open spec fn file_name_of(path: Seq<char>) -> Seq<char> {
    path.subrange(last_pos(path, '/') + 1, path.len() as int)
}

/// The extension of the final path component: the part after its last `.`,
/// provided that dot is neither absent nor leading (a name such as
/// `.config` has no extension).
pub open spec fn extension_of(path: Seq<char>) -> Option<Seq<char>> {
    let name = file_name_of(path);
    let d = last_pos(name, '.');
    if d <= 0 {
        Option::None
    } else {
        Option::Some(name.subrange(d + 1, name.len() as int))
    }
}

pub open spec fn is_ext_jpg(l: Seq<char>) -> bool {
    l.len() == 3 && l[0] == 'j' && l[1] == 'p' && l[2] == 'g'
}

pub open spec fn is_ext_jpeg(l: Seq<char>) -> bool {
    l.len() == 4 && l[0] == 'j' && l[1] == 'p' && l[2] == 'e' && l[3] == 'g'
}

pub open spec fn is_ext_png(l: Seq<char>) -> bool {
    l.len() == 3 && l[0] == 'p' && l[1] == 'n' && l[2] == 'g'
}

pub open spec fn is_ext_gif(l: Seq<char>) -> bool {
    l.len() == 3 && l[0] == 'g' && l[1] == 'i' && l[2] == 'f'
}

pub open spec fn is_ext_webp(l: Seq<char>) -> bool {
    l.len() == 4 && l[0] == 'w' && l[1] == 'e' && l[2] == 'b' && l[3] == 'p'
}

pub open spec fn is_ext_tiff(l: Seq<char>) -> bool {
    l.len() == 4 && l[0] == 't' && l[1] == 'i' && l[2] == 'f' && l[3] == 'f'
}

pub open spec fn is_ext_bmp(l: Seq<char>) -> bool {
    l.len() == 3 && l[0] == 'b' && l[1] == 'm' && l[2] == 'p'
}

/// Whether a (case-folded) extension is on the image allow-list.
pub open spec fn is_image_ext(e: Seq<char>) -> bool {
    let l = lower_ext(e);
    ||| is_ext_jpg(l)
    ||| is_ext_jpeg(l)
    ||| is_ext_png(l)
    ||| is_ext_gif(l)
    ||| is_ext_webp(l)
    ||| is_ext_tiff(l)
    ||| is_ext_bmp(l)
}

/// Whether a path names an image file, judged by its extension alone.
pub open spec fn is_image_path(path: Seq<char>) -> bool {
    match extension_of(path) {
        Option::Some(e) => is_image_ext(e),
        Option::None => false,
    }
}

/// Case-fold the characters of `e` to lower case.
pub(crate) fn lower_all(e: &Vec<char>) -> (r: Vec<char>)
    ensures
        r@ == lower_ext(e@),
{
    let mut r: Vec<char> = Vec::new();
    let mut i: usize = 0;
    while i < e.len()
        invariant
            i <= e@.len(),
            r@ == e@.subrange(0, i as int).map_values(|c: char| ascii_lower(c)),
        decreases e@.len() - i,
    {
        r.push(lower_char(e[i]));
        proof {
            assert(e@.subrange(0, i + 1 as int).map_values(|c: char| ascii_lower(c)) =~= e@.subrange(
                0,
                i as int,
            ).map_values(|c: char| ascii_lower(c)).push(ascii_lower(e@[i as int])));
        }
        i = i + 1;
    }
    proof {
        assert(e@.subrange(0, e@.len() as int) =~= e@);
    }
    r
}

/// Whether an extension is on the image allow-list, case-insensitively.
fn ext_on_allow_list(e: &Vec<char>) -> (r: bool)
    ensures
        r == is_image_ext(e@),
{
    let l = lower_all(e);
    if l.len() == 3 {
        let a = l[0];
        let b = l[1];
        let c = l[2];
        (a == 'j' && b == 'p' && c == 'g') || (a == 'p' && b == 'n' && c == 'g') || (a == 'g' && b
            == 'i' && c == 'f') || (a == 'b' && b == 'm' && c == 'p')
    } else if l.len() == 4 {
        let a = l[0];
        let b = l[1];
        let c = l[2];
        let d = l[3];
        (a == 'j' && b == 'p' && c == 'e' && d == 'g') || (a == 'w' && b == 'e' && c == 'b' && d
            == 'p') || (a == 't' && b == 'i' && c == 'f' && d == 'f')
    } else {
        false
    }
}

/// The extension of `path`'s final component, or `None` where
/// [`extension_of`] gives none.
pub fn extension_chars(path: &str) -> (r: Option<Vec<char>>)
    ensures
        r matches Some(e) ==> extension_of(path@) == Option::Some(e@),
        r is None ==> extension_of(path@) is None,
{
    let v = chars_of(path);
    let n = v.len();
    let name_start: usize = match rfind_char(&v, '/') {
        Some(i) => {
            proof {
                assert(i < n);
            }
            i + 1
        },
        None => 0,
    };
    let name = copy_range(&v, name_start, n);
    proof {
        assert(name@ == file_name_of(path@));
    }
    match rfind_char(&name, '.') {
        Some(d) => {
            if d == 0 {
                None
            } else {
                Some(copy_range(&name, d + 1, name.len()))
            }
        },
        None => None,
    }
}

/// Decide whether `path` names an image file, by its extension alone.
///
/// The allow-list is jpg, jpeg, png, gif, webp, tiff and bmp, matched without
/// regard to ASCII case.
pub fn is_image_file(path: &str) -> (r: bool)
    ensures
        r == is_image_path(path@),
{
    match extension_chars(path) {
        Some(ext) => ext_on_allow_list(&ext),
        None => false,
    }
}

} // verus!
