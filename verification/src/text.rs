//! Character-level helpers on names and paths.
//!
//! Names and paths are modelled as `Seq<char>`, the view of a `str`.

use vstd::prelude::*;
use vstd::std_specs::iter::IteratorSpec;

verus! {

/// The path separator.
pub const SEPARATOR: char = '/';

/// The code point of `c`, with the ASCII capital letters mapped to their small forms.
pub open spec fn lower_code(c: char) -> u32 {
    if 0x41 <= c as u32 <= 0x5A {
        (c as u32 + 32) as u32
    } else {
        c as u32
    }
}

/// `name` ends in `suffix` when ASCII case is ignored.
pub open spec fn ends_with_ignoring_case(name: Seq<char>, suffix: Seq<char>) -> bool {
    &&& suffix.len() <= name.len()
    &&& forall|i: int|
        0 <= i < suffix.len() ==> lower_code(name[name.len() - suffix.len() + i]) == lower_code(
            #[trigger] suffix[i],
        )
}

/// `s` begins with `prefix`.
pub open spec fn starts_with(s: Seq<char>, prefix: Seq<char>) -> bool {
    prefix.len() <= s.len() && s.take(prefix.len() as int) == prefix
}

/// The order of names: lexicographic by code point, a proper prefix first.
pub open spec fn name_le(a: Seq<char>, b: Seq<char>) -> bool
    decreases a.len(),
{
    if a.len() == 0 {
        true
    } else if b.len() == 0 {
        false
    } else if a[0] == b[0] {
        name_le(a.drop_first(), b.drop_first())
    } else {
        a[0] < b[0]
    }
}

/// The pieces of `s` between separators. A path without a separator is one
/// piece; two separators in a row enclose an empty piece.
pub open spec fn split_path(s: Seq<char>) -> Seq<Seq<char>>
    decreases s.len(),
{
    if s.len() == 0 {
        seq![Seq::<char>::empty()]
    } else {
        let before = split_path(s.drop_last());
        if s.last() == SEPARATOR {
            before.push(Seq::<char>::empty())
        } else {
            before.drop_last().push(before.last().push(s.last()))
        }
    }
}

/// What follows the last separator of `path`; all of `path` where it has none.
pub open spec fn last_segment(path: Seq<char>) -> Seq<char> {
    split_path(path).last()
}

/// What precedes the last separator of `path`; nothing where it has none.
pub open spec fn parent_dir(path: Seq<char>) -> Seq<char> {
    let keep = path.len() - last_segment(path).len() - 1;
    if keep < 0 {
        Seq::empty()
    } else {
        path.take(keep)
    }
}

/// `seg` holds no separator.
pub open spec fn is_segment(seg: Seq<char>) -> bool {
    forall|i: int| 0 <= i < seg.len() ==> seg[i] != SEPARATOR
}

/// Any two names are ordered one way or the other.
pub proof fn lemma_name_le_total(a: Seq<char>, b: Seq<char>)
    ensures
        name_le(a, b) || name_le(b, a),
    decreases a.len(),
{
    if a.len() > 0 && b.len() > 0 {
        if a[0] == b[0] {
            lemma_name_le_total(a.drop_first(), b.drop_first());
        }
    }
}

/// Every name is ordered before itself.
pub proof fn lemma_name_le_reflexive(a: Seq<char>)
    ensures
        name_le(a, a),
    decreases a.len(),
{
    if a.len() > 0 {
        lemma_name_le_reflexive(a.drop_first());
    }
}

/// The order of names is transitive.
pub proof fn lemma_name_le_transitive(a: Seq<char>, b: Seq<char>, c: Seq<char>)
    requires
        name_le(a, b),
        name_le(b, c),
    ensures
        name_le(a, c),
    decreases a.len(),
{
    if a.len() > 0 && b.len() > 0 && c.len() > 0 {
        if a[0] == b[0] && b[0] == c[0] {
            lemma_name_le_transitive(a.drop_first(), b.drop_first(), c.drop_first());
        }
    }
}

/// A path always splits into at least one piece, none of which holds a separator.
pub proof fn lemma_split_path_pieces(s: Seq<char>)
    ensures
        split_path(s).len() >= 1,
        forall|k: int| 0 <= k < split_path(s).len() ==> is_segment(#[trigger] split_path(s)[k]),
    decreases s.len(),
{
    if s.len() > 0 {
        lemma_split_path_pieces(s.drop_last());
    }
}

/// Where `path[start..]` holds no separator and `start` is the beginning of
/// the path or follows one, the last piece of `path` is `path[start..]`.
pub proof fn lemma_last_segment_from(path: Seq<char>, start: int)
    requires
        0 <= start <= path.len(),
        start == 0 || path[start - 1] == SEPARATOR,
        forall|j: int| start <= j < path.len() ==> path[j] != SEPARATOR,
    ensures
        last_segment(path) == path.subrange(start, path.len() as int),
    decreases path.len(),
{
    lemma_split_path_pieces(path);
    if path.len() == 0 {
        assert(path.subrange(start, path.len() as int) =~= Seq::<char>::empty());
    } else if start == path.len() {
        assert(path.subrange(start, path.len() as int) =~= Seq::<char>::empty());
    } else {
        let shorter = path.drop_last();
        lemma_split_path_pieces(shorter);
        lemma_last_segment_from(shorter, start);
        assert(path.subrange(start, path.len() as int) =~= shorter.subrange(
            start,
            shorter.len() as int,
        ).push(path.last()));
    }
}

/// The last piece of a path is never longer than the path.
pub proof fn lemma_last_segment_len(path: Seq<char>)
    ensures
        last_segment(path).len() <= path.len(),
    decreases path.len(),
{
    lemma_split_path_pieces(path);
    if path.len() > 0 {
        lemma_split_path_pieces(path.drop_last());
        lemma_last_segment_len(path.drop_last());
    }
}

/// Characters without a separator, put after a path, lengthen its last
/// piece and leave its directory as it is.
pub proof fn lemma_suffix_stays_in_dir(path: Seq<char>, suffix: Seq<char>)
    requires
        is_segment(suffix),
    ensures
        last_segment(path + suffix) == last_segment(path) + suffix,
        parent_dir(path + suffix) == parent_dir(path),
    decreases suffix.len(),
{
    lemma_split_path_pieces(path);
    lemma_last_segment_len(path);
    if suffix.len() == 0 {
        assert(path + suffix =~= path);
        assert(last_segment(path) + suffix =~= last_segment(path));
    } else {
        let shorter = suffix.drop_last();
        lemma_suffix_stays_in_dir(path, shorter);
        lemma_split_path_pieces(path + shorter);
        assert((path + suffix).drop_last() =~= path + shorter);
        assert((path + suffix).last() == suffix.last());
        assert((last_segment(path) + shorter).push(suffix.last()) =~= last_segment(path)
            + suffix);
        let keep = path.len() - last_segment(path).len() - 1;
        if keep >= 0 {
            assert((path + suffix).take(keep) =~= path.take(keep));
        }
    }
}

/// The characters of `s`, in order.
pub fn chars_of(s: &str) -> (v: Vec<char>)
    ensures
        v@ == s@,
{
    broadcast use vstd::string::group_string_axioms;

    let mut v: Vec<char> = Vec::new();
    for c in it: s.chars()
        invariant
            v@ == it.seq().take(it.index() as int),
    {
        v.push(c);
    }
    v
}

/// Computes [`lower_code`].
pub fn fold_code(c: char) -> (code: u32)
    ensures
        code == lower_code(c),
{
    let code: u32 = c as u32;
    if 0x41 <= code && code <= 0x5A {
        code + 32
    } else {
        code
    }
}

/// Decides [`ends_with_ignoring_case`].
pub fn has_suffix_ignoring_case(name: &Vec<char>, suffix: &Vec<char>) -> (r: bool)
    ensures
        r == ends_with_ignoring_case(name@, suffix@),
{
    if suffix.len() > name.len() {
        return false;
    }
    let offset: usize = name.len() - suffix.len();
    let mut i: usize = 0;
    while i < suffix.len()
        invariant
            i <= suffix.len(),
            suffix.len() <= name.len(),
            offset == name.len() - suffix.len(),
            forall|j: int|
                0 <= j < i ==> lower_code(name@[name.len() - suffix.len() + j]) == lower_code(
                    #[trigger] suffix@[j],
                ),
        decreases suffix.len() - i,
    {
        if fold_code(name[offset + i]) != fold_code(suffix[i]) {
            return false;
        }
        i += 1;
    }
    true
}

/// Decides [`starts_with`].
pub fn has_prefix(s: &Vec<char>, prefix: &Vec<char>) -> (r: bool)
    ensures
        r == starts_with(s@, prefix@),
{
    if prefix.len() > s.len() {
        return false;
    }
    let mut i: usize = 0;
    while i < prefix.len()
        invariant
            i <= prefix.len(),
            prefix.len() <= s.len(),
            forall|j: int| 0 <= j < i ==> s@[j] == prefix@[j],
        decreases prefix.len() - i,
    {
        if s[i] != prefix[i] {
            assert(s@.take(prefix.len() as int)[i as int] != prefix@[i as int]);
            return false;
        }
        i += 1;
    }
    assert(s@.take(prefix.len() as int) =~= prefix@);
    true
}

/// Decides [`name_le`].
pub fn name_precedes(a: &Vec<char>, b: &Vec<char>) -> (r: bool)
    ensures
        r == name_le(a@, b@),
{
    let mut i: usize = 0;
    assert(a@.skip(0) =~= a@ && b@.skip(0) =~= b@);
    while i < a.len() && i < b.len()
        invariant
            i <= a.len(),
            i <= b.len(),
            name_le(a@, b@) == name_le(a@.skip(i as int), b@.skip(i as int)),
        decreases a.len() - i,
    {
        assert(a@.skip(i as int)[0] == a@[i as int]);
        assert(b@.skip(i as int)[0] == b@[i as int]);
        if a[i] != b[i] {
            return a[i] < b[i];
        }
        assert(a@.skip(i as int).drop_first() =~= a@.skip(i + 1));
        assert(b@.skip(i as int).drop_first() =~= b@.skip(i + 1));
        i += 1;
    }
    i == a.len()
}

/// Computes [`last_segment`].
pub fn last_segment_of(path: &str) -> (name: String)
    ensures
        name@ == last_segment(path@),
{
    let chars = chars_of(path);
    let mut start: usize = chars.len();
    while start > 0 && chars[start - 1] != SEPARATOR
        invariant
            start <= chars.len(),
            forall|j: int| start <= j < chars.len() ==> chars@[j] != SEPARATOR,
        decreases start,
    {
        start -= 1;
    }
    proof {
        lemma_last_segment_from(path@, start as int);
    }
    String::from_str(path.substring_char(start, chars.len()))
}

/// Computes [`parent_dir`].
pub fn parent_of(path: &str) -> (dir: String)
    ensures
        dir@ == parent_dir(path@),
{
    let chars = chars_of(path);
    let mut start: usize = chars.len();
    while start > 0 && chars[start - 1] != SEPARATOR
        invariant
            start <= chars.len(),
            forall|j: int| start <= j < chars.len() ==> chars@[j] != SEPARATOR,
        decreases start,
    {
        start -= 1;
    }
    proof {
        lemma_last_segment_from(path@, start as int);
    }
    if start == 0 {
        String::new()
    } else {
        String::from_str(path.substring_char(0, start - 1))
    }
}

} // verus!
