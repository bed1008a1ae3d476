//! Paths below a volume root.
//!
//! A request names its source by a path relative to the volume root. That
//! path is normalised before anything is done with it: empty and `.`
//! segments fall away, a `..` segment takes back the segment before it, and
//! a `..` with nothing to take back is an attempt to leave the volume.

use crate::text::{chars_of, is_segment, lemma_split_path_pieces, split_path, SEPARATOR};
use vstd::prelude::*;

verus! {

/// Why a requested path was refused.
#[derive(Clone, Copy, Debug, PartialEq, Eq, Structural)]
pub enum PathValidationError {
    /// The path does not begin with the routing prefix.
    UnknownRoute,
    /// A `..` segment leads above the volume root.
    EscapesRoot,
    /// The path names the volume root itself.
    NoFile,
}

/// The segment `.`.
pub open spec fn dot() -> Seq<char> {
    seq!['.']
}

/// The segment `..`.
pub open spec fn dot_dot() -> Seq<char> {
    seq!['.', '.']
}

/// A segment that names a child: not empty, not `.` or `..`, no separator.
pub open spec fn is_plain_segment(seg: Seq<char>) -> bool {
    seg.len() > 0 && seg != dot() && seg != dot_dot() && is_segment(seg)
}

/// Every segment is plain.
pub open spec fn all_plain(segs: Seq<Seq<char>>) -> bool {
    forall|k: int| 0 <= k < segs.len() ==> is_plain_segment(#[trigger] segs[k])
}

/// One step of normalising: `state` is the segments kept so far, or `None`
/// once the path has left the volume.
pub open spec fn push_segment(state: Option<Seq<Seq<char>>>, seg: Seq<char>) -> Option<
    Seq<Seq<char>>,
> {
    match state {
        None => None,
        Some(kept) => if seg.len() == 0 || seg == dot() {
            Some(kept)
        } else if seg == dot_dot() {
            if kept.len() == 0 {
                None
            } else {
                Some(kept.drop_last())
            }
        } else {
            Some(kept.push(seg))
        },
    }
}

/// The segments that are left when `segs` are followed from the volume
/// root, or `None` where a `..` leads above the root at any point.
pub open spec fn resolve_segments(segs: Seq<Seq<char>>) -> Option<Seq<Seq<char>>>
    decreases segs.len(),
{
    if segs.len() == 0 {
        Some(Seq::empty())
    } else {
        push_segment(resolve_segments(segs.drop_last()), segs.last())
    }
}

/// The segments with one separator between each two.
pub open spec fn join_path(segs: Seq<Seq<char>>) -> Seq<char>
    decreases segs.len(),
{
    if segs.len() == 0 {
        Seq::empty()
    } else if segs.len() == 1 {
        segs[0]
    } else {
        join_path(segs.drop_last()) + seq![SEPARATOR] + segs.last()
    }
}

/// A normalised relative path: one plain segment or more, joined by
/// separators.
pub open spec fn is_normal_path(path: Seq<char>) -> bool {
    all_plain(split_path(path))
}

/// The key that a relative path stands for, or why it is refused.
pub open spec fn resolved_key(relative: Seq<char>) -> Result<Seq<char>, PathValidationError> {
    match resolve_segments(split_path(relative)) {
        None => Err(PathValidationError::EscapesRoot),
        Some(kept) => if kept.len() == 0 {
            Err(PathValidationError::NoFile)
        } else {
            Ok(join_path(kept))
        },
    }
}

/// The path of `key` below `root`.
pub open spec fn path_under(root: Seq<char>, key: Seq<char>) -> Seq<char> {
    root + seq![SEPARATOR] + key
}

/// Once a path has left the volume, no later segment brings it back.
pub proof fn lemma_escape_is_final(segs: Seq<Seq<char>>, n: int)
    requires
        0 <= n <= segs.len(),
        resolve_segments(segs.take(n)) is None,
    ensures
        resolve_segments(segs) is None,
    decreases segs.len() - n,
{
    if n < segs.len() {
        assert(segs.take(n + 1).drop_last() =~= segs.take(n));
        lemma_escape_is_final(segs, n + 1);
    } else {
        assert(segs.take(n) =~= segs);
    }
}

/// What is kept of separator-free segments is plain.
pub proof fn lemma_resolved_is_plain(segs: Seq<Seq<char>>)
    requires
        forall|k: int| 0 <= k < segs.len() ==> is_segment(#[trigger] segs[k]),
    ensures
        resolve_segments(segs) matches Some(kept) ==> all_plain(kept),
    decreases segs.len(),
{
    if segs.len() > 0 {
        lemma_resolved_is_plain(segs.drop_last());
    }
}

/// Plain segments are kept as they are.
pub proof fn lemma_plain_resolves_to_itself(segs: Seq<Seq<char>>)
    requires
        all_plain(segs),
    ensures
        resolve_segments(segs) == Some(segs),
    decreases segs.len(),
{
    if segs.len() > 0 {
        lemma_plain_resolves_to_itself(segs.drop_last());
        assert(segs.drop_last().push(segs.last()) =~= segs);
    }
}

/// A separator and a separator-free segment after a path add that segment
/// to its pieces.
pub proof fn lemma_split_appended(path: Seq<char>, seg: Seq<char>)
    requires
        is_segment(seg),
    ensures
        split_path(path + seq![SEPARATOR] + seg) == split_path(path).push(seg),
    decreases seg.len(),
{
    let whole = path + seq![SEPARATOR] + seg;
    lemma_split_path_pieces(path);
    if seg.len() == 0 {
        assert(whole.drop_last() =~= path);
        assert(seg =~= Seq::<char>::empty());
    } else {
        let shorter = seg.drop_last();
        lemma_split_appended(path, shorter);
        assert(whole.drop_last() =~= path + seq![SEPARATOR] + shorter);
        assert(whole.last() == seg.last());
        assert(shorter.push(seg.last()) =~= seg);
        assert(split_path(path).push(shorter).drop_last() =~= split_path(path));
    }
}

/// A separator-free segment is its own only piece.
pub proof fn lemma_split_single(seg: Seq<char>)
    requires
        is_segment(seg),
    ensures
        split_path(seg) == seq![seg],
    decreases seg.len(),
{
    if seg.len() == 0 {
        assert(seg =~= Seq::<char>::empty());
    } else {
        lemma_split_single(seg.drop_last());
        assert(seg.drop_last().push(seg.last()) =~= seg);
        assert(seq![seg.drop_last()].drop_last().push(seg) =~= seq![seg]);
    }
}

/// Joining separator-free segments and splitting the result gives the
/// segments back.
pub proof fn lemma_split_join(segs: Seq<Seq<char>>)
    requires
        segs.len() >= 1,
        forall|k: int| 0 <= k < segs.len() ==> is_segment(#[trigger] segs[k]),
    ensures
        split_path(join_path(segs)) == segs,
    decreases segs.len(),
{
    if segs.len() == 1 {
        lemma_split_single(segs[0]);
        assert(seq![segs[0]] =~= segs);
    } else {
        lemma_split_join(segs.drop_last());
        lemma_split_appended(join_path(segs.drop_last()), segs.last());
        assert(segs.drop_last().push(segs.last()) =~= segs);
    }
}

/// A key that was accepted is a normalised path, and normalising it again
/// changes nothing.
pub proof fn law_resolved_key_is_normal(relative: Seq<char>)
    ensures
        resolved_key(relative) matches Ok(key) ==> is_normal_path(key) && resolved_key(key)
            == Ok::<_, PathValidationError>(key),
{
    lemma_split_path_pieces(relative);
    lemma_resolved_is_plain(split_path(relative));
    if let Some(kept) = resolve_segments(split_path(relative)) {
        if kept.len() > 0 {
            lemma_split_join(kept);
            lemma_plain_resolves_to_itself(kept);
        }
    }
}

/// A path whose segments lead above the volume root at any point is
/// refused, whatever follows.
pub proof fn law_escape_is_refused(relative: Seq<char>, n: int)
    requires
        0 <= n <= split_path(relative).len(),
        resolve_segments(split_path(relative).take(n)) is None,
    ensures
        resolved_key(relative) == Err::<Seq<char>, _>(PathValidationError::EscapesRoot),
{
    lemma_escape_is_final(split_path(relative), n);
}

/// The segments that the ranges cut out of `chars`.
pub open spec fn ranges_view(chars: Seq<char>, ranges: Seq<(usize, usize)>) -> Seq<Seq<char>> {
    Seq::new(ranges.len(), |k: int| chars.subrange(ranges[k].0 as int, ranges[k].1 as int))
}

/// Every range lies within `chars`.
pub open spec fn ranges_fit(chars: Seq<char>, ranges: Seq<(usize, usize)>) -> bool {
    forall|k: int|
        0 <= k < ranges.len() ==> (#[trigger] ranges[k]).0 <= ranges[k].1 <= chars.len()
}

/// The state of normalising that `kept` and `escaped` stand for.
pub open spec fn state_of(chars: Seq<char>, kept: Seq<(usize, usize)>, escaped: bool) -> Option<
    Seq<Seq<char>>,
> {
    if escaped {
        None
    } else {
        Some(ranges_view(chars, kept))
    }
}

/// Takes the segment `chars[start..end]` into the state of normalising.
fn absorb(
    chars: &Vec<char>,
    kept: &mut Vec<(usize, usize)>,
    escaped: &mut bool,
    start: usize,
    end: usize,
)
    requires
        start <= end <= chars.len(),
        is_segment(chars@.subrange(start as int, end as int)),
        ranges_fit(chars@, old(kept)@),
        all_plain(ranges_view(chars@, old(kept)@)),
    ensures
        ranges_fit(chars@, final(kept)@),
        all_plain(ranges_view(chars@, final(kept)@)),
        state_of(chars@, final(kept)@, *final(escaped)) == push_segment(
            state_of(chars@, old(kept)@, *old(escaped)),
            chars@.subrange(start as int, end as int),
        ),
{
    let ghost seg = chars@.subrange(start as int, end as int);
    let ghost before = ranges_view(chars@, kept@);
    if *escaped {
        return ;
    }
    let len: usize = end - start;
    if len == 0 {
        return ;
    }
    if len == 1 && chars[start] == '.' {
        assert(seg =~= dot());
        return ;
    }
    if len == 2 && chars[start] == '.' && chars[start + 1] == '.' {
        assert(seg =~= dot_dot());
        if kept.len() == 0 {
            *escaped = true;
        } else {
            kept.pop();
            assert(ranges_view(chars@, kept@) =~= before.drop_last());
        }
        return ;
    }
    assert(seg != dot()) by {
        if seg == dot() {
            assert(seg[0] == '.');
        }
    }
    assert(seg != dot_dot()) by {
        if seg == dot_dot() {
            assert(seg[0] == '.' && seg[1] == '.');
        }
    }
    kept.push((start, end));
    assert(ranges_view(chars@, kept@) =~= before.push(seg));
}

/// A normalised path below the volume root. It names the source of a
/// thumbnail and, under the cache root, the place of the thumbnail.
#[derive(Debug)]
pub struct CacheKey {
    relative: String,
}

impl View for CacheKey {
    type V = Seq<char>;

    closed spec fn view(&self) -> Seq<char> {
        self.relative@
    }
}

impl Clone for CacheKey {
    fn clone(&self) -> (copy: Self)
        ensures
            copy@ == self@,
    {
        CacheKey { relative: self.relative.clone() }
    }
}

impl CacheKey {
    /// Normalises a path relative to the volume root.
    pub fn parse(relative: &str) -> (parsed: Result<CacheKey, PathValidationError>)
        ensures
            match parsed {
                Ok(key) => resolved_key(relative@) == Ok::<_, PathValidationError>(key@)
                    && is_normal_path(key@),
                Err(e) => resolved_key(relative@) == Err::<Seq<char>, _>(e),
            },
    {
        let chars = chars_of(relative);
        let mut kept: Vec<(usize, usize)> = Vec::new();
        let mut escaped = false;
        let mut start: usize = 0;
        let mut i: usize = 0;
        let ghost mut done: Seq<Seq<char>> = Seq::empty();
        proof {
            assert(chars@.take(0) =~= Seq::<char>::empty());
            assert(chars@.subrange(0, 0) =~= Seq::<char>::empty());
            assert(Seq::<Seq<char>>::empty().push(Seq::<char>::empty()) =~= seq![
                Seq::<char>::empty(),
            ]);
            assert(ranges_view(chars@, kept@) =~= Seq::<Seq<char>>::empty());
        }
        while i < chars.len()
            invariant
                start <= i <= chars.len(),
                chars@ == relative@,
                forall|j: int| start <= j < i ==> chars@[j] != SEPARATOR,
                split_path(chars@.take(i as int)) == done.push(
                    chars@.subrange(start as int, i as int),
                ),
                resolve_segments(done) == state_of(chars@, kept@, escaped),
                ranges_fit(chars@, kept@),
                all_plain(ranges_view(chars@, kept@)),
            decreases chars.len() - i,
        {
            let ghost seg = chars@.subrange(start as int, i as int);
            assert(chars@.take(i + 1).drop_last() =~= chars@.take(i as int));
            assert(chars@.take(i + 1).last() == chars@[i as int]);
            if chars[i] == SEPARATOR {
                absorb(&chars, &mut kept, &mut escaped, start, i);
                proof {
                    assert(done.push(seg).drop_last() =~= done);
                    done = done.push(seg);
                    assert(chars@.subrange(i + 1, i + 1) =~= Seq::<char>::empty());
                }
                start = i + 1;
            } else {
                proof {
                    assert(done.push(seg).drop_last() =~= done);
                    assert(seg.push(chars@[i as int]) =~= chars@.subrange(
                        start as int,
                        i + 1,
                    ));
                }
            }
            i += 1;
        }
        let ghost last = chars@.subrange(start as int, i as int);
        absorb(&chars, &mut kept, &mut escaped, start, i);
        proof {
            assert(chars@.take(i as int) =~= chars@);
            assert(done.push(last).drop_last() =~= done);
        }
        if escaped {
            return Err(PathValidationError::EscapesRoot);
        }
        if kept.len() == 0 {
            return Err(PathValidationError::NoFile);
        }
        let ghost segs = ranges_view(chars@, kept@);
        let mut joined = String::new();
        let mut k: usize = 0;
        proof {
            assert(segs.take(0) =~= Seq::<Seq<char>>::empty());
            reveal_strlit("/");
        }
        while k < kept.len()
            invariant
                k <= kept.len(),
                chars@ == relative@,
                segs == ranges_view(chars@, kept@),
                ranges_fit(chars@, kept@),
                joined@ == join_path(segs.take(k as int)),
                "/"@ == seq![SEPARATOR],
            decreases kept.len() - k,
        {
            let (from, to) = kept[k];
            proof {
                assert(segs.take(k + 1).drop_last() =~= segs.take(k as int));
                assert(segs.take(k + 1).last() == segs[k as int]);
            }
            if k > 0 {
                joined.append("/");
            }
            joined.append(relative.substring_char(from, to));
            proof {
                if k == 0 {
                    assert(joined@ =~= segs[0]);
                    assert(segs.take(1)[0] == segs[0]);
                }
            }
            k += 1;
        }
        proof {
            assert(segs.take(k as int) =~= segs);
            assert forall|n: int| 0 <= n < segs.len() implies is_segment(#[trigger] segs[n]) by {
                assert(is_plain_segment(segs[n]));
            }
            lemma_split_join(segs);
        }
        Ok(CacheKey { relative: joined })
    }

    /// The normalised path.
    pub fn as_str(&self) -> (path: &str)
        ensures
            path@ == self@,
    {
        self.relative.as_str()
    }

    /// The path of this key below `root`.
    pub fn under(&self, root: &str) -> (path: String)
        ensures
            path@ == path_under(root@, self@),
    {
        proof {
            reveal_strlit("/");
        }
        let mut path = String::from_str(root);
        path.append("/");
        path.append(self.relative.as_str());
        path
    }
}

} // verus!
