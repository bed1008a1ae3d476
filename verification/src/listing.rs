//! Directory entries, the image formats recognised by name, and the order
//! in which a listing is shown.

use crate::text::{
    chars_of, ends_with_ignoring_case, has_suffix_ignoring_case, last_segment, last_segment_of,
    lemma_name_le_total, lemma_name_le_transitive, name_le, name_precedes,
};
use vstd::prelude::*;
use vstd::seq_lib::to_multiset_insert;

verus! {

/// What a directory entry is.
#[derive(Clone, Copy, Debug, PartialEq, Eq, Structural)]
pub enum EntryKind {
    File,
    Directory,
}

/// The image formats that are recognised by a name's ending.
#[derive(Clone, Copy, Debug, PartialEq, Eq, Structural)]
pub enum ImageFormat {
    Jpeg,
    Png,
}

/// One child of a directory, as it was found when the directory was read.
#[derive(Debug)]
pub struct Entry {
    pub absolute_path: String,
    pub display_name: String,
    pub kind: EntryKind,
}

/// The mathematical content of an [`Entry`].
pub struct EntryView {
    pub absolute_path: Seq<char>,
    pub display_name: Seq<char>,
    pub kind: EntryKind,
}

impl View for Entry {
    type V = EntryView;

    open spec fn view(&self) -> EntryView {
        EntryView {
            absolute_path: self.absolute_path@,
            display_name: self.display_name@,
            kind: self.kind,
        }
    }
}

/// The views of a sequence of entries, in the same order.
pub open spec fn entries_view(entries: Seq<Entry>) -> Seq<EntryView> {
    entries.map_values(|e: Entry| e@)
}

/// The ending `.jpg`.
pub open spec fn jpg_suffix() -> Seq<char> {
    seq!['.', 'j', 'p', 'g']
}

/// The ending `.jpeg`.
pub open spec fn jpeg_suffix() -> Seq<char> {
    seq!['.', 'j', 'p', 'e', 'g']
}

/// The ending `.png`.
pub open spec fn png_suffix() -> Seq<char> {
    seq!['.', 'p', 'n', 'g']
}

/// The name ends in `.jpg` or `.jpeg`, in any mix of ASCII case.
pub open spec fn is_jpeg_name(name: Seq<char>) -> bool {
    ends_with_ignoring_case(name, jpg_suffix()) || ends_with_ignoring_case(name, jpeg_suffix())
}

/// The name ends in `.png`, in any mix of ASCII case.
pub open spec fn is_png_name(name: Seq<char>) -> bool {
    ends_with_ignoring_case(name, png_suffix())
}

/// The image format that a name's ending stands for, if any.
pub open spec fn image_format_of(name: Seq<char>) -> Option<ImageFormat> {
    if is_jpeg_name(name) {
        Some(ImageFormat::Jpeg)
    } else if is_png_name(name) {
        Some(ImageFormat::Png)
    } else {
        None
    }
}

impl EntryView {
    /// A file whose name marks it as an image that can be displayed.
    pub open spec fn is_image(self) -> bool {
        self.kind == EntryKind::File && image_format_of(self.display_name) is Some
    }
}

/// Every later entry's name is at or after every earlier one's.
pub open spec fn is_sorted_by_name(entries: Seq<EntryView>) -> bool {
    forall|i: int, j: int|
        0 <= i <= j < entries.len() ==> name_le(
            #[trigger] entries[i].display_name,
            #[trigger] entries[j].display_name,
        )
}

/// The place of a new name in a listing: before the first entry whose name
/// is at or after it, and at the end where there is none.
pub open spec fn insert_position(name: Seq<char>, sorted: Seq<EntryView>) -> int
    decreases sorted.len(),
{
    if sorted.len() == 0 || name_le(name, sorted[0].display_name) {
        0
    } else {
        1 + insert_position(name, sorted.drop_first())
    }
}

/// `sorted` with `e` put at its place.
pub open spec fn insert_by_name(e: EntryView, sorted: Seq<EntryView>) -> Seq<EntryView> {
    sorted.insert(insert_position(e.display_name, sorted), e)
}

/// The entries in the order of their names. Entries of one name keep the
/// order in which they were given.
pub open spec fn sorted_by_name(entries: Seq<EntryView>) -> Seq<EntryView>
    decreases entries.len(),
{
    if entries.len() == 0 {
        Seq::empty()
    } else {
        insert_by_name(entries[0], sorted_by_name(entries.drop_first()))
    }
}

/// What is left to sort, put entry by entry from its end into `acc`.
spec fn sort_onto(rest: Seq<EntryView>, acc: Seq<EntryView>) -> Seq<EntryView>
    decreases rest.len(),
{
    if rest.len() == 0 {
        acc
    } else {
        sort_onto(rest.drop_last(), insert_by_name(rest.last(), acc))
    }
}

/// The place of a name lies within the listing, after every entry that is
/// strictly before the name and at an entry that is not.
pub proof fn lemma_insert_position_bounds(name: Seq<char>, sorted: Seq<EntryView>)
    ensures
        0 <= insert_position(name, sorted) <= sorted.len(),
        forall|j: int|
            0 <= j < insert_position(name, sorted) ==> !name_le(
                name,
                #[trigger] sorted[j].display_name,
            ),
        insert_position(name, sorted) < sorted.len() ==> name_le(
            name,
            sorted[insert_position(name, sorted)].display_name,
        ),
    decreases sorted.len(),
{
    if !(sorted.len() == 0 || name_le(name, sorted[0].display_name)) {
        let tail = sorted.drop_first();
        lemma_insert_position_bounds(name, tail);
        assert forall|j: int| 0 <= j < insert_position(name, sorted) implies !name_le(
            name,
            #[trigger] sorted[j].display_name,
        ) by {
            if j > 0 {
                assert(sorted[j] == tail[j - 1]);
            }
        }
    }
}

/// The place of a name is the only index with the properties of
/// [`lemma_insert_position_bounds`].
pub proof fn lemma_insert_position_is(name: Seq<char>, sorted: Seq<EntryView>, p: int)
    requires
        0 <= p <= sorted.len(),
        forall|j: int| 0 <= j < p ==> !name_le(name, #[trigger] sorted[j].display_name),
        p < sorted.len() ==> name_le(name, sorted[p].display_name),
    ensures
        insert_position(name, sorted) == p,
    decreases sorted.len(),
{
    if p > 0 {
        let tail = sorted.drop_first();
        assert(!name_le(name, sorted[0].display_name));
        assert forall|j: int| 0 <= j < p - 1 implies !name_le(
            name,
            #[trigger] tail[j].display_name,
        ) by {
            assert(tail[j] == sorted[j + 1]);
        }
        lemma_insert_position_is(name, tail, p - 1);
    }
}

/// Putting an entry at its place keeps a sorted listing sorted, and adds
/// that entry and nothing else.
pub proof fn lemma_insert_by_name(e: EntryView, sorted: Seq<EntryView>)
    requires
        is_sorted_by_name(sorted),
    ensures
        is_sorted_by_name(insert_by_name(e, sorted)),
        insert_by_name(e, sorted).len() == sorted.len() + 1,
        insert_by_name(e, sorted).to_multiset() == sorted.to_multiset().insert(e),
{
    let p = insert_position(e.display_name, sorted);
    let after = insert_by_name(e, sorted);
    lemma_insert_position_bounds(e.display_name, sorted);
    sorted.insert_ensures(p, e);
    to_multiset_insert(sorted, p, e);
    assert forall|i: int, j: int| 0 <= i <= j < after.len() implies name_le(
        #[trigger] after[i].display_name,
        #[trigger] after[j].display_name,
    ) by {
        let a = after[i].display_name;
        let b = after[j].display_name;
        if i == j {
            crate::text::lemma_name_le_reflexive(a);
        } else if j < p {
            assert(after[i] == sorted[i] && after[j] == sorted[j]);
        } else if j == p {
            assert(after[i] == sorted[i]);
            lemma_name_le_total(e.display_name, sorted[i].display_name);
        } else if i < p {
            assert(after[i] == sorted[i] && after[j] == sorted[j - 1]);
        } else if i == p {
            assert(after[j] == sorted[j - 1]);
            lemma_name_le_transitive(
                e.display_name,
                sorted[p].display_name,
                sorted[j - 1].display_name,
            );
        } else {
            assert(after[i] == sorted[i - 1] && after[j] == sorted[j - 1]);
        }
    }
}

/// The sorted listing is in name order and holds exactly the entries given,
/// each as often as it was given.
pub proof fn lemma_sorted_by_name(entries: Seq<EntryView>)
    ensures
        is_sorted_by_name(sorted_by_name(entries)),
        sorted_by_name(entries).len() == entries.len(),
        sorted_by_name(entries).to_multiset() == entries.to_multiset(),
    decreases entries.len(),
{
    if entries.len() == 0 {
        assert(entries =~= Seq::empty());
    } else {
        let tail = entries.drop_first();
        lemma_sorted_by_name(tail);
        lemma_insert_by_name(entries[0], sorted_by_name(tail));
        to_multiset_insert(tail, 0, entries[0]);
        assert(tail.insert(0, entries[0]) =~= entries);
    }
}

proof fn lemma_sort_onto(rest: Seq<EntryView>, tail: Seq<EntryView>)
    ensures
        sort_onto(rest, sorted_by_name(tail)) == sorted_by_name(rest + tail),
    decreases rest.len(),
{
    if rest.len() == 0 {
        assert(rest + tail =~= tail);
    } else {
        let joined = seq![rest.last()] + tail;
        assert(joined[0] == rest.last());
        assert(joined.drop_first() =~= tail);
        assert(sorted_by_name(joined) == insert_by_name(rest.last(), sorted_by_name(tail)));
        lemma_sort_onto(rest.drop_last(), joined);
        assert(rest.drop_last() + joined =~= rest + tail);
    }
}

impl Clone for Entry {
    fn clone(&self) -> (copy: Self)
        ensures
            copy@ == self@,
    {
        Entry {
            absolute_path: self.absolute_path.clone(),
            display_name: self.display_name.clone(),
            kind: self.kind,
        }
    }
}

impl Entry {
    /// An entry that is shown under the last segment of its path.
    pub fn new(absolute_path: String, kind: EntryKind) -> (e: Entry)
        ensures
            e@ == (EntryView {
                absolute_path: absolute_path@,
                display_name: last_segment(absolute_path@),
                kind,
            }),
    {
        let display_name = last_segment_of(absolute_path.as_str());
        Entry { absolute_path, display_name, kind }
    }

    /// Whether this is a file whose name marks it as a displayable image.
    pub fn is_image(&self) -> (b: bool)
        ensures
            b == self@.is_image(),
    {
        match self.kind {
            EntryKind::Directory => false,
            EntryKind::File => image_format(self.display_name.as_str()).is_some(),
        }
    }
}

/// Decides [`is_jpeg_name`].
pub fn has_jpeg_name(name: &str) -> (b: bool)
    ensures
        b == is_jpeg_name(name@),
{
    let chars = chars_of(name);
    let jpg: Vec<char> = vec!['.', 'j', 'p', 'g'];
    let jpeg: Vec<char> = vec!['.', 'j', 'p', 'e', 'g'];
    assert(jpg@ =~= jpg_suffix());
    assert(jpeg@ =~= jpeg_suffix());
    has_suffix_ignoring_case(&chars, &jpg) || has_suffix_ignoring_case(&chars, &jpeg)
}

/// Decides [`is_png_name`].
pub fn has_png_name(name: &str) -> (b: bool)
    ensures
        b == is_png_name(name@),
{
    let chars = chars_of(name);
    let png: Vec<char> = vec!['.', 'p', 'n', 'g'];
    assert(png@ =~= png_suffix());
    has_suffix_ignoring_case(&chars, &png)
}

/// Computes [`image_format_of`].
pub fn image_format(name: &str) -> (format: Option<ImageFormat>)
    ensures
        format == image_format_of(name@),
{
    if has_jpeg_name(name) {
        Some(ImageFormat::Jpeg)
    } else if has_png_name(name) {
        Some(ImageFormat::Png)
    } else {
        None
    }
}

/// Sorts a listing by name. Computes [`sorted_by_name`].
pub fn sort_by_name(entries: Vec<Entry>) -> (out: Vec<Entry>)
    ensures
        entries_view(out@) == sorted_by_name(entries_view(entries@)),
        is_sorted_by_name(entries_view(out@)),
        out.len() == entries.len(),
        entries_view(out@).to_multiset() == entries_view(entries@).to_multiset(),
{
    let ghost all = entries_view(entries@);
    let mut rest = entries;
    let mut out: Vec<Entry> = Vec::new();
    proof {
        lemma_sort_onto(all, Seq::empty());
        assert(all + Seq::<EntryView>::empty() =~= all);
        assert(entries_view(out@) =~= Seq::<EntryView>::empty());
        assert(sorted_by_name(Seq::<EntryView>::empty()) =~= Seq::<EntryView>::empty());
    }
    while rest.len() > 0
        invariant
            sort_onto(entries_view(rest@), entries_view(out@)) == sorted_by_name(all),
        decreases rest.len(),
    {
        let ghost rest_before = entries_view(rest@);
        let ghost out_before = entries_view(out@);
        let e = rest.pop().unwrap();
        let key = chars_of(e.display_name.as_str());
        let mut p: usize = 0;
        let mut found = false;
        while p < out.len() && !found
            invariant
                p <= out.len(),
                key@ == e@.display_name,
                out_before == entries_view(out@),
                forall|j: int| 0 <= j < p ==> !name_le(key@, #[trigger] out_before[j].display_name),
                found ==> p < out.len() && name_le(key@, out_before[p as int].display_name),
            decreases out.len() - p + (if found { 0int } else { 1int }),
        {
            let other = chars_of(out[p].display_name.as_str());
            assert(out_before[p as int] == out@[p as int]@);
            if name_precedes(&key, &other) {
                found = true;
            } else {
                p += 1;
            }
        }
        out.insert(p, e);
        proof {
            lemma_insert_position_is(key@, out_before, p as int);
            assert(entries_view(out@) =~= insert_by_name(e@, out_before));
            assert(rest_before.last() == e@);
            assert(entries_view(rest@) =~= rest_before.drop_last());
        }
    }
    proof {
        lemma_sorted_by_name(all);
    }
    out
}

} // verus!
