//! The browsing location: a stack of directories, the listing of the one
//! on top, and the message of the last failed read.
//!
//! Reading a directory is left to the caller. A step that moves to another
//! directory answers with [`Action::ReadDirectory`]; the caller reads that
//! directory and reports what came of it with [`Files::finish_reload`].

use crate::listing::{
    entries_view, has_jpeg_name, has_png_name, is_jpeg_name, is_png_name, is_sorted_by_name,
    lemma_sorted_by_name, sort_by_name, sorted_by_name, Entry, EntryKind, EntryView,
};
use vstd::prelude::*;

verus! {

/// A directory counts as a photo directory when it holds more entries of one
/// image format than this.
pub const IMAGE_DIR_THRESHOLD: usize = 3;

/// What the caller has to do after a step.
#[derive(Debug)]
pub enum Action {
    /// Nothing.
    Idle,
    /// Read the directory at this path and report with `finish_reload`.
    ReadDirectory(String),
    /// Show the image at this path.
    OpenViewer(String),
}

/// The mathematical content of an [`Action`].
pub enum ActionView {
    Idle,
    ReadDirectory(Seq<char>),
    OpenViewer(Seq<char>),
}

impl View for Action {
    type V = ActionView;

    open spec fn view(&self) -> ActionView {
        match self {
            Action::Idle => ActionView::Idle,
            Action::ReadDirectory(path) => ActionView::ReadDirectory(path@),
            Action::OpenViewer(path) => ActionView::OpenViewer(path@),
        }
    }
}

/// The browsing state.
#[derive(Debug)]
pub struct Files {
    path_stack: Vec<String>,
    listing: Vec<Entry>,
    err: Option<String>,
}

/// The mathematical content of a [`Files`].
pub struct FilesView {
    /// The directories entered, the volume root first, the current one last.
    pub path_stack: Seq<Seq<char>>,
    /// The children of a directory, as they were last read.
    pub listing: Seq<EntryView>,
    /// The message of the last failed read, until it is cleared.
    pub error: Option<Seq<char>>,
}

/// The views of a sequence of paths, in the same order.
pub open spec fn paths_view(paths: Seq<String>) -> Seq<Seq<char>> {
    paths.map_values(|p: String| p@)
}

/// The view of an optional text.
pub open spec fn text_view(text: Option<String>) -> Option<Seq<char>> {
    match text {
        Some(t) => Some(t@),
        None => None,
    }
}

/// What every error message begins with.
pub open spec fn error_prefix() -> Seq<char> {
    "An error occured: "@
}

/// The message shown for a failed read, given what the failure said.
pub open spec fn error_message(detail: Seq<char>) -> Seq<char> {
    error_prefix() + detail
}

/// The entries whose name marks them as JPEG.
pub open spec fn jpeg_named() -> spec_fn(EntryView) -> bool {
    |e: EntryView| is_jpeg_name(e.display_name)
}

/// The entries whose name marks them as PNG.
pub open spec fn png_named() -> spec_fn(EntryView) -> bool {
    |e: EntryView| is_png_name(e.display_name)
}

impl FilesView {
    /// The state right after a volume was chosen: nothing read yet.
    pub open spec fn at(root: Seq<char>) -> FilesView {
        FilesView { path_stack: seq![root], listing: Seq::empty(), error: None }
    }

    /// The stack is never empty: the volume root cannot be left.
    pub open spec fn wf(self) -> bool {
        self.path_stack.len() >= 1
    }

    /// The current directory.
    pub open spec fn current(self) -> Seq<char> {
        self.path_stack.last()
    }

    /// Entering the entry at `index`: a directory becomes the current one
    /// and is to be read; an image file is to be shown; anything else, and
    /// an index outside the listing, changes nothing.
    pub open spec fn enter_item(self, index: int) -> (FilesView, ActionView) {
        if 0 <= index < self.listing.len() {
            let entry = self.listing[index];
            if entry.kind == EntryKind::Directory {
                (
                    FilesView { path_stack: self.path_stack.push(entry.absolute_path), ..self },
                    ActionView::ReadDirectory(entry.absolute_path),
                )
            } else if entry.is_image() {
                (self, ActionView::OpenViewer(entry.absolute_path))
            } else {
                (self, ActionView::Idle)
            }
        } else {
            (self, ActionView::Idle)
        }
    }

    /// Going up: the parent becomes the current directory and is to be
    /// read. At the volume root nothing happens.
    pub open spec fn go_up(self) -> (FilesView, ActionView) {
        if self.path_stack.len() > 1 {
            let parents = self.path_stack.drop_last();
            (FilesView { path_stack: parents, ..self }, ActionView::ReadDirectory(parents.last()))
        } else {
            (self, ActionView::Idle)
        }
    }

    /// A read of the current directory succeeded with these children.
    pub open spec fn loaded(self, children: Seq<EntryView>) -> FilesView {
        FilesView { listing: sorted_by_name(children), error: None, ..self }
    }

    /// A read of the current directory failed: the state falls back by one
    /// level, unless it is at the volume root, and keeps its listing.
    pub open spec fn failed(self, detail: Seq<char>) -> FilesView {
        FilesView {
            path_stack: if self.path_stack.len() > 1 {
                self.path_stack.drop_last()
            } else {
                self.path_stack
            },
            error: Some(error_message(detail)),
            ..self
        }
    }

    /// The state without its error message.
    pub open spec fn cleared(self) -> FilesView {
        FilesView { error: None, ..self }
    }

    /// How many entries are named as JPEG images.
    pub open spec fn jpeg_count(self) -> nat {
        self.listing.filter(jpeg_named()).len()
    }

    /// How many entries are named as PNG images.
    pub open spec fn png_count(self) -> nat {
        self.listing.filter(png_named()).len()
    }

    /// More than three entries of one image format.
    pub open spec fn is_image_dir(self) -> bool {
        self.jpeg_count() > IMAGE_DIR_THRESHOLD || self.png_count() > IMAGE_DIR_THRESHOLD
    }
}

/// Entering a directory and reading it with success makes it the current
/// directory, with its children in name order as the listing and no error.
pub proof fn law_enter_then_load(state: FilesView, index: int, children: Seq<EntryView>)
    requires
        state.wf(),
        0 <= index < state.listing.len(),
        state.listing[index].kind == EntryKind::Directory,
    ensures
        ({
            let (entered, action) = state.enter_item(index);
            let after = entered.loaded(children);
            &&& action == ActionView::ReadDirectory(state.listing[index].absolute_path)
            &&& after.wf()
            &&& after.current() == state.listing[index].absolute_path
            &&& after.listing == sorted_by_name(children)
            &&& is_sorted_by_name(after.listing)
            &&& after.listing.to_multiset() == children.to_multiset()
            &&& after.error is None
        }),
{
    lemma_sorted_by_name(children);
}

/// Going up from the volume root changes nothing and asks for nothing,
/// however often it is done.
pub proof fn law_go_up_at_root(state: FilesView)
    requires
        state.wf(),
        state.path_stack.len() == 1,
    ensures
        state.go_up() == (state, ActionView::Idle),
        state.go_up().0.go_up() == state.go_up(),
{
}

/// No step empties the stack.
pub proof fn law_stack_never_empty(
    state: FilesView,
    index: int,
    children: Seq<EntryView>,
    detail: Seq<char>,
)
    requires
        state.wf(),
    ensures
        state.enter_item(index).0.wf(),
        state.go_up().0.wf(),
        state.loaded(children).wf(),
        state.failed(detail).wf(),
        state.cleared().wf(),
{
}

impl View for Files {
    type V = FilesView;

    closed spec fn view(&self) -> FilesView {
        FilesView {
            path_stack: paths_view(self.path_stack@),
            listing: entries_view(self.listing@),
            error: text_view(self.err),
        }
    }
}

impl Files {
    /// The state at a volume root, before its first read.
    pub fn new(start: String) -> (files: Files)
        ensures
            files@ == FilesView::at(start@),
            files@.wf(),
    {
        let mut path_stack: Vec<String> = Vec::new();
        path_stack.push(start);
        let files = Files { path_stack, listing: Vec::new(), err: None };
        assert(files@.path_stack =~= seq![start@]);
        assert(files@.listing =~= Seq::empty());
        files
    }

    /// Asks for a read of the current directory.
    pub fn reload_path_list(&self) -> (action: Action)
        requires
            self@.wf(),
        ensures
            action@ == ActionView::ReadDirectory(self@.current()),
    {
        let top = &self.path_stack[self.path_stack.len() - 1];
        Action::ReadDirectory(top.clone())
    }

    /// Takes in what a read of the current directory came to: its children,
    /// or what the failure said.
    pub fn finish_reload(&mut self, outcome: Result<Vec<Entry>, String>)
        requires
            old(self)@.wf(),
        ensures
            final(self)@.wf(),
            final(self)@ == match outcome {
                Ok(children) => old(self)@.loaded(entries_view(children@)),
                Err(detail) => old(self)@.failed(detail@),
            },
    {
        match outcome {
            Ok(children) => {
                self.listing = sort_by_name(children);
                self.err = None;
            },
            Err(detail) => {
                let mut message = String::from_str("An error occured: ");
                message.append(detail.as_str());
                self.err = Some(message);
                if self.path_stack.len() > 1 {
                    self.path_stack.pop();
                    assert(paths_view(self.path_stack@) =~= old(self)@.path_stack.drop_last());
                }
            },
        }
    }

    /// Whether the listing looks like a directory of photos.
    pub fn cur_dir_is_image_dir(&self) -> (heavy: bool)
        ensures
            heavy == self@.is_image_dir(),
    {
        let ghost listing = entries_view(self.listing@);
        let mut jpg_count: usize = 0;
        let mut png_count: usize = 0;
        let mut i: usize = 0;
        assert(listing.take(0) =~= Seq::empty());
        assert(listing.take(0).filter(jpeg_named()).len() == 0) by {
            reveal(Seq::filter);
        }
        assert(listing.take(0).filter(png_named()).len() == 0) by {
            reveal(Seq::filter);
        }
        while i < self.listing.len()
            invariant
                i <= self.listing.len(),
                listing == entries_view(self.listing@),
                jpg_count <= i,
                png_count <= i,
                jpg_count == listing.take(i as int).filter(jpeg_named()).len(),
                png_count == listing.take(i as int).filter(png_named()).len(),
            decreases self.listing.len() - i,
        {
            let name = self.listing[i].display_name.as_str();
            assert(listing[i as int].display_name == name@);
            proof {
                let seen = listing.take(i as int);
                assert(listing.take(i + 1) =~= seen.push(listing[i as int]));
                seen.lemma_filter_len_push(jpeg_named(), listing[i as int]);
                seen.lemma_filter_len_push(png_named(), listing[i as int]);
                assert(jpeg_named()(listing[i as int]) == is_jpeg_name(name@));
                assert(png_named()(listing[i as int]) == is_png_name(name@));
            }
            if has_jpeg_name(name) {
                jpg_count += 1;
            }
            if has_png_name(name) {
                png_count += 1;
            }
            i += 1;
        }
        assert(listing.take(i as int) =~= listing);
        jpg_count > IMAGE_DIR_THRESHOLD || png_count > IMAGE_DIR_THRESHOLD
    }

    /// Leaves the current directory for its parent.
    pub fn go_up(&mut self) -> (action: Action)
        requires
            old(self)@.wf(),
        ensures
            final(self)@.wf(),
            (final(self)@, action@) == old(self)@.go_up(),
    {
        if self.path_stack.len() > 1 {
            self.path_stack.pop();
            assert(paths_view(self.path_stack@) =~= old(self)@.path_stack.drop_last());
            let top = &self.path_stack[self.path_stack.len() - 1];
            Action::ReadDirectory(top.clone())
        } else {
            Action::Idle
        }
    }

    /// Enters the entry at `index` of the listing.
    pub fn enter_item(&mut self, index: usize) -> (action: Action)
        requires
            old(self)@.wf(),
        ensures
            final(self)@.wf(),
            (final(self)@, action@) == old(self)@.enter_item(index as int),
    {
        if index >= self.listing.len() {
            return Action::Idle;
        }
        let entry = &self.listing[index];
        assert(entry@ == old(self)@.listing[index as int]);
        match entry.kind {
            EntryKind::Directory => {
                let path = entry.absolute_path.clone();
                self.path_stack.push(path.clone());
                assert(paths_view(self.path_stack@) =~= old(self)@.path_stack.push(path@));
                Action::ReadDirectory(path)
            },
            EntryKind::File => {
                if entry.is_image() {
                    Action::OpenViewer(entry.absolute_path.clone())
                } else {
                    Action::Idle
                }
            },
        }
    }

    /// The current directory.
    pub fn current(&self) -> (path: &str)
        requires
            self@.wf(),
        ensures
            path@ == self@.current(),
    {
        self.path_stack[self.path_stack.len() - 1].as_str()
    }

    /// Drops the error message and nothing else.
    pub fn clear_err(&mut self)
        ensures
            final(self)@ == old(self)@.cleared(),
    {
        self.err = None;
    }

    /// The listing of the directory that was last read with success.
    pub fn listing(&self) -> (entries: &Vec<Entry>)
        ensures
            entries_view(entries@) == self@.listing,
    {
        &self.listing
    }

    /// The message of the last failed read, if it was not cleared since.
    pub fn err(&self) -> (message: &Option<String>)
        ensures
            text_view(*message) == self@.error,
    {
        &self.err
    }

    /// How many directories deep the current one lies, the volume root
    /// counting as one.
    pub fn depth(&self) -> (n: usize)
        ensures
            n == self@.path_stack.len(),
    {
        self.path_stack.len()
    }
}

} // verus!
