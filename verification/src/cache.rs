//! The thumbnail cache: where a thumbnail lies on disk, and the steps by
//! which one is fetched or generated.
//!
//! The cache mirrors the volume: the thumbnail of the source at
//! `volume_root/key` lies at `cache_root/key`. Files are read and written by
//! the caller. A [`Generation`] tells the caller one [`Step`] at a time what
//! to do, and takes what came of it as an [`Event`].

use crate::codec::{DecodeError, EncodeError, PixelBuffer, PixelBufferView};
use crate::text::{lemma_suffix_stays_in_dir, parent_dir, parent_of};
use crate::vpath::{path_under, CacheKey};
use vstd::prelude::*;

verus! {

/// Why no thumbnail could be served.
#[derive(Clone, Copy, Debug, PartialEq, Eq, Structural)]
pub enum PipelineError {
    /// The source could not be turned into pixels.
    Decode(DecodeError),
    /// The pixels could not be turned into a JPEG file.
    Encode(EncodeError),
    /// The thumbnail could not be written to the cache.
    Store,
    /// An event came that the step before it did not ask for.
    OutOfTurn,
}

/// How far the generation of a thumbnail has come.
#[derive(Clone, Copy, Debug, PartialEq, Eq, Structural)]
pub enum Phase {
    /// The cache is being looked up.
    Lookup,
    /// The source is being read and decoded.
    Load,
    /// The thumbnail is being written.
    Store,
    /// What a failed write left behind is being removed.
    Discard,
    /// The outcome is known.
    Done,
}

/// What the caller has to do next.
#[derive(Debug)]
pub enum Step {
    /// Read the file at `cache_path`, if there is one, and report with
    /// [`Event::CacheRead`].
    ReadCache { cache_path: String },
    /// Make sure the directory `cache_dir` exists, read and decode the file
    /// at `source_path`, and report with [`Event::SourceLoaded`].
    LoadSource { source_path: String, cache_dir: String },
    /// Write `bytes` to `temp_path`, move that file to `cache_path` in one
    /// step, and report with [`Event::Stored`].
    Store { temp_path: String, cache_path: String, bytes: Vec<u8> },
    /// Remove the file at `temp_path`, if there is one, and report with
    /// [`Event::Discarded`].
    Discard { temp_path: String },
    /// Nothing: this is the outcome.
    Done(Result<Vec<u8>, PipelineError>),
}

/// What came of a step.
#[derive(Debug)]
pub enum Event {
    /// The bytes of the cache entry, or `None` where there is no entry.
    CacheRead(Option<Vec<u8>>),
    /// The decoded source, or why there is none.
    SourceLoaded(Result<PixelBuffer, DecodeError>),
    /// Whether the thumbnail now lies at its place in the cache.
    Stored(bool),
    /// The temporary file is gone.
    Discarded,
}

/// The mathematical content of a [`Step`].
pub enum StepView {
    ReadCache { cache_path: Seq<char> },
    LoadSource { source_path: Seq<char>, cache_dir: Seq<char> },
    Store { temp_path: Seq<char>, cache_path: Seq<char>, bytes: Seq<u8> },
    Discard { temp_path: Seq<char> },
    Done(Result<Seq<u8>, PipelineError>),
}

/// The mathematical content of an [`Event`].
pub enum EventView {
    CacheRead(Option<Seq<u8>>),
    SourceLoaded(Result<PixelBufferView, DecodeError>),
    Stored(bool),
    Discarded,
}

impl View for Step {
    type V = StepView;

    open spec fn view(&self) -> StepView {
        match self {
            Step::ReadCache { cache_path } => StepView::ReadCache { cache_path: cache_path@ },
            Step::LoadSource { source_path, cache_dir } => StepView::LoadSource {
                source_path: source_path@,
                cache_dir: cache_dir@,
            },
            Step::Store { temp_path, cache_path, bytes } => StepView::Store {
                temp_path: temp_path@,
                cache_path: cache_path@,
                bytes: bytes@,
            },
            Step::Discard { temp_path } => StepView::Discard { temp_path: temp_path@ },
            Step::Done(Ok(bytes)) => StepView::Done(Ok(bytes@)),
            Step::Done(Err(e)) => StepView::Done(Err(*e)),
        }
    }
}

impl View for Event {
    type V = EventView;

    open spec fn view(&self) -> EventView {
        match self {
            Event::CacheRead(Some(bytes)) => EventView::CacheRead(Some(bytes@)),
            Event::CacheRead(None) => EventView::CacheRead(None),
            Event::SourceLoaded(Ok(image)) => EventView::SourceLoaded(Ok(image@)),
            Event::SourceLoaded(Err(e)) => EventView::SourceLoaded(Err(*e)),
            Event::Stored(done) => EventView::Stored(*done),
            Event::Discarded => EventView::Discarded,
        }
    }
}

/// What the name of a temporary file ends in.
pub open spec fn temp_suffix() -> Seq<char> {
    seq!['.', 'p', 'a', 'r', 't']
}

/// The temporary file that a thumbnail is written to before it is moved
/// to `cache_path`.
pub open spec fn temp_path_for(cache_path: Seq<char>) -> Seq<char> {
    cache_path + temp_suffix()
}

/// The mathematical content of a [`ThumbnailCache`].
pub struct CacheView {
    pub volume_root: Seq<char>,
    pub cache_root: Seq<char>,
    pub target_width: usize,
    pub target_height: usize,
}

/// The mathematical content of a [`Generation`].
pub struct GenerationView {
    pub source_path: Seq<char>,
    pub cache_path: Seq<char>,
    pub target_width: usize,
    pub target_height: usize,
    pub phase: Phase,
    /// The encoded thumbnail while it is being stored; empty otherwise.
    pub pending: Seq<u8>,
}

impl CacheView {
    /// Where the source of `key` lies.
    pub open spec fn source_path(self, key: Seq<char>) -> Seq<char> {
        path_under(self.volume_root, key)
    }

    /// Where the thumbnail of `key` lies.
    pub open spec fn cache_path(self, key: Seq<char>) -> Seq<char> {
        path_under(self.cache_root, key)
    }

    /// The beginning of a fetch: the cache is to be looked up.
    pub open spec fn get_or_create(self, key: Seq<char>) -> (GenerationView, StepView) {
        (
            GenerationView {
                source_path: self.source_path(key),
                cache_path: self.cache_path(key),
                target_width: self.target_width,
                target_height: self.target_height,
                phase: Phase::Lookup,
                pending: Seq::empty(),
            },
            StepView::ReadCache { cache_path: self.cache_path(key) },
        )
    }
}

impl GenerationView {
    /// The same generation with its outcome known.
    pub open spec fn finished(self) -> GenerationView {
        GenerationView { phase: Phase::Done, pending: Seq::empty(), ..self }
    }

    /// The thumbnail of a decoded source, or why there is none.
    pub open spec fn thumbnail(self, image: PixelBufferView) -> Result<Seq<u8>, EncodeError> {
        image.encoded(Some(self.target_width), Some(self.target_height))
    }

    /// The state and the step that follow an event.
    ///
    /// A cache entry is served as it is. Without one the source is loaded,
    /// resampled to the target size and encoded, and the result is stored
    /// by way of a temporary file beside its place. Whatever fails ends
    /// the generation; only a failed write leaves a file to remove first.
    pub open spec fn advance(self, event: EventView) -> (GenerationView, StepView) {
        match (self.phase, event) {
            (Phase::Lookup, EventView::CacheRead(Some(bytes))) => (
                self.finished(),
                StepView::Done(Ok(bytes)),
            ),
            (Phase::Lookup, EventView::CacheRead(None)) => (
                GenerationView { phase: Phase::Load, ..self },
                StepView::LoadSource {
                    source_path: self.source_path,
                    cache_dir: parent_dir(self.cache_path),
                },
            ),
            (Phase::Load, EventView::SourceLoaded(Err(e))) => (
                self.finished(),
                StepView::Done(Err(PipelineError::Decode(e))),
            ),
            (Phase::Load, EventView::SourceLoaded(Ok(image))) => match self.thumbnail(image) {
                Ok(bytes) => (
                    GenerationView { phase: Phase::Store, pending: bytes, ..self },
                    StepView::Store {
                        temp_path: temp_path_for(self.cache_path),
                        cache_path: self.cache_path,
                        bytes,
                    },
                ),
                Err(e) => (self.finished(), StepView::Done(Err(PipelineError::Encode(e)))),
            },
            (Phase::Store, EventView::Stored(true)) => (
                self.finished(),
                StepView::Done(Ok(self.pending)),
            ),
            (Phase::Store, EventView::Stored(false)) => (
                GenerationView { phase: Phase::Discard, pending: Seq::empty(), ..self },
                StepView::Discard { temp_path: temp_path_for(self.cache_path) },
            ),
            (Phase::Discard, EventView::Discarded) => (
                self.finished(),
                StepView::Done(Err(PipelineError::Store)),
            ),
            _ => (self.finished(), StepView::Done(Err(PipelineError::OutOfTurn))),
        }
    }
}

/// A fetch whose cache entry exists is answered with the entry's bytes as
/// they are, and writes nothing.
pub proof fn law_hit_serves_entry(cache: CacheView, key: Seq<char>, entry: Seq<u8>)
    ensures
        cache.get_or_create(key).0.advance(EventView::CacheRead(Some(entry))).1 == StepView::Done(
            Ok(entry),
        ),
{
}

/// Fetching twice gives the same bytes: what the first fetch stored and
/// returned is what the second finds in the cache and returns. Two fetches
/// that both miss agree as well, their source being the same.
pub proof fn law_fetch_is_repeatable(cache: CacheView, key: Seq<char>, image: PixelBufferView)
    ensures
        ({
            let (lookup, _) = cache.get_or_create(key);
            let (load, _) = lookup.advance(EventView::CacheRead(None));
            let (store, to_store) = load.advance(EventView::SourceLoaded(Ok(image)));
            to_store matches StepView::Store { temp_path, cache_path, bytes } ==> {
                &&& cache_path == cache.cache_path(key)
                &&& store.advance(EventView::Stored(true)).1 == StepView::Done(Ok(bytes))
                &&& lookup.advance(EventView::CacheRead(Some(bytes))).1 == StepView::Done(
                    Ok(bytes),
                )
                &&& load.thumbnail(image) == Ok::<_, EncodeError>(bytes)
            }
        }),
{
}

/// Where encoding fails, the generation ends with the failure at once: no
/// step before or after it writes to the cache.
pub proof fn law_failed_encode_writes_nothing(
    cache: CacheView,
    key: Seq<char>,
    image: PixelBufferView,
    e: EncodeError,
)
    requires
        cache.get_or_create(key).0.thumbnail(image) == Err::<Seq<u8>, _>(e),
    ensures
        ({
            let (lookup, first) = cache.get_or_create(key);
            let (load, second) = lookup.advance(EventView::CacheRead(None));
            let (_, third) = load.advance(EventView::SourceLoaded(Ok(image)));
            &&& first is ReadCache
            &&& second is LoadSource
            &&& third == StepView::Done(Err(PipelineError::Encode(e)))
        }),
{
}

/// A thumbnail is only ever written to a temporary file that lies in the
/// directory of its place in the cache and is not that place, and a write
/// that fails is followed by the removal of that file.
pub proof fn law_store_is_atomic(generation: GenerationView, event: EventView)
    ensures
        generation.advance(event).1 matches StepView::Store { temp_path, cache_path, bytes } ==> {
            &&& cache_path == generation.cache_path
            &&& temp_path != cache_path
            &&& parent_dir(temp_path) == parent_dir(cache_path)
            &&& generation.advance(event).0.advance(EventView::Stored(false)).1
                == (StepView::Discard { temp_path })
            &&& generation.advance(event).0.advance(EventView::Stored(false)).0.advance(
                EventView::Discarded,
            ).1 == StepView::Done(Err(PipelineError::Store))
        },
{
    assert(temp_path_for(generation.cache_path).len() == generation.cache_path.len() + 5);
    lemma_suffix_stays_in_dir(generation.cache_path, temp_suffix());
}

/// Where thumbnails are kept, what they are made of, and how large.
#[derive(Debug)]
pub struct ThumbnailCache {
    volume_root: String,
    cache_root: String,
    target_width: usize,
    target_height: usize,
}

impl View for ThumbnailCache {
    type V = CacheView;

    closed spec fn view(&self) -> CacheView {
        CacheView {
            volume_root: self.volume_root@,
            cache_root: self.cache_root@,
            target_width: self.target_width,
            target_height: self.target_height,
        }
    }
}

/// One fetch of a thumbnail, from the lookup to its outcome.
#[derive(Debug)]
pub struct Generation {
    source_path: String,
    cache_path: String,
    target_width: usize,
    target_height: usize,
    phase: Phase,
    pending: Vec<u8>,
}

impl View for Generation {
    type V = GenerationView;

    closed spec fn view(&self) -> GenerationView {
        GenerationView {
            source_path: self.source_path@,
            cache_path: self.cache_path@,
            target_width: self.target_width,
            target_height: self.target_height,
            phase: self.phase,
            pending: self.pending@,
        }
    }
}

/// A copy of `bytes`.
fn copy_of(bytes: &Vec<u8>) -> (copy: Vec<u8>)
    ensures
        copy@ == bytes@,
{
    let mut copy: Vec<u8> = Vec::new();
    let mut i: usize = 0;
    while i < bytes.len()
        invariant
            i <= bytes.len(),
            copy@ == bytes@.take(i as int),
        decreases bytes.len() - i,
    {
        copy.push(bytes[i]);
        assert(bytes@.take(i + 1) =~= bytes@.take(i as int).push(bytes@[i as int]));
        i += 1;
    }
    assert(bytes@.take(bytes.len() as int) =~= bytes@);
    copy
}

impl ThumbnailCache {
    /// A cache under `cache_root` for the volume at `volume_root`, with
    /// thumbnails of `target_width` by `target_height`.
    pub fn new(
        volume_root: String,
        cache_root: String,
        target_width: usize,
        target_height: usize,
    ) -> (cache: ThumbnailCache)
        ensures
            cache@ == (CacheView {
                volume_root: volume_root@,
                cache_root: cache_root@,
                target_width,
                target_height,
            }),
    {
        ThumbnailCache { volume_root, cache_root, target_width, target_height }
    }

    /// The root of the volume whose photos are shown.
    pub fn volume_root(&self) -> (root: &str)
        ensures
            root@ == self@.volume_root,
    {
        self.volume_root.as_str()
    }

    /// The root of the cache.
    pub fn cache_root(&self) -> (root: &str)
        ensures
            root@ == self@.cache_root,
    {
        self.cache_root.as_str()
    }

    /// Where the source of `key` lies.
    pub fn source_path(&self, key: &CacheKey) -> (path: String)
        ensures
            path@ == self@.source_path(key@),
    {
        key.under(self.volume_root.as_str())
    }

    /// Where the thumbnail of `key` lies.
    pub fn cache_path(&self, key: &CacheKey) -> (path: String)
        ensures
            path@ == self@.cache_path(key@),
    {
        key.under(self.cache_root.as_str())
    }

    /// Begins the fetch of the thumbnail of `key`.
    pub fn get_or_create(&self, key: &CacheKey) -> (begun: (Generation, Step))
        ensures
            (begun.0@, begun.1@) == self@.get_or_create(key@),
    {
        let cache_path = self.cache_path(key);
        let generation = Generation {
            source_path: self.source_path(key),
            cache_path: cache_path.clone(),
            target_width: self.target_width,
            target_height: self.target_height,
            phase: Phase::Lookup,
            pending: Vec::new(),
        };
        (generation, Step::ReadCache { cache_path })
    }
}

impl Generation {
    /// How far this generation has come.
    pub fn phase(&self) -> (phase: Phase)
        ensures
            phase == self@.phase,
    {
        self.phase
    }

    /// The temporary file of this generation.
    fn temp_path(&self) -> (path: String)
        ensures
            path@ == temp_path_for(self@.cache_path),
    {
        proof {
            reveal_strlit(".part");
            assert(".part"@ =~= temp_suffix());
        }
        let mut path = self.cache_path.clone();
        path.append(".part");
        path
    }

    /// Ends the generation with `outcome`.
    fn finish(&mut self, outcome: Result<Vec<u8>, PipelineError>) -> (step: Step)
        ensures
            final(self)@ == old(self)@.finished(),
            step == Step::Done(outcome),
    {
        self.phase = Phase::Done;
        self.pending = Vec::new();
        Step::Done(outcome)
    }

    /// Takes in what came of the last step and says what to do next.
    pub fn advance(&mut self, event: Event) -> (step: Step)
        ensures
            (final(self)@, step@) == old(self)@.advance(event@),
    {
        match (self.phase, event) {
            (Phase::Lookup, Event::CacheRead(Some(bytes))) => self.finish(Ok(bytes)),
            (Phase::Lookup, Event::CacheRead(None)) => {
                self.phase = Phase::Load;
                Step::LoadSource {
                    source_path: self.source_path.clone(),
                    cache_dir: parent_of(self.cache_path.as_str()),
                }
            },
            (Phase::Load, Event::SourceLoaded(Err(e))) => self.finish(
                Err(PipelineError::Decode(e)),
            ),
            (Phase::Load, Event::SourceLoaded(Ok(image))) => {
                match image.encode(Some(self.target_width), Some(self.target_height)) {
                    Ok(bytes) => {
                        self.phase = Phase::Store;
                        self.pending = copy_of(&bytes);
                        Step::Store {
                            temp_path: self.temp_path(),
                            cache_path: self.cache_path.clone(),
                            bytes,
                        }
                    },
                    Err(e) => self.finish(Err(PipelineError::Encode(e))),
                }
            },
            (Phase::Store, Event::Stored(true)) => {
                let bytes = copy_of(&self.pending);
                self.finish(Ok(bytes))
            },
            (Phase::Store, Event::Stored(false)) => {
                self.phase = Phase::Discard;
                self.pending = Vec::new();
                Step::Discard { temp_path: self.temp_path() }
            },
            (Phase::Discard, Event::Discarded) => self.finish(Err(PipelineError::Store)),
            _ => self.finish(Err(PipelineError::OutOfTurn)),
        }
    }
}

} // verus!
