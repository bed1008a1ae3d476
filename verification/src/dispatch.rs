//! The boundary: from the virtual path of a request to a response.
//!
//! A request for `<prefix>/<path>` asks for the thumbnail of the source at
//! `<path>` below the volume root. The path is checked before any file is
//! touched; what passes the check begins a [`Generation`].

use crate::cache::{CacheView, Generation, PipelineError, Step, StepView, ThumbnailCache};
use crate::text::{chars_of, has_prefix, split_path, starts_with, SEPARATOR};
use crate::vpath::{
    lemma_escape_is_final, resolve_segments, resolved_key, CacheKey, PathValidationError,
};
use vstd::prelude::*;

verus! {

/// The status of a response that carries a thumbnail.
pub const STATUS_OK: u16 = 200;

/// The status of a response to a request whose path was refused.
pub const STATUS_BAD_REQUEST: u16 = 400;

/// The status of a response to a request whose thumbnail could not be made.
pub const STATUS_SERVER_ERROR: u16 = 500;

/// What is sent back to the requester.
#[derive(Debug)]
pub struct Response {
    pub status: u16,
    pub body: Vec<u8>,
}

/// The mathematical content of a [`Response`].
pub struct ResponseView {
    pub status: u16,
    pub body: Seq<u8>,
}

impl View for Response {
    type V = ResponseView;

    open spec fn view(&self) -> ResponseView {
        ResponseView { status: self.status, body: self.body@ }
    }
}

/// What remains of a virtual path when the routing prefix is taken off, or
/// `None` where the path does not lie under the prefix.
pub open spec fn stripped(prefix: Seq<char>, virtual_path: Seq<char>) -> Option<Seq<char>> {
    if !starts_with(virtual_path, prefix) {
        None
    } else {
        let rest = virtual_path.skip(prefix.len() as int);
        if rest.len() > 0 && rest[0] != SEPARATOR {
            None
        } else {
            Some(rest)
        }
    }
}

/// The key that a virtual path asks for, or why it is refused.
pub open spec fn routed_key(prefix: Seq<char>, virtual_path: Seq<char>) -> Result<
    Seq<char>,
    PathValidationError,
> {
    match stripped(prefix, virtual_path) {
        None => Err(PathValidationError::UnknownRoute),
        Some(rest) => resolved_key(rest),
    }
}

/// The response to a request whose path was refused.
pub open spec fn rejection() -> ResponseView {
    ResponseView { status: STATUS_BAD_REQUEST, body: Seq::empty() }
}

/// The response that an outcome is mapped to.
pub open spec fn response_to(outcome: Result<Seq<u8>, PipelineError>) -> ResponseView {
    match outcome {
        Ok(bytes) => ResponseView { status: STATUS_OK, body: bytes },
        Err(_) => ResponseView { status: STATUS_SERVER_ERROR, body: Seq::empty() },
    }
}

/// The virtual path under which the thumbnail of a source is asked for,
/// or `None` where the source does not lie below the volume root.
pub open spec fn virtual_path_of(prefix: Seq<char>, volume_root: Seq<char>, source_path: Seq<char>) -> Option<
    Seq<char>,
> {
    if starts_with(source_path, volume_root + seq![SEPARATOR]) {
        Some(prefix + seq![SEPARATOR] + source_path.skip(volume_root.len() as int + 1))
    } else {
        None
    }
}

/// What handling a request begins with: the rejection, or the first step of
/// the fetch.
pub enum HandlingView {
    Rejected(ResponseView),
    Begun { key: Seq<char>, first: StepView },
}

/// What handling a request with this prefix and cache begins with.
pub open spec fn handling(prefix: Seq<char>, cache: CacheView, virtual_path: Seq<char>) -> HandlingView {
    match routed_key(prefix, virtual_path) {
        Err(_) => HandlingView::Rejected(rejection()),
        Ok(key) => HandlingView::Begun { key, first: cache.get_or_create(key).1 },
    }
}

/// A virtual path whose segments lead above the volume root at any point
/// is rejected, and no step is taken for it: no file is touched.
pub proof fn law_escaping_path_is_rejected(
    prefix: Seq<char>,
    cache: CacheView,
    virtual_path: Seq<char>,
    n: int,
)
    requires
        stripped(prefix, virtual_path) matches Some(rest) && 0 <= n <= split_path(rest).len()
            && resolve_segments(split_path(rest).take(n)) is None,
    ensures
        routed_key(prefix, virtual_path) == Err::<Seq<char>, _>(PathValidationError::EscapesRoot),
        handling(prefix, cache, virtual_path) == HandlingView::Rejected(rejection()),
{
    let rest = stripped(prefix, virtual_path)->0;
    lemma_escape_is_final(split_path(rest), n);
}

/// Every accepted request is for a source below the volume root: its
/// first step reads the cache at the place of a normalised key.
pub proof fn law_accepted_path_is_inside(prefix: Seq<char>, cache: CacheView, virtual_path: Seq<char>)
    ensures
        handling(prefix, cache, virtual_path) matches HandlingView::Begun { key, first } ==> {
            &&& crate::vpath::is_normal_path(key)
            &&& first == (StepView::ReadCache { cache_path: cache.cache_path(key) })
            &&& cache.source_path(key) == cache.volume_root + seq![SEPARATOR] + key
        },
{
    if let Some(rest) = stripped(prefix, virtual_path) {
        crate::vpath::law_resolved_key_is_normal(rest);
    }
}

/// Receives thumbnail requests.
#[derive(Debug)]
pub struct RequestDispatcher {
    prefix: String,
    cache: ThumbnailCache,
}

/// What handling a request begins with.
#[derive(Debug)]
pub enum Handling {
    /// The path was refused; this is the response.
    Rejected(Response),
    /// The fetch has begun; `first` is its first step.
    Begun { key: CacheKey, generation: Generation, first: Step },
}

impl RequestDispatcher {
    /// A dispatcher for requests under `prefix`, served from `cache`.
    pub fn new(prefix: String, cache: ThumbnailCache) -> (dispatcher: RequestDispatcher)
        ensures
            dispatcher.prefix() == prefix@,
            dispatcher.cache_view() == cache@,
    {
        RequestDispatcher { prefix, cache }
    }

    /// The routing prefix.
    pub closed spec fn prefix(&self) -> Seq<char> {
        self.prefix@
    }

    /// The cache that is served from.
    pub closed spec fn cache_view(&self) -> CacheView {
        self.cache@
    }

    /// The cache that is served from.
    pub fn cache(&self) -> (cache: &ThumbnailCache)
        ensures
            cache@ == self.cache_view(),
    {
        &self.cache
    }

    /// The virtual path under which the thumbnail of the source at
    /// `source_path` is asked for.
    pub fn virtual_path(&self, source_path: &str) -> (path: Option<String>)
        ensures
            match path {
                Some(p) => virtual_path_of(self.prefix(), self.cache_view().volume_root, source_path@)
                    == Some(p@),
                None => virtual_path_of(self.prefix(), self.cache_view().volume_root, source_path@)
                    is None,
            },
    {
        proof {
            reveal_strlit("/");
        }
        let source = chars_of(source_path);
        let mut root = chars_of(self.cache.volume_root());
        root.push(SEPARATOR);
        assert(root@ =~= self.cache_view().volume_root + seq![SEPARATOR]);
        if !has_prefix(&source, &root) {
            return None;
        }
        let rest = source_path.substring_char(root.len(), source.len());
        assert(rest@ =~= source_path@.skip(self.cache_view().volume_root.len() as int + 1));
        let mut path = self.prefix.clone();
        path.append("/");
        path.append(rest);
        Some(path)
    }

    /// Takes the routing prefix off a virtual path and normalises what
    /// remains.
    pub fn route(&self, virtual_path: &str) -> (routed: Result<CacheKey, PathValidationError>)
        ensures
            match routed {
                Ok(key) => routed_key(self.prefix(), virtual_path@) == Ok::<_, PathValidationError>(
                    key@,
                ),
                Err(e) => routed_key(self.prefix(), virtual_path@) == Err::<Seq<char>, _>(e),
            },
    {
        let path = chars_of(virtual_path);
        let prefix = chars_of(self.prefix.as_str());
        if !has_prefix(&path, &prefix) {
            return Err(PathValidationError::UnknownRoute);
        }
        let ghost rest = virtual_path@.skip(prefix.len() as int);
        assert(rest =~= virtual_path@.subrange(prefix.len() as int, path.len() as int));
        if path.len() > prefix.len() && path[prefix.len()] != SEPARATOR {
            assert(rest[0] == path@[prefix.len() as int]);
            return Err(PathValidationError::UnknownRoute);
        }
        if path.len() > prefix.len() {
            assert(rest[0] == path@[prefix.len() as int]);
        }
        CacheKey::parse(virtual_path.substring_char(prefix.len(), path.len()))
    }

    /// Begins to handle a request: rejects its path, or begins the fetch
    /// of its thumbnail.
    pub fn handle(&self, virtual_path: &str) -> (begun: Handling)
        ensures
            match begun {
                Handling::Rejected(response) => handling(
                    self.prefix(),
                    self.cache_view(),
                    virtual_path@,
                ) == HandlingView::Rejected(response@),
                Handling::Begun { key, generation, first } => {
                    &&& handling(self.prefix(), self.cache_view(), virtual_path@)
                        == (HandlingView::Begun { key: key@, first: first@ })
                    &&& (generation@, first@) == self.cache_view().get_or_create(key@)
                },
            },
    {
        match self.route(virtual_path) {
            Err(_) => Handling::Rejected(reject()),
            Ok(key) => {
                let (generation, first) = self.cache.get_or_create(&key);
                Handling::Begun { key, generation, first }
            },
        }
    }
}

/// The response to a request whose path was refused.
pub fn reject() -> (response: Response)
    ensures
        response@ == rejection(),
{
    Response { status: STATUS_BAD_REQUEST, body: Vec::new() }
}

/// Maps the outcome of a fetch to a response.
pub fn respond(outcome: Result<Vec<u8>, PipelineError>) -> (response: Response)
    ensures
        response@ == response_to(crate::codec::bytes_view(outcome)),
{
    match outcome {
        Ok(body) => Response { status: STATUS_OK, body },
        Err(_) => Response { status: STATUS_SERVER_ERROR, body: Vec::new() },
    }
}

} // verus!
