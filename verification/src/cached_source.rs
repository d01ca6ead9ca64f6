//! The cached artifact store and streaming orchestrator: four insert-only
//! cache slots over a wrapped subtree, a reclamation rule that drops the
//! subtree once every artifact it could supply is cached, and a shared,
//! lock-protected handle.
use vstd::prelude::*;
use vstd::pervasive::unreached;
use vstd::rwlock::RwLock;
use std::sync::Arc;

use crate::encoder::MappingsEncoder;
use crate::helpers::{
    copy_bytes, copy_range, stream_chunks_of_raw_replay, stream_chunks_of_source_map,
};
use crate::model::{
    content_or_empty, cum_len, lemma_cum_len_mono, lemma_cum_len_zero, lemma_stream_equivalence,
    lemma_wf_stream_gives_wf_map, map_of_stream, payload_len, replay_stream, transform_chunk,
    transform_source, transform_stream, wf_stream,
};
use crate::source::{Source, SourceModel, wf_source_model};
use crate::types::{
    Chunk, GeneratedInfo, MapModel, MapOptions, NameEntry, ReclaimedSubtree, SourceEntry,
    SourceMap, StreamOutput, opt_map_view,
};

verus! {

#[verifier::external_type_specification]
#[verifier::external_body]
#[verifier::reject_recursive_types(K)]
#[verifier::reject_recursive_types(V)]
#[verifier::reject_recursive_types(S)]
pub struct ExDashMap<K, V, S>(dashmap::DashMap<K, V, S>);

/// The concrete map-cache: granularity flag to optional map.
pub type MapCache = dashmap::DashMap<bool, Option<SourceMap>>;

/// What a map-cache holds, by key.
pub uninterp spec fn dash_contents(m: MapCache) -> Map<bool, Option<SourceMap>>;

/// Relies on dashmap::DashMap::new: the fresh map holds nothing.
#[verifier::external_body]
fn dash_new() -> (r: MapCache)
    ensures
        dash_contents(r) =~= Map::empty(),
{
    dashmap::DashMap::new()
}

/// Relies on dashmap::DashMap::get: hands out the value stored at the key,
/// if one is there; the clone is taken so no guard outlives the call.
#[verifier::external_body]
fn dash_get(m: &MapCache, key: bool) -> (r: Option<Option<SourceMap>>)
    ensures
        r == (if dash_contents(*m).contains_key(key) {
            Some(dash_contents(*m)[key])
        } else {
            None::<Option<SourceMap>>
        }),
{
    m.get(&key).map(|v| v.value().clone())
}

/// Relies on dashmap::DashMap::insert: stores the value at the key and
/// leaves every other key as it was.
#[verifier::external_body]
fn dash_insert(m: &mut MapCache, key: bool, value: Option<SourceMap>)
    ensures
        dash_contents(*final(m)) == dash_contents(*old(m)).insert(key, value),
{
    m.insert(key, value);
}

/// The cache cells and the exclusive slot for the wrapped subtree. All
/// mutation goes through `&mut self`; the shared handle serializes it
/// behind a lock.
pub struct CacheState<S: Source> {
    inner: Option<S>,
    cached_source: Option<Vec<u8>>,
    cached_buffer: Option<Vec<u8>>,
    cached_hash: Option<u64>,
    cached_maps: MapCache,
    model: Ghost<SourceModel>,
}

impl<S: Source> CacheState<S> {
    /// The model of the wrapped source; fixed for the cache's lifetime.
    pub closed spec fn model_spec(&self) -> SourceModel {
        self.model@
    }

    pub closed spec fn text_slot(&self) -> Option<Seq<u8>> {
        match self.cached_source {
            Some(t) => Some(t@),
            None => None,
        }
    }

    pub closed spec fn buffer_slot(&self) -> Option<Seq<u8>> {
        match self.cached_buffer {
            Some(b) => Some(b@),
            None => None,
        }
    }

    pub closed spec fn hash_slot(&self) -> Option<u64> {
        self.cached_hash
    }

    pub closed spec fn map_slot(&self, columns: bool) -> Option<Option<MapModel>> {
        if dash_contents(self.cached_maps).contains_key(columns) {
            Some(opt_map_view(dash_contents(self.cached_maps)[columns]))
        } else {
            None
        }
    }

    pub closed spec fn has_inner(&self) -> bool {
        self.inner is Some
    }

    /// Every artifact the subtree could supply has a cached substitute.
    pub open spec fn fully_cached(&self) -> bool {
        &&& self.text_slot() is Some
        &&& self.buffer_slot() is Some
        &&& self.hash_slot() is Some
        &&& self.map_slot(true) is Some
    }

    /// The cache invariant: the model is coherent; the subtree, while
    /// held, is the modelled one; each filled slot holds the modelled
    /// artifact (the buffer slot may hold the text's bytes instead, as a
    /// fresh traversal fills it from the text); and the subtree is only
    /// gone once everything it could supply is cached.
    pub closed spec fn wf(&self) -> bool {
        &&& wf_source_model(self.model@)
        &&& match self.inner {
            Some(s) => s.model() == self.model@,
            None => true,
        }
        &&& !self.has_inner() ==> self.fully_cached()
        &&& match self.cached_source {
            Some(t) => t@ == self.model@.text,
            None => true,
        }
        &&& match self.cached_buffer {
            Some(b) => b@ == self.model@.buffer || b@ == self.model@.text,
            None => true,
        }
        &&& match self.cached_hash {
            Some(h) => h == self.model@.hash,
            None => true,
        }
        &&& (dash_contents(self.cached_maps).contains_key(true) ==> opt_map_view(
            dash_contents(self.cached_maps)[true],
        ) == self.model@.map_for(true))
        &&& (dash_contents(self.cached_maps).contains_key(false) ==> opt_map_view(
            dash_contents(self.cached_maps)[false],
        ) == self.model@.map_for(false))
    }

    /// Wraps one subtree; every slot starts empty.
    pub fn new(inner: S) -> (r: Self)
        ensures
            r.wf(),
            r.model_spec() == inner.model(),
            r.text_slot() is None,
            r.buffer_slot() is None,
            r.hash_slot() is None,
            r.map_slot(true) is None,
            r.map_slot(false) is None,
            r.has_inner(),
    {
        let ghost m = inner.model();
        proof {
            inner.lemma_wf();
        }
        CacheState {
            inner: Some(inner),
            cached_source: None,
            cached_buffer: None,
            cached_hash: None,
            cached_maps: dash_new(),
            model: Ghost(m),
        }
    }

    /// Clears the subtree slot once `text`, `buffer`, `hash` and the
    /// column-granularity map entry are all populated.
    fn try_separate(&mut self)
        requires
            old(self).wf(),
        ensures
            final(self).wf(),
            final(self).model_spec() == old(self).model_spec(),
            final(self).text_slot() == old(self).text_slot(),
            final(self).buffer_slot() == old(self).buffer_slot(),
            final(self).hash_slot() == old(self).hash_slot(),
            final(self).map_slot(true) == old(self).map_slot(true),
            final(self).map_slot(false) == old(self).map_slot(false),
            final(self).has_inner() == (old(self).has_inner() && !old(self).fully_cached()),
    {
        let maps_hit = match dash_get(&self.cached_maps, true) {
            Some(_) => true,
            None => false,
        };
        if self.cached_buffer.is_some() && self.cached_hash.is_some() && maps_hit
            && self.cached_source.is_some() {
            self.inner = None;
        }
    }

    /// The text slot, filled from the subtree on first need.
    fn get_text(&mut self) -> (r: Vec<u8>)
        requires
            old(self).wf(),
        ensures
            final(self).wf(),
            final(self).model_spec() == old(self).model_spec(),
            r@ == old(self).model_spec().text,
            final(self).text_slot() == Some(old(self).model_spec().text),
            final(self).buffer_slot() == old(self).buffer_slot(),
            final(self).hash_slot() == old(self).hash_slot(),
            final(self).map_slot(true) == old(self).map_slot(true),
            final(self).map_slot(false) == old(self).map_slot(false),
            final(self).has_inner() == old(self).has_inner(),
    {
        match &self.cached_source {
            Some(t) => copy_range(t, 0, t.len()),
            None => {
                let computed = match &self.inner {
                    Some(s) => s.source(),
                    None => unreached(),
                };
                let copy = copy_range(&computed, 0, computed.len());
                self.cached_source = Some(computed);
                copy
            },
        }
    }

    /// The flattened text; idempotent, and always the modelled text.
    pub fn source(&mut self) -> (r: Vec<u8>)
        requires
            old(self).wf(),
        ensures
            final(self).wf(),
            final(self).model_spec() == old(self).model_spec(),
            r@ == old(self).model_spec().text,
            final(self).text_slot() == Some(old(self).model_spec().text),
            final(self).buffer_slot() == old(self).buffer_slot(),
            final(self).hash_slot() == old(self).hash_slot(),
            final(self).map_slot(true) == old(self).map_slot(true),
            final(self).map_slot(false) == old(self).map_slot(false),
            final(self).fully_cached() ==> !final(self).has_inner(),
    {
        let r = self.get_text();
        self.try_separate();
        r
    }

    /// The binary form; idempotent: once the slot is filled, every later
    /// call returns the first stored value.
    pub fn buffer(&mut self) -> (r: Vec<u8>)
        requires
            old(self).wf(),
        ensures
            final(self).wf(),
            final(self).model_spec() == old(self).model_spec(),
            r@ == (match old(self).buffer_slot() {
                Some(b) => b,
                None => old(self).model_spec().buffer,
            }),
            r@ == old(self).model_spec().buffer || r@ == old(self).model_spec().text,
            final(self).buffer_slot() == Some(r@),
            final(self).text_slot() == old(self).text_slot(),
            final(self).hash_slot() == old(self).hash_slot(),
            final(self).map_slot(true) == old(self).map_slot(true),
            final(self).map_slot(false) == old(self).map_slot(false),
            final(self).fully_cached() ==> !final(self).has_inner(),
    {
        let r = match &self.cached_buffer {
            Some(b) => copy_range(b, 0, b.len()),
            None => {
                let computed = match &self.inner {
                    Some(s) => s.buffer(),
                    None => unreached(),
                };
                let copy = copy_range(&computed, 0, computed.len());
                self.cached_buffer = Some(computed);
                copy
            },
        };
        self.try_separate();
        r
    }

    /// The byte length of the text; forces the text if absent.
    pub fn size(&mut self) -> (r: usize)
        requires
            old(self).wf(),
        ensures
            final(self).wf(),
            final(self).model_spec() == old(self).model_spec(),
            r == old(self).model_spec().text.len(),
            final(self).text_slot() == Some(old(self).model_spec().text),
            final(self).buffer_slot() == old(self).buffer_slot(),
            final(self).hash_slot() == old(self).hash_slot(),
            final(self).map_slot(true) == old(self).map_slot(true),
            final(self).map_slot(false) == old(self).map_slot(false),
    {
        let t = self.source();
        t.len()
    }

    /// The structural content hash; idempotent, always the modelled hash.
    pub fn hash(&mut self) -> (r: u64)
        requires
            old(self).wf(),
        ensures
            final(self).wf(),
            final(self).model_spec() == old(self).model_spec(),
            r == old(self).model_spec().hash,
            final(self).hash_slot() == Some(r),
            final(self).text_slot() == old(self).text_slot(),
            final(self).buffer_slot() == old(self).buffer_slot(),
            final(self).map_slot(true) == old(self).map_slot(true),
            final(self).map_slot(false) == old(self).map_slot(false),
            final(self).fully_cached() ==> !final(self).has_inner(),
    {
        let h = match &self.cached_hash {
            Some(h) => *h,
            None => {
                let computed = match &self.inner {
                    Some(s) => s.hash(),
                    None => unreached(),
                };
                self.cached_hash = Some(computed);
                computed
            },
        };
        self.try_separate();
        h
    }

    /// One fresh traversal of the subtree: caches the text (and, if still
    /// empty, the buffer, from the text's bytes), feeds every mapping
    /// record to a fresh accumulator, re-slices each emitted chunk from
    /// the cached text at a running byte cursor, forwards source events
    /// with content holes filled by the empty placeholder, forwards name
    /// events, and stores the accumulated optional map at the granularity
    /// key. The output is exactly what a later cache replay will emit.
    #[verifier::rlimit(80)]
    fn stream_and_get_source_and_map(&mut self, options: &MapOptions) -> (r: StreamOutput)
        requires
            old(self).wf(),
            old(self).has_inner(),
        ensures
            final(self).wf(),
            final(self).model_spec() == old(self).model_spec(),
            r@ == replay_stream(
                old(self).model_spec().text,
                old(self).model_spec().map_for(options.columns),
                options.final_source,
            ),
            final(self).text_slot() == Some(old(self).model_spec().text),
            final(self).buffer_slot() is Some,
            old(self).buffer_slot() is Some ==> final(self).buffer_slot() == old(
                self,
            ).buffer_slot(),
            final(self).hash_slot() == old(self).hash_slot(),
            final(self).map_slot(options.columns) == Some(
                old(self).model_spec().map_for(options.columns),
            ),
            final(self).map_slot(!options.columns) == old(self).map_slot(!options.columns),
            final(self).has_inner(),
    {
        let ghost m = self.model@;
        let code = self.get_text();
        if self.cached_buffer.is_none() {
            let filled = copy_bytes(&code);
            self.cached_buffer = Some(filled);
        }
        let input = match &self.inner {
            Some(s) => s.stream_chunks(options),
            None => unreached(),
        };
        let ghost istream = m.stream_for(options.columns, options.final_source);
        let ghost mp = m.map_for(options.columns);
        proof {
            assert(input@ == istream);
            assert(wf_stream(istream, m.text, mp, options.final_source));
        }
        let mut encoder = MappingsEncoder::create_encoder();
        let mut out_chunks: Vec<Chunk> = Vec::new();
        let mut cursor: usize = 0;
        let n = input.chunks.len();
        let mut i: usize = 0;
        while i < n
            invariant
                wf_stream(istream, m.text, mp, options.final_source),
                istream.chunks == input.chunks.deep_view(),
                n == input.chunks@.len(),
                n as int == istream.chunks.len(),
                i <= n,
                code@ == m.text,
                cursor as int == cum_len(istream.chunks, i as int),
                cursor as int <= code@.len(),
                out_chunks@.len() == i as int,
                forall|k: int|
                    0 <= k < i as int ==> (#[trigger] out_chunks@[k])@ == transform_chunk(
                        m.text,
                        istream.chunks,
                        k,
                    ),
                encoder.mappings_spec().len() == i as int,
                forall|k: int|
                    0 <= k < i as int ==> encoder.mappings_spec()[k] == (#[trigger] istream.chunks[k]).mapping,
                encoder.has_original_spec() == exists|k: int|
                    0 <= k < i as int && (#[trigger] istream.chunks[k]).mapping.original is Some,
            decreases n - i,
        {
            let ch = &input.chunks[i];
            proof {
                assert(ch@ == istream.chunks[i as int]);
            }
            encoder.encode(&ch.mapping);
            match &ch.text {
                Some(t) => {
                    let l = t.len();
                    proof {
                        assert(istream.chunks[i as int].text == Some(t@));
                        assert(payload_len(istream.chunks[i as int]) == l as int);
                        assert(cum_len(istream.chunks, i as int + 1) == cursor as int
                            + l as int);
                        if options.final_source {
                            lemma_cum_len_zero(istream.chunks, i as int + 1);
                        } else {
                            lemma_cum_len_mono(istream.chunks, i as int + 1, n as int);
                        }
                        assert(cursor as int + l as int <= code@.len());
                    }
                    let sliced = copy_range(&code, cursor, cursor + l);
                    out_chunks.push(Chunk { text: Some(sliced), mapping: ch.mapping });
                    cursor = cursor + l;
                },
                None => {
                    proof {
                        assert(istream.chunks[i as int].text is None);
                    }
                    out_chunks.push(Chunk { text: Some(Vec::new()), mapping: ch.mapping });
                },
            }
            i = i + 1;
        }
        let mut sources_arr: Vec<Vec<u8>> = Vec::new();
        let mut contents_arr: Vec<Vec<u8>> = Vec::new();
        let mut out_sources: Vec<SourceEntry> = Vec::new();
        let sn = input.sources.len();
        let mut j: usize = 0;
        while j < sn
            invariant
                wf_stream(istream, m.text, mp, options.final_source),
                istream.sources == input.sources.deep_view(),
                sn == input.sources@.len(),
                sn as int == istream.sources.len(),
                j <= sn,
                sources_arr@.len() == j as int,
                contents_arr@.len() == j as int,
                out_sources@.len() == j as int,
                forall|k: int|
                    0 <= k < j as int ==> sources_arr.deep_view()[k] == (
                    #[trigger] istream.sources[k]).path,
                forall|k: int|
                    0 <= k < j as int ==> contents_arr.deep_view()[k] == content_or_empty(
                        (#[trigger] istream.sources[k]).content,
                    ),
                forall|k: int|
                    0 <= k < j as int ==> (#[trigger] out_sources@[k])@ == transform_source(
                        istream.sources[k],
                    ),
            decreases sn - j,
        {
            let e = &input.sources[j];
            proof {
                assert(e@ == istream.sources[j as int]);
                assert(e@.index == j as int);
            }
            let path_copy = copy_bytes(&e.path);
            let content_copy = match &e.content {
                Some(c) => copy_bytes(c),
                None => Vec::new(),
            };
            sources_arr.push(path_copy);
            contents_arr.push(content_copy);
            let path_fwd = copy_bytes(&e.path);
            let content_fwd = match &e.content {
                Some(c) => copy_bytes(c),
                None => Vec::new(),
            };
            out_sources.push(SourceEntry { index: e.index, path: path_fwd, content: Some(content_fwd) });
            j = j + 1;
        }
        let mut names_arr: Vec<Vec<u8>> = Vec::new();
        let mut out_names: Vec<NameEntry> = Vec::new();
        let nn = input.names.len();
        let mut q: usize = 0;
        while q < nn
            invariant
                wf_stream(istream, m.text, mp, options.final_source),
                istream.names == input.names.deep_view(),
                nn == input.names@.len(),
                nn as int == istream.names.len(),
                q <= nn,
                names_arr@.len() == q as int,
                out_names@.len() == q as int,
                forall|k: int|
                    0 <= k < q as int ==> names_arr.deep_view()[k] == (
                    #[trigger] istream.names[k]).name,
                forall|k: int|
                    0 <= k < q as int ==> (#[trigger] out_names@[k])@ == istream.names[k],
            decreases nn - q,
        {
            let e = &input.names[q];
            proof {
                assert(e@ == istream.names[q as int]);
                assert(e@.index == q as int);
            }
            names_arr.push(copy_bytes(&e.name));
            out_names.push(NameEntry { index: e.index, name: copy_bytes(&e.name) });
            q = q + 1;
        }
        let recs = encoder.drain();
        let map: Option<SourceMap> = match recs {
            Some(v) => Some(SourceMap::new(v, sources_arr, contents_arr, names_arr)),
            None => None,
        };
        proof {
            let derived = map_of_stream(istream);
            let mv = map;
            match mv {
                Some(sm) => {
                    assert(crate::model::has_original(istream.chunks));
                    assert(derived is Some);
                    let dm = derived->Some_0;
                    assert(sm@.mappings =~= dm.mappings);
                    assert(sm@.sources =~= dm.sources);
                    assert(sm@.sources_content =~= dm.sources_content);
                    assert(sm@.names =~= dm.names);
                    assert(sm@ =~= dm);
                },
                None => {
                    assert(!crate::model::has_original(istream.chunks));
                    assert(derived is None);
                },
            }
            assert(opt_map_view(map) == mp);
        }
        dash_insert(&mut self.cached_maps, options.columns, map);
        let r = StreamOutput {
            chunks: out_chunks,
            sources: out_sources,
            names: out_names,
            info: input.info,
        };
        proof {
            let t = transform_stream(m.text, istream);
            assert(r@.chunks =~= t.chunks);
            assert(r@.sources =~= t.sources);
            assert(r@.names =~= t.names);
            assert(r@ =~= t);
            lemma_stream_equivalence(m.text, istream, mp, options.final_source);
        }
        r
    }

    /// The optional map at the options' granularity: a cache hit is
    /// returned as stored; a miss runs a fresh traversal, discarding its
    /// events. Only `columns` keys the cache. Fails only where the
    /// subtree is already reclaimed and the asked-for granularity was
    /// never cached; with `columns` set this cannot happen.
    pub fn map(&mut self, options: &MapOptions) -> (r: Result<Option<SourceMap>, ReclaimedSubtree>)
        requires
            old(self).wf(),
        ensures
            final(self).wf(),
            final(self).model_spec() == old(self).model_spec(),
            match r {
                Ok(v) => opt_map_view(v) == old(self).model_spec().map_for(options.columns)
                    && final(self).map_slot(options.columns) == Some(
                    old(self).model_spec().map_for(options.columns),
                ),
                Err(_) => !old(self).has_inner() && old(self).map_slot(options.columns) is None,
            },
            (old(self).has_inner() || old(self).map_slot(options.columns) is Some) ==> r is Ok,
            options.columns ==> r is Ok,
            final(self).map_slot(!options.columns) == old(self).map_slot(!options.columns),
            final(self).hash_slot() == old(self).hash_slot(),
            old(self).text_slot() is Some ==> final(self).text_slot() == old(self).text_slot(),
            old(self).buffer_slot() is Some ==> final(self).buffer_slot() == old(
                self,
            ).buffer_slot(),
            final(self).fully_cached() ==> !final(self).has_inner(),
            r is Err ==> *final(self) == *old(self),
    {
        match dash_get(&self.cached_maps, options.columns) {
            Some(v) => {
                self.try_separate();
                Ok(v)
            },
            None => {
                if self.inner.is_some() {
                    let _ = self.stream_and_get_source_and_map(options);
                    self.try_separate();
                    match dash_get(&self.cached_maps, options.columns) {
                        Some(v) => Ok(v),
                        None => unreached(),
                    }
                } else {
                    Err(ReclaimedSubtree)
                }
            },
        }
    }

    /// Streams the chunk, source and name events. On a map-cache hit the
    /// events are replayed from the cached text and stored map without
    /// consulting the subtree; on a miss one fresh traversal produces the
    /// same events and fills the caches. Fails only where the subtree is
    /// already reclaimed and the granularity was never cached.
    pub fn stream_chunks(&mut self, options: &MapOptions) -> (r: Result<
        StreamOutput,
        ReclaimedSubtree,
    >)
        requires
            old(self).wf(),
        ensures
            final(self).wf(),
            final(self).model_spec() == old(self).model_spec(),
            match r {
                Ok(o) => o@ == replay_stream(
                    old(self).model_spec().text,
                    old(self).model_spec().map_for(options.columns),
                    options.final_source,
                ) && final(self).map_slot(options.columns) == Some(
                    old(self).model_spec().map_for(options.columns),
                ),
                Err(_) => !old(self).has_inner() && old(self).map_slot(options.columns) is None,
            },
            (old(self).has_inner() || old(self).map_slot(options.columns) is Some) ==> r is Ok,
            options.columns ==> r is Ok,
            final(self).map_slot(!options.columns) == old(self).map_slot(!options.columns),
            final(self).hash_slot() == old(self).hash_slot(),
            final(self).fully_cached() ==> !final(self).has_inner(),
            r is Err ==> *final(self) == *old(self),
    {
        let cache = dash_get(&self.cached_maps, options.columns);
        match cache {
            Some(stored) => {
                let ghost m = self.model@;
                let text = self.get_text();
                let out = match &stored {
                    Some(map) => {
                        proof {
                            assert(opt_map_view(stored) == m.map_for(options.columns));
                            lemma_wf_stream_gives_wf_map(
                                m.stream_for(options.columns, false),
                                m.text,
                                map@,
                                false,
                            );
                        }
                        stream_chunks_of_source_map(&text, map, options)
                    },
                    None => stream_chunks_of_raw_replay(&text, options),
                };
                self.try_separate();
                Ok(out)
            },
            None => {
                if self.inner.is_some() {
                    let out = self.stream_and_get_source_and_map(options);
                    self.try_separate();
                    Ok(out)
                } else {
                    Err(ReclaimedSubtree)
                }
            },
        }
    }
}

/// Relies on std::sync::Arc::clone: the duplicate is a handle to the very
/// same allocation, so the two are one value.
#[verifier::external_body]
fn arc_clone<T>(a: &Arc<T>) -> (r: Arc<T>)
    ensures
        r == *a,
{
    Arc::clone(a)
}

/// Relies on std::sync::Arc::ptr_eq: whether two handles share one
/// allocation. Nothing is assumed of the answer.
#[verifier::external_body]
fn arc_same<T>(a: &Arc<T>, b: &Arc<T>) -> (r: bool) {
    Arc::ptr_eq(a, b)
}

/// The lock protecting one cache.
pub type CacheLock<S> = RwLock<CacheState<S>, spec_fn(CacheState<S>) -> bool>;

/// A shared handle to one cached source: cheap to duplicate, and every
/// duplicate observes the same slots. Equality between handles is by
/// identity (`is_same_instance`) while the hash is content-based — an
/// intentional, if inconsistent, pairing that downstream consumers
/// require; it is kept exactly.
#[verifier::reject_recursive_types(S)]
pub struct CachedSource<S: Source> {
    inner: Arc<CacheLock<S>>,
    model: Ghost<SourceModel>,
}

impl<S: Source> CachedSource<S> {
    /// What the lock admits: a well-formed cache over the one model.
    pub open spec fn lock_inv(m: SourceModel) -> spec_fn(CacheState<S>) -> bool {
        |st: CacheState<S>| st.wf() && st.model_spec() == m
    }

    /// The model of the wrapped source.
    pub closed spec fn model(&self) -> SourceModel {
        self.model@
    }

    pub closed spec fn wf(&self) -> bool {
        (*self.inner).pred() == Self::lock_inv(self.model@)
    }

    /// Wraps the source; all caches start empty.
    pub fn new(inner: S) -> (r: Self)
        ensures
            r.wf(),
            r.model() == inner.model(),
    {
        let st = CacheState::new(inner);
        let ghost m = st.model_spec();
        proof {
            assert(Self::lock_inv(m)(st));
        }
        let lock = RwLock::new(st, Ghost(Self::lock_inv(m)));
        CachedSource { inner: Arc::new(lock), model: Ghost(m) }
    }

    /// Duplicates the handle; both observe the one underlying cache.
    pub fn clone(&self) -> (r: Self)
        requires
            self.wf(),
        ensures
            r.wf(),
            r.model() == self.model(),
    {
        CachedSource { inner: arc_clone(&self.inner), model: Ghost(self.model@) }
    }

    /// Identity: true exactly for handles to the one instance. Two caches
    /// over equal content are not the same instance.
    pub fn is_same_instance(&self, other: &Self) -> (r: bool) {
        arc_same(&self.inner, &other.inner)
    }

    /// The flattened text; identical on every call.
    pub fn source(&self) -> (r: Vec<u8>)
        requires
            self.wf(),
        ensures
            r@ == self.model().text,
    {
        let (mut st, handle) = self.inner.acquire_write();
        proof {
            assert(Self::lock_inv(self.model@)(st));
        }
        let r = st.source();
        proof {
            assert(Self::lock_inv(self.model@)(st));
        }
        handle.release_write(st);
        r
    }

    /// The binary form: the wrapped source's buffer, or the text's bytes
    /// where a fresh traversal filled the slot first; identical on every
    /// call once stored.
    pub fn buffer(&self) -> (r: Vec<u8>)
        requires
            self.wf(),
        ensures
            r@ == self.model().buffer || r@ == self.model().text,
    {
        let (mut st, handle) = self.inner.acquire_write();
        proof {
            assert(Self::lock_inv(self.model@)(st));
        }
        let r = st.buffer();
        proof {
            assert(Self::lock_inv(self.model@)(st));
        }
        handle.release_write(st);
        r
    }

    /// The exact byte length of the text, with no storage of its own.
    pub fn size(&self) -> (r: usize)
        requires
            self.wf(),
        ensures
            r == self.model().text.len(),
    {
        let (mut st, handle) = self.inner.acquire_write();
        proof {
            assert(Self::lock_inv(self.model@)(st));
        }
        let r = st.size();
        proof {
            assert(Self::lock_inv(self.model@)(st));
        }
        handle.release_write(st);
        r
    }

    /// The structural content hash; identical on every call.
    pub fn hash(&self) -> (r: u64)
        requires
            self.wf(),
        ensures
            r == self.model().hash,
    {
        let (mut st, handle) = self.inner.acquire_write();
        proof {
            assert(Self::lock_inv(self.model@)(st));
        }
        let r = st.hash();
        proof {
            assert(Self::lock_inv(self.model@)(st));
        }
        handle.release_write(st);
        r
    }

    /// The optional map at the options' granularity; only `columns` takes
    /// part in the key, so calls differing in `final_source` share one
    /// entry. With `columns` set the call always succeeds; without, it
    /// fails only in the defective state of a reclaimed subtree and a
    /// never-cached line-granularity entry.
    pub fn map(&self, options: &MapOptions) -> (r: Result<Option<SourceMap>, ReclaimedSubtree>)
        requires
            self.wf(),
        ensures
            (match r {
                Ok(v) => opt_map_view(v) == self.model().map_for(options.columns),
                Err(_) => true,
            }),
            options.columns ==> r is Ok,
    {
        let (mut st, handle) = self.inner.acquire_write();
        proof {
            assert(Self::lock_inv(self.model@)(st));
        }
        let r = st.map(options);
        proof {
            assert(Self::lock_inv(self.model@)(st));
        }
        handle.release_write(st);
        r
    }

    /// Streams the chunk, source and name events: byte-identical whether
    /// this call replays the caches or performs the one fresh traversal
    /// that fills them.
    pub fn stream_chunks(&self, options: &MapOptions) -> (r: Result<
        StreamOutput,
        ReclaimedSubtree,
    >)
        requires
            self.wf(),
        ensures
            (match r {
                Ok(o) => o@ == replay_stream(
                    self.model().text,
                    self.model().map_for(options.columns),
                    options.final_source,
                ),
                Err(_) => true,
            }),
            options.columns ==> r is Ok,
    {
        let (mut st, handle) = self.inner.acquire_write();
        proof {
            assert(Self::lock_inv(self.model@)(st));
        }
        let r = st.stream_chunks(options);
        proof {
            assert(Self::lock_inv(self.model@)(st));
        }
        handle.release_write(st);
        r
    }

    /// The text slot as currently stored, if filled through any handle.
    pub fn cached_source(&self) -> (r: Option<Vec<u8>>)
        requires
            self.wf(),
        ensures
            (match r {
                Some(t) => t@ == self.model().text,
                None => true,
            }),
    {
        let read = self.inner.acquire_read();
        let st = read.borrow();
        proof {
            assert(Self::lock_inv(self.model@)(*st));
        }
        let r = match &st.cached_source {
            Some(t) => Some(copy_bytes(t)),
            None => None,
        };
        read.release_read();
        r
    }

    /// The buffer slot as currently stored, if filled through any handle.
    pub fn cached_buffer(&self) -> (r: Option<Vec<u8>>)
        requires
            self.wf(),
        ensures
            (match r {
                Some(b) => b@ == self.model().buffer || b@ == self.model().text,
                None => true,
            }),
    {
        let read = self.inner.acquire_read();
        let st = read.borrow();
        proof {
            assert(Self::lock_inv(self.model@)(*st));
        }
        let r = match &st.cached_buffer {
            Some(b) => Some(copy_bytes(b)),
            None => None,
        };
        read.release_read();
        r
    }

    /// The hash slot as currently stored, if filled through any handle.
    pub fn cached_hash(&self) -> (r: Option<u64>)
        requires
            self.wf(),
        ensures
            (match r {
                Some(h) => h == self.model().hash,
                None => true,
            }),
    {
        let read = self.inner.acquire_read();
        let st = read.borrow();
        proof {
            assert(Self::lock_inv(self.model@)(*st));
        }
        let r = match &st.cached_hash {
            Some(h) => Some(*h),
            None => None,
        };
        read.release_read();
        r
    }

    /// The map-cache entry at a granularity, if one was ever stored.
    pub fn cached_map(&self, columns: bool) -> (r: Option<Option<SourceMap>>)
        requires
            self.wf(),
        ensures
            (match r {
                Some(v) => opt_map_view(v) == self.model().map_for(columns),
                None => true,
            }),
    {
        let read = self.inner.acquire_read();
        let st = read.borrow();
        proof {
            assert(Self::lock_inv(self.model@)(*st));
        }
        let r = dash_get(&st.cached_maps, columns);
        read.release_read();
        r
    }

    /// Whether the wrapped subtree has been reclaimed; true only once
    /// `source`, `buffer`, `hash` and the column-granularity map entry
    /// are all cached.
    pub fn is_separated(&self) -> (r: bool)
        requires
            self.wf(),
    {
        let read = self.inner.acquire_read();
        let st = read.borrow();
        let r = st.inner.is_none();
        read.release_read();
        r
    }
}

/// Law (equivalence): on any coherent source model, the chunk texts,
/// mapping records, source and name strings and the closing cursor that a
/// fresh traversal emits equal those a later cache replay of the stored
/// text and map emits, for the same options.
pub proof fn lemma_fresh_equals_replay(m: SourceModel, options: MapOptions)
    requires
        wf_source_model(m),
    ensures
        transform_stream(m.text, m.stream_for(options.columns, options.final_source))
            == replay_stream(m.text, m.map_for(options.columns), options.final_source),
{
    lemma_stream_equivalence(
        m.text,
        m.stream_for(options.columns, options.final_source),
        m.map_for(options.columns),
        options.final_source,
    );
}

/// Law (cache key): the stored map depends on the granularity flag alone,
/// so two option values differing only in `final_source` read and write
/// one shared cache entry.
pub proof fn lemma_map_key_ignores_final_source(m: SourceModel, a: MapOptions, b: MapOptions)
    requires
        a.columns == b.columns,
    ensures
        m.map_for(a.columns) == m.map_for(b.columns),
{
}

} // verus!\n