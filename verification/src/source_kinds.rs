//! Leaf source kinds, enough to ground the capability: plain bytes with no
//! mappings, original text mapped as one whole record, and text paired with
//! an explicit map.
use vstd::prelude::*;

use crate::helpers::{copy_range, stream_chunks_of_raw_source, stream_chunks_of_source_map};
use crate::model::{
    has_original, raw_source_stream, record_end, replay_stream, wf_source_map, wf_stream,
};
use crate::source::{Source, SourceModel};
use crate::types::{
    MapModel, MapOptions, Mapping, OriginalLocation, SourceMap, StreamOutput,
};

verus! {

/// What `rustc_hash::FxHasher` digests a byte sequence to.
pub uninterp spec fn fx_hash_of(bytes: Seq<u8>) -> u64;

/// Relies on rustc_hash::FxHasher: starting from the default state, the
/// finished value is a pure function of the byte sequence written, with no
/// per-process seed.
#[verifier::external_body]
fn fx_hash_bytes(bytes: &Vec<u8>) -> (r: u64)
    ensures
        r == fx_hash_of(bytes@),
{
    let mut hasher = rustc_hash::FxHasher::default();
    std::hash::Hasher::write(&mut hasher, bytes.as_slice());
    std::hash::Hasher::finish(&hasher)
}

/// A raw stream is well formed against no map.
pub proof fn lemma_raw_stream_wf(text: Seq<u8>, final_source: bool)
    requires
        text.len() <= usize::MAX,
    ensures
        wf_stream(raw_source_stream(text, final_source), text, None::<MapModel>, final_source),
{
    let s = raw_source_stream(text, final_source);
    assert forall|i: int| 0 <= i < s.chunks.len() implies (#[trigger] s.chunks[i]).mapping.original
        is None by {
        assert(i == 0);
    }
    assert(!has_original(s.chunks));
    if text.len() > 0 && !final_source {
        assert(crate::model::cum_len(s.chunks, 0) == 0);
        assert(crate::model::cum_len(s.chunks, 1) == text.len());
    }
}

proof fn lemma_replay_cum(text: Seq<u8>, m: MapModel, final_source: bool, i: int)
    requires
        wf_source_map(m, text.len() as int),
        !final_source,
        0 <= i <= m.mappings.len(),
    ensures
        crate::model::cum_len(
            replay_stream(text, Some(m), final_source).chunks,
            i,
        ) == if i < m.mappings.len() {
            m.mappings[i].generated_offset as int
        } else {
            text.len() as int
        },
    decreases i,
{
    let s = replay_stream(text, Some(m), final_source);
    if i == 0 {
        assert(m.mappings[0].generated_offset == 0);
    } else {
        lemma_replay_cum(text, m, final_source, i - 1);
        let e = record_end(m.mappings, i - 1, text.len() as int);
        assert(m.mappings[i - 1].generated_offset as int <= e <= text.len() as int);
        assert(crate::model::payload_len(s.chunks[i - 1]) == e - m.mappings[i
            - 1].generated_offset as int);
    }
}

/// A replay of a well-formed map is itself a well-formed stream that
/// spells out exactly that map.
pub proof fn lemma_replay_stream_wf(text: Seq<u8>, m: MapModel, final_source: bool)
    requires
        wf_source_map(m, text.len() as int),
        text.len() <= usize::MAX,
    ensures
        wf_stream(replay_stream(text, Some(m), final_source), text, Some(m), final_source),
{
    let s = replay_stream(text, Some(m), final_source);
    let n = m.mappings.len() as int;
    let w = choose|i: int| 0 <= i < m.mappings.len() && (#[trigger] m.mappings[i]).original is Some;
    assert(s.chunks[w].mapping.original is Some);
    assert(has_original(s.chunks));
    let mo = crate::model::map_of_stream(s)->Some_0;
    assert(mo.mappings =~= m.mappings);
    assert(mo.sources =~= m.sources);
    assert(mo.sources_content =~= m.sources_content);
    assert(mo.names =~= m.names);
    assert(mo =~= m);
    if !final_source {
        assert forall|i: int| 0 <= i < n implies (#[trigger] s.chunks[i]).text is Some
            && s.chunks[i].mapping.generated_offset as int == crate::model::cum_len(
            s.chunks,
            i,
        ) by {
            lemma_replay_cum(text, m, final_source, i);
        }
        lemma_replay_cum(text, m, final_source, n);
    } else {
        assert forall|i: int| 0 <= i < n implies crate::model::payload_len(
            #[trigger] s.chunks[i],
        ) == 0 by {}
    }
}

/// The model of a plain unmapped node over `value`.
pub open spec fn raw_source_model(value: Seq<u8>) -> SourceModel {
    SourceModel {
        text: value,
        buffer: value,
        hash: fx_hash_of(value),
        map_columns: None,
        map_lines: None,
        stream_c_f: raw_source_stream(value, false),
        stream_c_t: raw_source_stream(value, true),
        stream_l_f: raw_source_stream(value, false),
        stream_l_t: raw_source_stream(value, true),
    }
}

/// The model of a node whose text carries the map `m`.
pub open spec fn mapped_source_model(value: Seq<u8>, m: MapModel) -> SourceModel {
    SourceModel {
        text: value,
        buffer: value,
        hash: fx_hash_of(value),
        map_columns: Some(m),
        map_lines: Some(m),
        stream_c_f: replay_stream(value, Some(m), false),
        stream_c_t: replay_stream(value, Some(m), true),
        stream_l_f: replay_stream(value, Some(m), false),
        stream_l_t: replay_stream(value, Some(m), true),
    }
}

/// Plain bytes: no mappings ever.
pub struct RawSource {
    value: Vec<u8>,
}

impl RawSource {
    pub closed spec fn value_spec(&self) -> Seq<u8> {
        self.value@
    }

    pub fn new(value: Vec<u8>) -> (r: Self)
        ensures
            r.value_spec() == value@,
            r.model() == raw_source_model(value@),
    {
        RawSource { value }
    }
}

impl Source for RawSource {
    closed spec fn model(&self) -> SourceModel {
        raw_source_model(self.value@)
    }

    proof fn lemma_wf(&self) {
        vstd::std_specs::vec::axiom_spec_len(&self.value);
        lemma_raw_stream_wf(self.value@, false);
        lemma_raw_stream_wf(self.value@, true);
    }

    fn source(&self) -> (r: Vec<u8>) {
        copy_range(&self.value, 0, self.value.len())
    }

    fn buffer(&self) -> (r: Vec<u8>) {
        copy_range(&self.value, 0, self.value.len())
    }

    fn hash(&self) -> (r: u64) {
        fx_hash_bytes(&self.value)
    }

    fn stream_chunks(&self, options: &MapOptions) -> (r: StreamOutput) {
        stream_chunks_of_raw_source(&self.value, options)
    }
}

/// The one-record map an original-text node carries: the whole text maps
/// to the start of its named original, whose content is the text itself.
pub open spec fn original_map_model(value: Seq<u8>, name: Seq<u8>) -> MapModel {
    MapModel {
        mappings: seq![
            Mapping {
                generated_offset: 0,
                original: Some(
                    OriginalLocation {
                        source_index: 0,
                        original_line: 1,
                        original_column: 0,
                        name_index: None,
                    },
                ),
            },
        ],
        sources: seq![name],
        sources_content: seq![value],
        names: Seq::empty(),
    }
}

pub proof fn lemma_original_map_wf(value: Seq<u8>, name: Seq<u8>)
    ensures
        wf_source_map(original_map_model(value, name), value.len() as int),
{
    let m = original_map_model(value, name);
    assert(m.mappings[0].original is Some);
}


/// Builds the one-record map of an original-text node.
fn build_original_map(value: &Vec<u8>, name: &Vec<u8>) -> (r: SourceMap)
    ensures
        r@ == original_map_model(value@, name@),
{
    let mut mappings: Vec<Mapping> = Vec::new();
    mappings.push(
        Mapping {
            generated_offset: 0,
            original: Some(
                OriginalLocation {
                    source_index: 0,
                    original_line: 1,
                    original_column: 0,
                    name_index: None,
                },
            ),
        },
    );
    let mut sources: Vec<Vec<u8>> = Vec::new();
    sources.push(copy_range(name, 0, name.len()));
    let mut contents: Vec<Vec<u8>> = Vec::new();
    contents.push(copy_range(value, 0, value.len()));
    let r = SourceMap::new(mappings, sources, contents, Vec::new());
    proof {
        assert(name@.subrange(0, name@.len() as int) =~= name@);
        assert(value@.subrange(0, value@.len() as int) =~= value@);
        assert(r@.mappings =~= original_map_model(value@, name@).mappings);
        assert(r@.sources =~~= original_map_model(value@, name@).sources);
        assert(r@.sources_content =~~= original_map_model(value@, name@).sources_content);
        assert(r@.names =~= original_map_model(value@, name@).names);
        assert(r@ =~~= original_map_model(value@, name@));
    }
    r
}

/// Original text under a name: one whole-text mapping record.
pub struct OriginalSource {
    value: Vec<u8>,
    name: Vec<u8>,
}

impl OriginalSource {
    pub closed spec fn value_spec(&self) -> Seq<u8> {
        self.value@
    }

    pub closed spec fn name_spec(&self) -> Seq<u8> {
        self.name@
    }

    pub fn new(value: Vec<u8>, name: Vec<u8>) -> (r: Self)
        ensures
            r.value_spec() == value@,
            r.name_spec() == name@,
            r.model() == mapped_source_model(value@, original_map_model(value@, name@)),
    {
        OriginalSource { value, name }
    }
}

impl Source for OriginalSource {
    closed spec fn model(&self) -> SourceModel {
        mapped_source_model(self.value@, original_map_model(self.value@, self.name@))
    }

    proof fn lemma_wf(&self) {
        vstd::std_specs::vec::axiom_spec_len(&self.value);
        lemma_original_map_wf(self.value@, self.name@);
        lemma_replay_stream_wf(self.value@, original_map_model(self.value@, self.name@), false);
        lemma_replay_stream_wf(self.value@, original_map_model(self.value@, self.name@), true);
    }

    fn source(&self) -> (r: Vec<u8>) {
        copy_range(&self.value, 0, self.value.len())
    }

    fn buffer(&self) -> (r: Vec<u8>) {
        copy_range(&self.value, 0, self.value.len())
    }

    fn hash(&self) -> (r: u64) {
        fx_hash_bytes(&self.value)
    }

    fn stream_chunks(&self, options: &MapOptions) -> (r: StreamOutput) {
        let map = build_original_map(&self.value, &self.name);
        proof {
            lemma_original_map_wf(self.value@, self.name@);
        }
        stream_chunks_of_source_map(&self.value, &map, options)
    }
}

/// Runtime check that a map can serve as a node's own map over `len` bytes
/// of generated text.
pub fn check_source_map(map: &SourceMap, len: usize) -> (b: bool)
    ensures
        b == wf_source_map(map@, len as int),
{
    if map.mappings.len() == 0 {
        return false;
    }
    if map.mappings[0].generated_offset != 0 {
        return false;
    }
    if map.sources_content.len() != map.sources.len() {
        return false;
    }
    let n = map.mappings.len();
    let mut i: usize = 0;
    let mut saw_original = false;
    while i < n
        invariant
            n == map@.mappings.len(),
            i <= n,
            n == map.mappings.len(),
            forall|k: int|
                0 <= k < i as int ==> (#[trigger] map@.mappings[k]).generated_offset as int
                    <= record_end(map@.mappings, k, len as int) <= len as int,
            saw_original == exists|k: int|
                0 <= k < i as int && (#[trigger] map@.mappings[k]).original is Some,
        decreases n - i,
    {
        let start = map.mappings[i].generated_offset;
        let end = if i + 1 < n {
            map.mappings[i + 1].generated_offset
        } else {
            len
        };
        assert(record_end(map@.mappings, i as int, len as int) == end as int);
        if !(start <= end && end <= len) {
            return false;
        }
        match map.mappings[i].original {
            Some(_) => {
                saw_original = true;
            },
            None => {},
        }
        i = i + 1;
    }
    saw_original
}

/// Text paired with an explicit map, validated at construction. A value
/// whose map does not fit its text behaves as a plain unmapped node; the
/// constructor never produces one.
pub struct SourceMapSource {
    value: Vec<u8>,
    map: SourceMap,
}

impl SourceMapSource {
    pub closed spec fn value_spec(&self) -> Seq<u8> {
        self.value@
    }

    pub closed spec fn map_spec(&self) -> MapModel {
        self.map@
    }

    /// Accepts the pair only when the map is well formed over the text.
    pub fn new(value: Vec<u8>, map: SourceMap) -> (r: Option<Self>)
        ensures
            match r {
                Some(s) => wf_source_map(map@, value@.len() as int) && s.value_spec() == value@
                    && s.map_spec() == map@ && s.model() == mapped_source_model(value@, map@),
                None => !wf_source_map(map@, value@.len() as int),
            },
    {
        let n = value.len();
        if check_source_map(&map, n) {
            Some(SourceMapSource { value, map })
        } else {
            None
        }
    }
}

impl Source for SourceMapSource {
    closed spec fn model(&self) -> SourceModel {
        if wf_source_map(self.map@, self.value@.len() as int) {
            mapped_source_model(self.value@, self.map@)
        } else {
            raw_source_model(self.value@)
        }
    }

    proof fn lemma_wf(&self) {
        vstd::std_specs::vec::axiom_spec_len(&self.value);
        if wf_source_map(self.map@, self.value@.len() as int) {
            lemma_replay_stream_wf(self.value@, self.map@, false);
            lemma_replay_stream_wf(self.value@, self.map@, true);
        } else {
            lemma_raw_stream_wf(self.value@, false);
            lemma_raw_stream_wf(self.value@, true);
        }
    }

    fn source(&self) -> (r: Vec<u8>) {
        copy_range(&self.value, 0, self.value.len())
    }

    fn buffer(&self) -> (r: Vec<u8>) {
        copy_range(&self.value, 0, self.value.len())
    }

    fn hash(&self) -> (r: u64) {
        fx_hash_bytes(&self.value)
    }

    fn stream_chunks(&self, options: &MapOptions) -> (r: StreamOutput) {
        if check_source_map(&self.map, self.value.len()) {
            stream_chunks_of_source_map(&self.value, &self.map, options)
        } else {
            stream_chunks_of_raw_source(&self.value, options)
        }
    }
}

} // verus!
