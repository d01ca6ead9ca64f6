//! The mathematical model: what a source's streams look like, how a map is
//! read off a stream, what a fresh traversal emits, and what a cache replay
//! emits — with the proof that the two agree on every well-formed source.
use vstd::prelude::*;

use crate::types::{
    ChunkModel, GeneratedInfo, MapModel, Mapping, NameEntryModel, SourceEntryModel, StreamModel,
};

verus! {

/// Byte length a chunk claims for itself (a withheld payload claims none).
pub open spec fn payload_len(c: ChunkModel) -> int {
    match c.text {
        Some(t) => t.len() as int,
        None => 0,
    }
}

/// Total byte length claimed by the first `i` chunks.
pub open spec fn cum_len(chunks: Seq<ChunkModel>, i: int) -> int
    decreases i,
{
    if i <= 0 {
        0
    } else {
        cum_len(chunks, i - 1) + payload_len(chunks[i - 1])
    }
}

pub proof fn lemma_cum_len_mono(chunks: Seq<ChunkModel>, i: int, j: int)
    requires
        0 <= i <= j,
    ensures
        cum_len(chunks, i) <= cum_len(chunks, j),
    decreases j - i,
{
    if i < j {
        lemma_cum_len_mono(chunks, i, j - 1);
    }
}

pub proof fn lemma_cum_len_nonneg(chunks: Seq<ChunkModel>, i: int)
    requires
        0 <= i,
    ensures
        0 <= cum_len(chunks, i),
    decreases i,
{
    if 0 < i {
        lemma_cum_len_nonneg(chunks, i - 1);
    }
}

pub proof fn lemma_cum_len_zero(chunks: Seq<ChunkModel>, i: int)
    requires
        0 <= i <= chunks.len(),
        forall|k: int| 0 <= k < chunks.len() ==> payload_len(#[trigger] chunks[k]) == 0,
    ensures
        cum_len(chunks, i) == 0,
    decreases i,
{
    if 0 < i {
        lemma_cum_len_zero(chunks, i - 1);
    }
}

/// Where the text covered by mapping record `i` ends: at the next record's
/// offset, or at the end of the generated text for the last record.
pub open spec fn record_end(mappings: Seq<Mapping>, i: int, total: int) -> int {
    if i + 1 < mappings.len() {
        mappings[i + 1].generated_offset as int
    } else {
        total
    }
}

pub open spec fn content_or_empty(c: Option<Seq<u8>>) -> Seq<u8> {
    match c {
        Some(s) => s,
        None => Seq::empty(),
    }
}

/// Whether any chunk of the stream carries an original location.
pub open spec fn has_original(chunks: Seq<ChunkModel>) -> bool {
    exists|i: int| 0 <= i < chunks.len() && (#[trigger] chunks[i]).mapping.original is Some
}

/// The map a fresh traversal reads off a stream: every chunk's mapping
/// record in order, the source paths, the contents with empty holes, and
/// the names. A stream with no original location yields no map.
pub open spec fn map_of_stream(s: StreamModel) -> Option<MapModel> {
    if has_original(s.chunks) {
        Some(
            MapModel {
                mappings: Seq::new(s.chunks.len(), |i: int| s.chunks[i].mapping),
                sources: Seq::new(s.sources.len(), |j: int| s.sources[j].path),
                sources_content: Seq::new(
                    s.sources.len(),
                    |j: int| content_or_empty(s.sources[j].content),
                ),
                names: Seq::new(s.names.len(), |j: int| s.names[j].name),
            },
        )
    } else {
        None
    }
}

/// The canonical stream of a source that has no mappings: the whole text as
/// one unmapped chunk (withheld under `final_source`), no sources, no names.
pub open spec fn raw_source_stream(text: Seq<u8>, final_source: bool) -> StreamModel {
    StreamModel {
        chunks: if text.len() == 0 {
            Seq::empty()
        } else {
            seq![
                ChunkModel {
                    text: if final_source {
                        None
                    } else {
                        Some(text)
                    },
                    mapping: Mapping { generated_offset: 0, original: None },
                },
            ]
        },
        sources: Seq::empty(),
        names: Seq::empty(),
        info: GeneratedInfo { generated_offset: text.len() as usize },
    }
}

/// The chunk a cache replay emits for mapping record `i`.
pub open spec fn replay_chunk(
    text: Seq<u8>,
    mappings: Seq<Mapping>,
    final_source: bool,
    i: int,
) -> ChunkModel {
    ChunkModel {
        text: Some(
            if final_source {
                Seq::empty()
            } else {
                text.subrange(
                    mappings[i].generated_offset as int,
                    record_end(mappings, i, text.len() as int),
                )
            },
        ),
        mapping: mappings[i],
    }
}

/// What a replay pass emits given the cached text and the cached optional
/// map: with a map, one chunk per record re-sliced from the text, the
/// sources and names read off the map; without one, the raw single-chunk
/// stream with its text materialized.
pub open spec fn replay_stream(
    text: Seq<u8>,
    map: Option<MapModel>,
    final_source: bool,
) -> StreamModel {
    match map {
        Some(m) => StreamModel {
            chunks: Seq::new(m.mappings.len(), |i: int| replay_chunk(text, m.mappings, final_source, i)),
            sources: Seq::new(
                m.sources.len(),
                |j: int| SourceEntryModel {
                    index: j,
                    path: m.sources[j],
                    content: Some(m.sources_content[j]),
                },
            ),
            names: Seq::new(m.names.len(), |j: int| NameEntryModel { index: j, name: m.names[j] }),
            info: GeneratedInfo { generated_offset: text.len() as usize },
        },
        None => StreamModel {
            chunks: if text.len() == 0 {
                Seq::empty()
            } else {
                seq![
                    ChunkModel {
                        text: Some(
                            if final_source {
                                Seq::empty()
                            } else {
                                text
                            },
                        ),
                        mapping: Mapping { generated_offset: 0, original: None },
                    },
                ]
            },
            sources: Seq::empty(),
            names: Seq::empty(),
            info: GeneratedInfo { generated_offset: text.len() as usize },
        },
    }
}

/// The chunk a fresh traversal emits for input chunk `i`: the mapping is
/// forwarded, the text is re-sliced from the full generated text at the
/// running byte cursor, never taken from the subtree's payload.
pub open spec fn transform_chunk(text: Seq<u8>, chunks: Seq<ChunkModel>, i: int) -> ChunkModel {
    ChunkModel {
        text: Some(
            match chunks[i].text {
                Some(t) => text.subrange(cum_len(chunks, i), cum_len(chunks, i) + t.len()),
                None => Seq::empty(),
            },
        ),
        mapping: chunks[i].mapping,
    }
}

/// The source event a fresh traversal forwards: the path as stored, the
/// content with a hole materialized as the empty placeholder.
pub open spec fn transform_source(e: SourceEntryModel) -> SourceEntryModel {
    SourceEntryModel { index: e.index, path: e.path, content: Some(content_or_empty(e.content)) }
}

/// Everything a fresh traversal emits, as a function of the full text and
/// the subtree's own stream.
pub open spec fn transform_stream(text: Seq<u8>, s: StreamModel) -> StreamModel {
    StreamModel {
        chunks: Seq::new(s.chunks.len(), |i: int| transform_chunk(text, s.chunks, i)),
        sources: Seq::new(s.sources.len(), |j: int| transform_source(s.sources[j])),
        names: s.names,
        info: s.info,
    }
}

/// Well-formedness of one stream of a source, against the source's text and
/// its map for the stream's granularity:
/// - the closing cursor sits at the end of the text;
/// - source and name events carry dense indices in order;
/// - the map for this granularity is exactly what the stream spells out;
/// - without `final_source`, chunk payloads are present, each record's
///   offset is the running total of the payloads before it, and together
///   the payloads cover the text; with it, payloads claim no bytes;
/// - a stream with no mappings is the canonical raw stream.
pub open spec fn wf_stream(
    s: StreamModel,
    text: Seq<u8>,
    map: Option<MapModel>,
    final_source: bool,
) -> bool {
    &&& text.len() <= usize::MAX
    &&& s.info == GeneratedInfo { generated_offset: text.len() as usize }
    &&& forall|j: int| 0 <= j < s.sources.len() ==> (#[trigger] s.sources[j]).index == j
    &&& forall|j: int| 0 <= j < s.names.len() ==> (#[trigger] s.names[j]).index == j
    &&& map_of_stream(s) == map
    &&& if final_source {
        forall|i: int| 0 <= i < s.chunks.len() ==> payload_len(#[trigger] s.chunks[i]) == 0
    } else {
        &&& forall|i: int|
            0 <= i < s.chunks.len() ==> (#[trigger] s.chunks[i]).text is Some
                && s.chunks[i].mapping.generated_offset as int == cum_len(s.chunks, i)
        &&& cum_len(s.chunks, s.chunks.len() as int) == text.len()
    }
    &&& map is None ==> s == raw_source_stream(text, final_source)
}

/// What a stored map satisfies against the text it belongs to; enough for
/// a replay pass to re-slice the text safely.
pub open spec fn wf_source_map(m: MapModel, text_len: int) -> bool {
    &&& m.mappings.len() > 0
    &&& m.mappings[0].generated_offset == 0
    &&& forall|i: int|
        0 <= i < m.mappings.len() ==> (#[trigger] m.mappings[i]).generated_offset as int
            <= record_end(m.mappings, i, text_len) <= text_len
    &&& m.sources_content.len() == m.sources.len()
    &&& exists|i: int| 0 <= i < m.mappings.len() && (#[trigger] m.mappings[i]).original is Some
}

/// A well-formed stream's map can be replayed against the text.
pub proof fn lemma_wf_stream_gives_wf_map(
    s: StreamModel,
    text: Seq<u8>,
    m: MapModel,
    final_source: bool,
)
    requires
        wf_stream(s, text, Some(m), false),
    ensures
        wf_source_map(m, text.len() as int),
{
    let n = s.chunks.len() as int;
    assert(m.mappings.len() == n);
    assert(n > 0) by {
        if n == 0 {
            assert(!has_original(s.chunks));
        }
    }
    assert(m.mappings[0].generated_offset as int == cum_len(s.chunks, 0));
    assert forall|i: int| 0 <= i < n implies (#[trigger] m.mappings[i]).generated_offset as int
        <= record_end(m.mappings, i, text.len() as int) <= text.len() as int by {
        assert(m.mappings[i] == s.chunks[i].mapping);
        assert(m.mappings[i].generated_offset as int == cum_len(s.chunks, i));
        if i + 1 < n {
            assert(m.mappings[i + 1] == s.chunks[i + 1].mapping);
            assert(record_end(m.mappings, i, text.len() as int) == cum_len(s.chunks, i + 1));
            assert(cum_len(s.chunks, i) <= cum_len(s.chunks, i + 1)) by {
                lemma_cum_len_mono(s.chunks, i, i + 1);
            }
            assert(cum_len(s.chunks, i + 1) <= cum_len(s.chunks, n)) by {
                lemma_cum_len_mono(s.chunks, i + 1, n);
            }
        } else {
            assert(record_end(m.mappings, i, text.len() as int) == text.len() as int);
            assert(cum_len(s.chunks, i) <= cum_len(s.chunks, n)) by {
                lemma_cum_len_mono(s.chunks, i, n);
            }
        }
    }
    let w = choose|i: int| 0 <= i < s.chunks.len() && (#[trigger] s.chunks[i]).mapping.original is Some;
    assert(m.mappings[w].original is Some);
}

/// The central equivalence: on a well-formed stream, what a fresh traversal
/// emits is exactly what a later replay from the cached text and cached map
/// emits — chunk texts, mapping records, source and name strings, and the
/// closing cursor alike.
pub proof fn lemma_stream_equivalence(
    text: Seq<u8>,
    s: StreamModel,
    map: Option<MapModel>,
    final_source: bool,
)
    requires
        wf_stream(s, text, map, final_source),
    ensures
        transform_stream(text, s) == replay_stream(text, map, final_source),
{
    let t = transform_stream(text, s);
    let r = replay_stream(text, map, final_source);
    match map {
        Some(m) => {
            let n = s.chunks.len() as int;
            assert(m.mappings.len() == n);
            assert forall|i: int| 0 <= i < n implies t.chunks[i] == r.chunks[i] by {
                assert(m.mappings[i] == s.chunks[i].mapping);
                assert(t.chunks[i] == transform_chunk(text, s.chunks, i));
                assert(r.chunks[i] == replay_chunk(text, m.mappings, final_source, i));
                if final_source {
                    assert(payload_len(s.chunks[i]) == 0);
                    match s.chunks[i].text {
                        Some(p) => {
                            assert(p.len() == 0);
                            assert(cum_len(s.chunks, i) == 0) by {
                                lemma_cum_len_zero(s.chunks, i);
                            }
                            assert(text.subrange(0, 0) =~= Seq::<u8>::empty());
                        },
                        None => {},
                    }
                } else {
                    let start = cum_len(s.chunks, i);
                    assert(s.chunks[i].text is Some);
                    let p = s.chunks[i].text->Some_0;
                    assert(m.mappings[i].generated_offset as int == start);
                    if i + 1 < n {
                        assert(m.mappings[i + 1] == s.chunks[i + 1].mapping);
                        assert(record_end(m.mappings, i, text.len() as int) == cum_len(
                            s.chunks,
                            i + 1,
                        ));
                        assert(cum_len(s.chunks, i + 1) == start + payload_len(s.chunks[i]));
                    } else {
                        assert(record_end(m.mappings, i, text.len() as int) == cum_len(
                            s.chunks,
                            n,
                        ));
                        assert(cum_len(s.chunks, n) == start + payload_len(s.chunks[i]));
                    }
                    assert(record_end(m.mappings, i, text.len() as int) == start + p.len());
                }
            }
            assert(t.chunks =~= r.chunks);
            assert forall|j: int| 0 <= j < s.sources.len() implies t.sources[j] == r.sources[j] by {
                assert(s.sources[j].index == j);
                assert(m.sources[j] == s.sources[j].path);
                assert(m.sources_content[j] == content_or_empty(s.sources[j].content));
            }
            assert(t.sources =~= r.sources);
            assert forall|j: int| 0 <= j < s.names.len() implies t.names[j] == r.names[j] by {
                assert(s.names[j].index == j);
                assert(m.names[j] == s.names[j].name);
            }
            assert(t.names =~= r.names);
            assert(t =~= r);
        },
        None => {
            assert(s == raw_source_stream(text, final_source));
            if text.len() == 0 {
                assert(t.chunks =~= r.chunks);
                assert(t.sources =~= r.sources);
                assert(t =~= r);
            } else {
                assert(s.chunks.len() == 1);
                assert(t.chunks[0] == transform_chunk(text, s.chunks, 0));
                if final_source {
                    assert(s.chunks[0].text is None);
                    assert(t.chunks[0].text == Some(Seq::<u8>::empty()));
                } else {
                    assert(s.chunks[0].text == Some(text));
                    assert(text.subrange(0, text.len() as int) =~= text);
                    assert(t.chunks[0].text == Some(text));
                }
                assert(t.chunks[0] == r.chunks[0]);
                assert(t.chunks =~= r.chunks);
                assert(t.sources =~= r.sources);
                assert(t =~= r);
            }
        },
    }
}

} // verus!
