//! The chunk replay engines: pure functions that regenerate a chunk event
//! stream either from cached text plus a cached map, or from cached text
//! alone.
use vstd::prelude::*;

use crate::model::{raw_source_stream, record_end, replay_chunk, replay_stream, wf_source_map};
use crate::types::{
    Chunk, GeneratedInfo, MapModel, MapOptions, Mapping, NameEntry, SourceEntry, SourceMap,
    StreamOutput,
};

verus! {

/// Copy of a byte range of `v`.
pub fn copy_range(v: &Vec<u8>, start: usize, end: usize) -> (r: Vec<u8>)
    requires
        start <= end <= v@.len(),
    ensures
        r@ == v@.subrange(start as int, end as int),
{
    let mut r: Vec<u8> = Vec::new();
    let mut i: usize = start;
    while i < end
        invariant
            start <= i <= end <= v@.len(),
            r@ == v@.subrange(start as int, i as int),
        decreases end - i,
    {
        r.push(v[i]);
        i = i + 1;
        proof {
            assert(v@.subrange(start as int, i as int) =~= v@.subrange(
                start as int,
                i as int - 1,
            ).push(v@[i as int - 1]));
        }
    }
    r
}

/// Copy of a whole byte vector.
pub fn copy_bytes(v: &Vec<u8>) -> (r: Vec<u8>)
    ensures
        r@ == v@,
{
    let r = copy_range(v, 0, v.len());
    proof {
        assert(v@.subrange(0, v@.len() as int) =~= v@);
    }
    r
}

/// Regenerates the event stream of a mapped source from its full text and
/// its map: one chunk per mapping record, its text re-sliced from the full
/// text between consecutive record offsets (withheld as empty under
/// `final_source`), then every source path with its content, then every
/// name.
pub fn stream_chunks_of_source_map(
    text: &Vec<u8>,
    map: &SourceMap,
    options: &MapOptions,
) -> (r: StreamOutput)
    requires
        wf_source_map(map@, text@.len() as int),
    ensures
        r@ == replay_stream(text@, Some(map@), options.final_source),
{
    let n = map.mappings.len();
    let mut chunks: Vec<Chunk> = Vec::new();
    let mut i: usize = 0;
    while i < n
        invariant
            n == map@.mappings.len(),
            i <= n,
            wf_source_map(map@, text@.len() as int),
            chunks@.len() == i as int,
            forall|k: int|
                0 <= k < i as int ==> (#[trigger] chunks@[k])@ == replay_chunk(
                    text@,
                    map@.mappings,
                    options.final_source,
                    k,
                ),
        decreases n - i,
    {
        let start = map.mappings[i].generated_offset;
        let end = if i + 1 < n {
            map.mappings[i + 1].generated_offset
        } else {
            text.len()
        };
        assert(start <= end <= text@.len()) by {
            assert(record_end(map@.mappings, i as int, text@.len() as int) == end as int);
        }
        let payload: Vec<u8> = if options.final_source {
            Vec::new()
        } else {
            copy_range(text, start, end)
        };
        chunks.push(Chunk { text: Some(payload), mapping: map.mappings[i] });
        i = i + 1;
    }
    let mut sources: Vec<SourceEntry> = Vec::new();
    let sn = map.sources.len();
    let mut j: usize = 0;
    while j < sn
        invariant
            sn == map@.sources.len(),
            j <= sn,
            map@.sources_content.len() == map@.sources.len(),
            sn == map.sources.len(),
            sn == map.sources_content.len(),
            sources@.len() == j as int,
            forall|k: int|
                0 <= k < j as int ==> (#[trigger] sources@[k])@.index == k
                    && sources@[k]@.path == map@.sources[k]
                    && sources@[k]@.content == Some(map@.sources_content[k]),
        decreases sn - j,
    {
        sources.push(
            SourceEntry {
                index: j,
                path: map.sources[j].clone(),
                content: Some(map.sources_content[j].clone()),
            },
        );
        j = j + 1;
    }
    let mut names: Vec<NameEntry> = Vec::new();
    let nn = map.names.len();
    let mut k: usize = 0;
    while k < nn
        invariant
            nn == map@.names.len(),
            k <= nn,
            nn == map.names.len(),
            names@.len() == k as int,
            forall|q: int|
                0 <= q < k as int ==> (#[trigger] names@[q])@.index == q && names@[q]@.name
                    == map@.names[q],
        decreases nn - k,
    {
        names.push(NameEntry { index: k, name: map.names[k].clone() });
        k = k + 1;
    }
    let r = StreamOutput {
        chunks,
        sources,
        names,
        info: GeneratedInfo { generated_offset: text.len() },
    };
    proof {
        let want = replay_stream(text@, Some(map@), options.final_source);
        assert(r@.chunks =~= want.chunks);
        assert(r@.sources =~= want.sources);
        assert(r@.names =~= want.names);
        assert(r@ =~= want);
    }
    r
}

/// Regenerates the event stream of a source that never had mappings: the
/// whole text as one unmapped chunk (empty under `final_source`), no
/// source events, no name events.
pub fn stream_chunks_of_raw_replay(text: &Vec<u8>, options: &MapOptions) -> (r: StreamOutput)
    ensures
        r@ == replay_stream(text@, None::<MapModel>, options.final_source),
{
    let mut chunks: Vec<Chunk> = Vec::new();
    if text.len() > 0 {
        let payload: Vec<u8> = if options.final_source {
            Vec::new()
        } else {
            copy_range(text, 0, text.len())
        };
        proof {
            if !options.final_source {
                assert(text@.subrange(0, text@.len() as int) =~= text@);
            }
        }
        chunks.push(Chunk { text: Some(payload), mapping: Mapping { generated_offset: 0, original: None } });
    }
    let r = StreamOutput {
        chunks,
        sources: Vec::new(),
        names: Vec::new(),
        info: GeneratedInfo { generated_offset: text.len() },
    };
    proof {
        let want = replay_stream(text@, None::<MapModel>, options.final_source);
        assert(r@.chunks =~= want.chunks);
        assert(r@.sources =~= want.sources);
        assert(r@.names =~= want.names);
        assert(r@ =~= want);
    }
    r
}

/// The stream a plain unmapped source itself emits: as the replay form,
/// but under `final_source` the chunk text is withheld outright.
pub fn stream_chunks_of_raw_source(text: &Vec<u8>, options: &MapOptions) -> (r: StreamOutput)
    ensures
        r@ == raw_source_stream(text@, options.final_source),
{
    let mut chunks: Vec<Chunk> = Vec::new();
    if text.len() > 0 {
        let payload: Option<Vec<u8>> = if options.final_source {
            None
        } else {
            let c = copy_range(text, 0, text.len());
            proof {
                assert(text@.subrange(0, text@.len() as int) =~= text@);
            }
            Some(c)
        };
        chunks.push(Chunk { text: payload, mapping: Mapping { generated_offset: 0, original: None } });
    }
    let r = StreamOutput {
        chunks,
        sources: Vec::new(),
        names: Vec::new(),
        info: GeneratedInfo { generated_offset: text.len() },
    };
    proof {
        let want = raw_source_stream(text@, options.final_source);
        assert(r@.chunks =~= want.chunks);
        assert(r@.sources =~= want.sources);
        assert(r@.names =~= want.names);
        assert(r@ =~= want);
    }
    r
}

} // verus!
