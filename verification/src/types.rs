//! Plain data carried between a source tree, the cache, and callers.
use vstd::prelude::*;

verus! {

/// Options for producing a source map. Only `columns` takes part in the
/// cache key; `final_source` is a formatting hint for streaming.
#[derive(Clone, Copy, PartialEq, Eq, Debug)]
pub struct MapOptions {
    pub columns: bool,
    pub final_source: bool,
}

impl Default for MapOptions {
    fn default() -> (r: Self)
        ensures
            r.columns == true,
            r.final_source == false,
    {
        MapOptions { columns: true, final_source: false }
    }
}

/// The original-file side of a mapping record.
#[derive(Clone, Copy, PartialEq, Eq, Debug)]
pub struct OriginalLocation {
    pub source_index: usize,
    pub original_line: usize,
    pub original_column: usize,
    pub name_index: Option<usize>,
}

/// One mapping record: a byte offset into the generated text, and
/// optionally where that position came from.
#[derive(Clone, Copy, PartialEq, Eq, Debug)]
pub struct Mapping {
    pub generated_offset: usize,
    pub original: Option<OriginalLocation>,
}

/// End-of-stream cursor summary handed back by every streaming pass.
#[derive(Clone, Copy, PartialEq, Eq, Debug)]
pub struct GeneratedInfo {
    pub generated_offset: usize,
}

/// Mathematical shape of a source map.
#[verifier::ext_equal]
pub ghost struct MapModel {
    pub mappings: Seq<Mapping>,
    pub sources: Seq<Seq<u8>>,
    pub sources_content: Seq<Seq<u8>>,
    pub names: Seq<Seq<u8>>,
}

/// A source map: mapping records plus the referenced paths, contents and
/// names. Contents is kept at the same length as sources, holes are empty.
#[derive(Clone, PartialEq, Eq, Debug)]
pub struct SourceMap {
    pub mappings: Vec<Mapping>,
    pub sources: Vec<Vec<u8>>,
    pub sources_content: Vec<Vec<u8>>,
    pub names: Vec<Vec<u8>>,
}

impl View for SourceMap {
    type V = MapModel;

    open spec fn view(&self) -> MapModel {
        MapModel {
            mappings: self.mappings@,
            sources: self.sources.deep_view(),
            sources_content: self.sources_content.deep_view(),
            names: self.names.deep_view(),
        }
    }
}

impl SourceMap {
    pub fn new(
        mappings: Vec<Mapping>,
        sources: Vec<Vec<u8>>,
        sources_content: Vec<Vec<u8>>,
        names: Vec<Vec<u8>>,
    ) -> (r: Self)
        ensures
            r@ == (MapModel {
                mappings: mappings@,
                sources: sources.deep_view(),
                sources_content: sources_content.deep_view(),
                names: names.deep_view(),
            }),
    {
        SourceMap { mappings, sources, sources_content, names }
    }
}

/// Spec view of an optional map.
pub open spec fn opt_map_view(o: Option<SourceMap>) -> Option<MapModel> {
    match o {
        Some(m) => Some(m@),
        None => None,
    }
}

/// Spec view of optional bytes.
pub open spec fn opt_bytes_view(o: Option<Vec<u8>>) -> Option<Seq<u8>> {
    match o {
        Some(v) => Some(v@),
        None => None,
    }
}

/// One chunk event: a fragment of generated text (possibly withheld) and
/// its mapping record.
#[derive(Clone, PartialEq, Eq, Debug)]
pub struct Chunk {
    pub text: Option<Vec<u8>>,
    pub mapping: Mapping,
}

#[verifier::ext_equal]
pub ghost struct ChunkModel {
    pub text: Option<Seq<u8>>,
    pub mapping: Mapping,
}

impl View for Chunk {
    type V = ChunkModel;

    open spec fn view(&self) -> ChunkModel {
        ChunkModel { text: opt_bytes_view(self.text), mapping: self.mapping }
    }
}

impl DeepView for Chunk {
    type V = ChunkModel;

    open spec fn deep_view(&self) -> ChunkModel {
        self.view()
    }
}

/// One source-path event.
#[derive(Clone, PartialEq, Eq, Debug)]
pub struct SourceEntry {
    pub index: usize,
    pub path: Vec<u8>,
    pub content: Option<Vec<u8>>,
}

#[verifier::ext_equal]
pub ghost struct SourceEntryModel {
    pub index: int,
    pub path: Seq<u8>,
    pub content: Option<Seq<u8>>,
}

impl View for SourceEntry {
    type V = SourceEntryModel;

    open spec fn view(&self) -> SourceEntryModel {
        SourceEntryModel {
            index: self.index as int,
            path: self.path@,
            content: opt_bytes_view(self.content),
        }
    }
}

impl DeepView for SourceEntry {
    type V = SourceEntryModel;

    open spec fn deep_view(&self) -> SourceEntryModel {
        self.view()
    }
}

/// One name event.
#[derive(Clone, PartialEq, Eq, Debug)]
pub struct NameEntry {
    pub index: usize,
    pub name: Vec<u8>,
}

#[verifier::ext_equal]
pub ghost struct NameEntryModel {
    pub index: int,
    pub name: Seq<u8>,
}

impl View for NameEntry {
    type V = NameEntryModel;

    open spec fn view(&self) -> NameEntryModel {
        NameEntryModel { index: self.index as int, name: self.name@ }
    }
}

impl DeepView for NameEntry {
    type V = NameEntryModel;

    open spec fn deep_view(&self) -> NameEntryModel {
        self.view()
    }
}

/// Everything one streaming pass emits: the chunk, source and name event
/// sequences, each in generation order, and the closing cursor summary.
#[derive(Clone, PartialEq, Eq, Debug)]
pub struct StreamOutput {
    pub chunks: Vec<Chunk>,
    pub sources: Vec<SourceEntry>,
    pub names: Vec<NameEntry>,
    pub info: GeneratedInfo,
}

#[verifier::ext_equal]
pub ghost struct StreamModel {
    pub chunks: Seq<ChunkModel>,
    pub sources: Seq<SourceEntryModel>,
    pub names: Seq<NameEntryModel>,
    pub info: GeneratedInfo,
}

impl View for StreamOutput {
    type V = StreamModel;

    open spec fn view(&self) -> StreamModel {
        StreamModel {
            chunks: self.chunks.deep_view(),
            sources: self.sources.deep_view(),
            names: self.names.deep_view(),
            info: self.info,
        }
    }
}

/// Returned where a query can no longer be answered: the wrapped subtree
/// was reclaimed and the asked-for artifact was never cached. Reaching
/// this is a caller-side defect; it is reported loudly, never absorbed.
#[derive(Clone, Copy, PartialEq, Eq, Debug)]
pub struct ReclaimedSubtree;

} // verus!
