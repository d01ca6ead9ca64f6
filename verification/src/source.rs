//! The source capability: the uniform interface every tree node offers.
//! Each node determines a mathematical model — its text, its buffer, its
//! structural hash, its optional map per granularity, and its event stream
//! per options — and its operations are bound to that model.
use vstd::prelude::*;

use crate::model::wf_stream;
use crate::types::{MapModel, MapOptions, StreamModel, StreamOutput};

verus! {

/// Everything a source node abstractly is.
#[verifier::ext_equal]
pub ghost struct SourceModel {
    /// The flattened generated text, as bytes.
    pub text: Seq<u8>,
    /// The binary form; for text nodes the text's bytes.
    pub buffer: Seq<u8>,
    /// The structural content hash.
    pub hash: u64,
    /// The map at column granularity.
    pub map_columns: Option<MapModel>,
    /// The map at line granularity.
    pub map_lines: Option<MapModel>,
    /// The streams, per (columns, final_source).
    pub stream_c_f: StreamModel,
    pub stream_c_t: StreamModel,
    pub stream_l_f: StreamModel,
    pub stream_l_t: StreamModel,
}

impl SourceModel {
    pub open spec fn map_for(self, columns: bool) -> Option<MapModel> {
        if columns {
            self.map_columns
        } else {
            self.map_lines
        }
    }

    pub open spec fn stream_for(self, columns: bool, final_source: bool) -> StreamModel {
        if columns {
            if final_source {
                self.stream_c_t
            } else {
                self.stream_c_f
            }
        } else {
            if final_source {
                self.stream_l_t
            } else {
                self.stream_l_f
            }
        }
    }
}

/// A source model is coherent when each of its four streams is well formed
/// against its text and its map of the matching granularity.
pub open spec fn wf_source_model(m: SourceModel) -> bool {
    &&& wf_stream(m.stream_c_f, m.text, m.map_columns, false)
    &&& wf_stream(m.stream_c_t, m.text, m.map_columns, true)
    &&& wf_stream(m.stream_l_f, m.text, m.map_lines, false)
    &&& wf_stream(m.stream_l_t, m.text, m.map_lines, true)
}

/// The source capability. Implementations promise that every operation
/// reports the one model of the node, and that the model is coherent.
pub trait Source: Sized {
    spec fn model(&self) -> SourceModel;

    proof fn lemma_wf(&self)
        ensures
            wf_source_model(self.model()),
    ;

    /// The flattened generated text.
    fn source(&self) -> (r: Vec<u8>)
        ensures
            r@ == self.model().text,
    ;

    /// The binary form.
    fn buffer(&self) -> (r: Vec<u8>)
        ensures
            r@ == self.model().buffer,
    ;

    /// The structural content hash.
    fn hash(&self) -> (r: u64)
        ensures
            r == self.model().hash,
    ;

    /// One full traversal: the chunk, source and name events in generation
    /// order, and the closing cursor.
    fn stream_chunks(&self, options: &MapOptions) -> (r: StreamOutput)
        ensures
            r@ == self.model().stream_for(options.columns, options.final_source),
    ;
}

} // verus!
