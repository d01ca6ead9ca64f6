use cached_source::cached_source::CachedSource;
use cached_source::source::Source;
use cached_source::source_kinds::{OriginalSource, RawSource, SourceMapSource};
use cached_source::types::{MapOptions, Mapping, OriginalLocation, SourceMap};

fn options(columns: bool, final_source: bool) -> MapOptions {
    MapOptions { columns, final_source }
}

#[test]
fn should_allow_to_store_and_share_cached_data() {
    let original = OriginalSource::new(b"Hello World".to_vec(), b"test.txt".to_vec());
    let source = CachedSource::new(original);
    let clone = source.clone();

    let map_options = MapOptions::default();
    source.source();
    source.buffer();
    source.size();
    source.map(&map_options).unwrap();

    assert_eq!(clone.cached_source().unwrap(), source.source());
    assert_eq!(clone.cached_buffer().unwrap(), source.buffer());
    assert_eq!(
        clone.cached_map(map_options.columns).unwrap(),
        source.map(&map_options).unwrap()
    );
}

#[test]
fn should_return_the_correct_size_for_binary_files() {
    let source = OriginalSource::new(vec![0u8; 256], b"file.wasm".to_vec());
    let cached_source = CachedSource::new(source);

    assert_eq!(cached_source.size(), 256);
    assert_eq!(cached_source.size(), 256);
}

#[test]
fn should_return_the_correct_size_for_cached_binary_files() {
    let source = OriginalSource::new(vec![0u8; 256], b"file.wasm".to_vec());
    let cached_source = CachedSource::new(source);

    cached_source.source();
    assert_eq!(cached_source.size(), 256);
    assert_eq!(cached_source.size(), 256);
}

#[test]
fn should_return_the_correct_size_for_text_files() {
    let source = OriginalSource::new(b"TestTestTest".to_vec(), b"file.js".to_vec());
    let cached_source = CachedSource::new(source);

    assert_eq!(cached_source.size(), 12);
    assert_eq!(cached_source.size(), 12);
}

#[test]
fn should_return_the_correct_size_for_cached_text_files() {
    let source = OriginalSource::new(b"TestTestTest".to_vec(), b"file.js".to_vec());
    let cached_source = CachedSource::new(source);

    cached_source.source();
    assert_eq!(cached_source.size(), 12);
    assert_eq!(cached_source.size(), 12);
}

#[test]
fn should_produce_correct_output_for_cached_raw_source() {
    let map_options = options(true, true);

    let source = RawSource::new(b"Test\nTest\nTest\n".to_vec());
    let generated_info = source.stream_chunks(&map_options);
    let on_chunk_count = generated_info.chunks.len();
    let on_source_count = generated_info.sources.len();
    let on_name_count = generated_info.names.len();

    let cached_source = CachedSource::new(RawSource::new(b"Test\nTest\nTest\n".to_vec()));
    cached_source.stream_chunks(&map_options).unwrap();

    let cached_generated_info = cached_source.stream_chunks(&map_options).unwrap();
    assert_eq!(on_chunk_count, cached_generated_info.chunks.len());
    assert_eq!(on_source_count, cached_generated_info.sources.len());
    assert_eq!(on_name_count, cached_generated_info.names.len());
    assert_eq!(generated_info.info, cached_generated_info.info);
}

#[test]
fn should_have_correct_buffer_if_cache_buffer_from_cache_source() {
    let buf = vec![128u8];
    let source = CachedSource::new(RawSource::new(buf.clone()));

    source.source();
    assert_eq!(source.buffer(), buf);
}

fn hello_console_source() -> SourceMapSource {
    let text = b"Hello World\nconsole.log('test');\nconsole.log('test2');\n".to_vec();
    let map = SourceMap::new(
        vec![
            Mapping {
                generated_offset: 0,
                original: None,
            },
            Mapping {
                generated_offset: 12,
                original: Some(OriginalLocation {
                    source_index: 0,
                    original_line: 1,
                    original_column: 0,
                    name_index: None,
                }),
            },
        ],
        vec![b"console.js".to_vec()],
        vec![b"console.log('test');\nconsole.log('test2');\n".to_vec()],
        vec![],
    );
    SourceMapSource::new(text, map).unwrap()
}

#[test]
fn repeated_text_and_map_calls_agree() {
    let cached = CachedSource::new(hello_console_source());
    let expected = b"Hello World\nconsole.log('test');\nconsole.log('test2');\n".to_vec();

    assert_eq!(cached.source(), expected);
    assert_eq!(cached.source(), expected);

    let map_options = MapOptions::default();
    let first = cached.map(&map_options).unwrap().unwrap();
    let second = cached.map(&map_options).unwrap().unwrap();
    assert_eq!(first.mappings, second.mappings);
    assert_eq!(first, second);
}

#[test]
fn fresh_traversal_equals_cached_replay() {
    let cached = CachedSource::new(hello_console_source());
    let map_options = options(true, false);

    let fresh = cached.stream_chunks(&map_options).unwrap();
    let replayed = cached.stream_chunks(&map_options).unwrap();
    assert_eq!(fresh, replayed);

    let text: Vec<u8> = fresh
        .chunks
        .iter()
        .flat_map(|c| c.text.clone().unwrap())
        .collect();
    assert_eq!(text, cached.source());
}

#[test]
fn map_entries_ignore_final_source() {
    let cached = CachedSource::new(hello_console_source());

    let with_final = cached.map(&options(true, true)).unwrap();
    let without_final = cached.map(&options(true, false)).unwrap();
    assert_eq!(with_final, without_final);
    assert_eq!(
        cached.cached_map(true).unwrap(),
        with_final
    );
}

#[test]
fn map_entries_differ_by_columns_independently() {
    let cached = CachedSource::new(hello_console_source());

    let lines = cached.map(&options(false, false)).unwrap();
    assert!(cached.cached_map(false).is_some());
    assert!(cached.cached_map(true).is_none());

    let columns = cached.map(&options(true, false)).unwrap();
    assert!(cached.cached_map(true).is_some());
    assert_eq!(cached.cached_map(false).unwrap(), lines);
    assert_eq!(cached.cached_map(true).unwrap(), columns);
}

#[test]
fn subtree_is_reclaimed_once_all_artifacts_are_cached() {
    let cached = CachedSource::new(hello_console_source());
    let expected = b"Hello World\nconsole.log('test');\nconsole.log('test2');\n".to_vec();

    assert!(!cached.is_separated());
    cached.source();
    cached.buffer();
    cached.hash();
    assert!(!cached.is_separated());
    cached.map(&options(true, false)).unwrap();
    assert!(cached.is_separated());

    assert_eq!(cached.source(), expected);
    assert_eq!(cached.size(), expected.len());
    assert!(cached.map(&options(true, true)).unwrap().is_some());
    assert!(cached.stream_chunks(&options(true, false)).is_ok());
}

#[test]
fn uncached_granularity_fails_loudly_after_reclamation() {
    let cached = CachedSource::new(hello_console_source());

    cached.source();
    cached.buffer();
    cached.hash();
    cached.map(&options(true, false)).unwrap();
    assert!(cached.is_separated());

    assert!(cached.map(&options(false, false)).is_err());
    assert!(cached.stream_chunks(&options(false, false)).is_err());
}

#[test]
fn hash_is_shared_and_content_based_while_equality_is_identity() {
    let a = CachedSource::new(RawSource::new(b"alpha".to_vec()));
    let b = CachedSource::new(RawSource::new(b"beta".to_vec()));
    let a2 = CachedSource::new(RawSource::new(b"alpha".to_vec()));

    assert_eq!(a.hash(), a.hash());
    assert_eq!(a.hash(), a2.hash());
    assert_ne!(a.hash(), b.hash());

    let twin = a.clone();
    assert!(a.is_same_instance(&twin));
    assert!(!a.is_same_instance(&a2));
    assert_eq!(twin.cached_hash().unwrap(), a.hash());
}

#[test]
fn size_matches_byte_length_of_binary_text() {
    let cached = CachedSource::new(RawSource::new(vec![0u8; 256]));
    assert_eq!(cached.size(), 256);
    assert_eq!(cached.source().len(), 256);
}

#[test]
fn raw_source_never_stores_a_map() {
    let cached = CachedSource::new(RawSource::new(b"Test\n".to_vec()));
    assert!(cached.map(&MapOptions::default()).unwrap().is_none());
    assert_eq!(cached.cached_map(true).unwrap(), None);
}

#[test]
fn empty_source_has_empty_artifacts() {
    let cached = CachedSource::new(RawSource::new(Vec::new()));
    assert_eq!(cached.size(), 0);
    assert_eq!(cached.source(), Vec::<u8>::new());
    assert_eq!(cached.buffer(), Vec::<u8>::new());
    assert!(cached.map(&MapOptions::default()).unwrap().is_none());
    let streamed = cached.stream_chunks(&MapOptions::default()).unwrap();
    assert_eq!(streamed.chunks.len(), 0);
    assert_eq!(streamed.info.generated_offset, 0);
}

#[test]
fn final_source_streaming_replays_identically() {
    let cached = CachedSource::new(hello_console_source());
    let map_options = options(true, true);

    let fresh = cached.stream_chunks(&map_options).unwrap();
    let replayed = cached.stream_chunks(&map_options).unwrap();
    assert_eq!(fresh, replayed);
    for chunk in &fresh.chunks {
        assert_eq!(chunk.text.clone().unwrap(), Vec::<u8>::new());
    }
    assert_eq!(fresh.chunks.len(), 2);
    assert_eq!(fresh.sources.len(), 1);
    assert_eq!(
        fresh.info.generated_offset,
        b"Hello World\nconsole.log('test');\nconsole.log('test2');\n".len()
    );
}
