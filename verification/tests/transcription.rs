use quoteme::transcription::{
    append_transcript, count_dark, implausibly_sparse, load_word_list, prompt_from, transcript_of,
    whole_request, ChunkError, FinishRequest, LoadError, StreamingTranscriber, TranscriptionEngine,
    MIN_FINAL_NEW_SAMPLES, STREAM_CHUNK_SAMPLES, STREAM_MIN_CHUNK_SAMPLES,
};

const SECOND: u128 = 1_000_000_000;

fn engine(path: &str, unload_after_secs: u64) -> TranscriptionEngine<u8> {
    TranscriptionEngine::new(path.to_string(), unload_after_secs, 0)
}

// ---- TranscriptionEngine state ----

#[test]
fn engine_starts_unloaded_and_should_not_unload() {
    let engine = engine("/fake/model.bin", 300);
    assert!(!engine.should_unload(1_000_000 * SECOND));
}

#[test]
fn should_unload_false_when_disabled() {
    let mut engine = engine("/fake/model.bin", 0);
    engine.install(1);
    assert!(
        !engine.should_unload(1_000_000 * SECOND),
        "unload_after_secs=0 means never unload"
    );
}

#[test]
fn load_fails_on_empty_model_path() {
    let engine = engine("", 300);
    let err = engine.load(false).unwrap_err();
    assert!(
        err.message().contains("No model path"),
        "expected 'No model path' in error, got: {}",
        err.message()
    );
}

#[test]
fn load_fails_on_nonexistent_model_path() {
    let engine = engine("/absolutely/nonexistent/model.bin", 300);
    let err = engine.load(false).unwrap_err();
    assert!(
        err.message().contains("nonexistent") || err.message().contains("not found"),
        "error should mention the missing path, got: {}",
        err.message()
    );
    assert!(matches!(err, LoadError::NotFound(_)));
}

#[test]
fn update_model_changes_path_for_next_load() {
    let mut engine = engine("/path/A", 300);
    engine.update_model("/path/B".to_string(), 300);
    let err = engine.load(false).unwrap_err();
    assert!(
        err.message().contains("/path/B") || err.message().contains("path/B"),
        "error should reference updated path, got: {}",
        err.message()
    );
}

#[test]
fn update_model_same_path_does_not_error() {
    let mut engine = engine("/path/A", 300);
    engine.install(7);
    engine.update_model("/path/A".to_string(), 60);
    assert_eq!(engine.ctx, Some(7));
    engine.unload();
    let err = engine.load(false).unwrap_err();
    assert!(err.message().contains("/path/A"));
}

#[test]
fn a_model_is_loaded_once_and_unloaded_when_idle() {
    let mut engine = engine("/m.bin", 300);
    assert_eq!(engine.load(true).unwrap(), Some("/m.bin".to_string()));
    engine.install(1);
    assert_eq!(engine.load(false).unwrap(), None);
    engine.touch(10 * SECOND);
    assert!(!engine.should_unload(310 * SECOND - 1));
    assert!(engine.should_unload(310 * SECOND));
    engine.unload();
    assert!(!engine.should_unload(310 * SECOND));
    engine.install(2);
    engine.update_model("/other.bin".to_string(), 300);
    assert_eq!(engine.ctx, None);
}

// ---- word lists ----

#[test]
fn word_list_empty_path_returns_empty() {
    assert_eq!(load_word_list("", None), "");
    assert_eq!(load_word_list("", Some("hello")), "");
}

#[test]
fn word_list_nonexistent_path_returns_empty() {
    assert_eq!(load_word_list("/no/such/words.txt", None), "");
}

#[test]
fn word_list_newline_separated_lines() {
    assert_eq!(load_word_list("words.txt", Some("hello\nworld\nrust")), "hello, world, rust");
}

#[test]
fn word_list_csv_format_splits_commas() {
    assert_eq!(load_word_list("words.txt", Some("foo, bar,baz\nqux")), "foo, bar, baz, qux");
}

#[test]
fn word_list_trims_whitespace() {
    assert_eq!(load_word_list("words.txt", Some("  hello  \n  world  ")), "hello, world");
}

#[test]
fn word_list_filters_empty_lines() {
    assert_eq!(load_word_list("words.txt", Some("hello\n\nworld\n\n")), "hello, world");
}

#[test]
fn word_list_single_word() {
    assert_eq!(load_word_list("words.txt", Some("Anthropic")), "Anthropic");
}

#[test]
fn word_list_reads_back() {
    let once = load_word_list("words.txt", Some("a\r\n b , c d,,\n"));
    assert_eq!(once, "a, b, c d");
    assert_eq!(load_word_list("words.txt", Some(&once)), once);
}

// ---- chunks ----

#[test]
fn chunk_transcripts_are_appended_without_altering_words() {
    assert_eq!(
        append_transcript("Hello there,", "there is no overlap."),
        "Hello there, there is no overlap."
    );
}

#[test]
fn transcript_append_adds_one_space() {
    assert_eq!(append_transcript("hello ", " world"), "hello world");
}

#[test]
fn blank_transcripts_add_nothing() {
    assert_eq!(append_transcript("", " b "), "b");
    assert_eq!(append_transcript(" a ", " \n"), "a");
    let left = append_transcript(&append_transcript("a", "b"), "c");
    let right = append_transcript("a", &append_transcript("b", "c"));
    assert_eq!(left, right);
}

#[test]
fn sparse_long_chunk_is_rejected() {
    assert!(implausibly_sparse(vec![0.1; 25 * 16_000].len(), "We"));
}

#[test]
fn normal_long_chunk_is_accepted() {
    let text = "This is a normal amount of speech for a longer audio chunk. ".repeat(8);
    assert!(!implausibly_sparse(vec![0.1; 25 * 16_000].len(), &text));
}

#[test]
fn short_tail_is_never_rejected_for_density() {
    assert!(!implausibly_sparse(vec![0.1; 5 * 16_000].len(), "Hi"));
}

#[test]
fn two_characters_a_second_are_enough() {
    let samples = 10 * 16_000;
    assert!(!implausibly_sparse(samples, "a b c d e f g h i j k l m n o p q r s t"));
    assert!(implausibly_sparse(samples, "a b c d e f g h i j k l m n o p q r s"));
    assert!(!implausibly_sparse(samples - 1, ""));
    assert_eq!(count_dark(" a\u{3000}b\n"), 2);
}

#[test]
fn chunk_lengths() {
    assert_eq!(STREAM_MIN_CHUNK_SAMPLES, 25 * 16_000);
    assert_eq!(STREAM_CHUNK_SAMPLES, 30 * 16_000);
    assert_eq!(MIN_FINAL_NEW_SAMPLES, 250 * 16);
}

fn stream() -> StreamingTranscriber {
    StreamingTranscriber::new("en".to_string(), "Rust, Verus".to_string())
}

fn said(text: &str) -> Result<String, String> {
    Ok(text.to_string())
}

#[test]
fn chunks_become_one_transcript() {
    let mut s = stream();
    let request = s.chunk_request().unwrap();
    assert_eq!(request.language, "en");
    assert_eq!(request.prompt, Some("Rust, Verus".to_string()));
    assert!(!request.drops_silence());
    s.push_chunk(1000, said(" one ")).unwrap();
    s.push_chunk(1000, said("")).unwrap();
    s.push_chunk(1000, said("two")).unwrap();
    assert_eq!(s.chunks(), 3);
    assert!(matches!(s.finish_request(3_999), FinishRequest::Nothing));
    assert!(matches!(s.finish_request(4_000), FinishRequest::Tail(_)));
    let text = s.finish(4_000, said("three"), said("never")).unwrap();
    assert_eq!(text, "one two three");
}

#[test]
fn a_short_tail_is_dropped_unless_it_is_all_there_is() {
    let mut s = stream();
    assert!(matches!(s.finish_request(1), FinishRequest::Tail(_)));
    s.push_chunk(1000, said("one")).unwrap();
    assert_eq!(s.finish(1, said("two"), said("three")).unwrap(), "one");
    assert_eq!(stream().finish(1, said("two"), said("three")).unwrap(), "two");
}

#[test]
fn after_a_failure_the_whole_recording_is_transcribed() {
    let mut s = stream();
    s.push_chunk(1000, said("one")).unwrap();
    let err = s.push_chunk(1000, Err("broken".to_string())).unwrap_err();
    assert!(matches!(err, ChunkError::Failed(e) if e == "broken"));
    assert!(s.chunk_request().is_none());
    s.push_chunk(1000, said("two")).unwrap();
    assert_eq!(s.chunks(), 1);
    assert!(matches!(s.finish_request(0), FinishRequest::Whole(_)));
    assert_eq!(s.finish(9_999, said("tail"), said("all of it")).unwrap(), "all of it");
}

#[test]
fn silence_is_dropped_from_whole_recordings_only() {
    let request = whole_request("de", "Rust");
    assert_eq!(request.language, "de");
    assert_eq!(request.prompt, Some("Rust".to_string()));
    assert!(request.drops_silence());
    assert_eq!(whole_request("de", "").prompt, None);
    let mut s = stream();
    match s.finish_request(4_000) {
        FinishRequest::Tail(request) => assert!(!request.drops_silence()),
        other => panic!("{:?}", other),
    }
    s.push_chunk(1000, Err("broken".to_string())).unwrap_err();
    match s.finish_request(4_000) {
        FinishRequest::Whole(request) => assert!(request.drops_silence()),
        other => panic!("{:?}", other),
    }
}

#[test]
fn a_sparse_chunk_is_a_failure() {
    let mut s = stream();
    let err = s.push_chunk(25 * 16_000, said("We ")).unwrap_err();
    assert!(matches!(err, ChunkError::TooSparse { characters: 2, samples: 400_000 }));
    assert!(s.chunk_request().is_none());
    let err = stream().finish(25 * 16_000, said("We"), said("x")).unwrap_err();
    assert!(matches!(err, ChunkError::TooSparse { characters: 2, samples: 400_000 }));
}

#[test]
fn prompts_and_segments() {
    assert_eq!(prompt_from(""), None);
    assert_eq!(prompt_from("a"), Some("a".to_string()));
    let segments = vec![" Hello".to_string(), " there. ".to_string()];
    assert_eq!(transcript_of(&segments), "Hello there.");
}
