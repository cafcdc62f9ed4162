//! Transcribing: the model's life cycle, building one transcript from chunks,
//! and the word list.

use crate::pieces::{
    entries, join, joined, lemma_entries, lemma_entries_of_two, lemma_one_piece, lemma_pieces,
    lemma_pieces_of_two, pieces, split_entries, texts, Separator,
};
use crate::text::{
    chars_of, is_tight, is_white, is_whitespace, lemma_trim_bounds, lemma_trimmed_between,
    lemma_trimmed_is_tight, same_text, text_in, trim, trimmed,
};
use vstd::prelude::*;

verus! {

/// Samples after which a pause ends a chunk.
pub const STREAM_MIN_CHUNK_SAMPLES: usize = 400_000;

/// Samples after which a chunk ends in any case.
pub const STREAM_CHUNK_SAMPLES: usize = 480_000;

/// A tail of fewer samples than this is not worth transcribing by itself.
pub const MIN_FINAL_NEW_SAMPLES: usize = 4_000;

// ---------------------------------------------------------------------------
// The model
// ---------------------------------------------------------------------------

/// Keeps a model of type `C` in memory while it is in use. Times are
/// nanoseconds since some fixed moment.
pub struct TranscriptionEngine<C> {
    pub ctx: Option<C>,
    pub model_path: String,
    pub last_used: u128,
    pub unload_after_secs: u64,
}

/// Why no model can be loaded.
#[derive(Debug)]
pub enum LoadError {
    /// None is configured.
    NoModelPath,
    /// There is no file at this path.
    NotFound(String),
}

/// The values of a [`LoadError`].
pub ghost enum LoadErrorView {
    NoModelPath,
    NotFound(Seq<char>),
}

impl View for LoadError {
    type V = LoadErrorView;

    open spec fn view(&self) -> LoadErrorView {
        match self {
            LoadError::NoModelPath => LoadErrorView::NoModelPath,
            LoadError::NotFound(path) => LoadErrorView::NotFound(path@),
        }
    }
}

impl LoadErrorView {
    /// What the user is told.
    pub open spec fn text(self) -> Seq<char> {
        match self {
            LoadErrorView::NoModelPath => "No model path configured. Run: quoteme config set transcription.model_path <path>"@,
            LoadErrorView::NotFound(path) => "Whisper model not found at: "@ + path,
        }
    }
}

impl LoadError {
    /// What the user is told.
    pub fn message(&self) -> (r: String)
        ensures
            r@ == self@.text(),
    {
        match self {
            LoadError::NoModelPath => "No model path configured. Run: quoteme config set transcription.model_path <path>".to_owned(),
            LoadError::NotFound(path) => {
                let mut r = "Whisper model not found at: ".to_owned();
                r.append(path.as_str());
                r
            },
        }
    }
}

/// What has to be loaded before transcribing: nothing, the file at a path, or
/// it cannot be done.
pub open spec fn load_plan(loaded: bool, path: Seq<char>, exists_there: bool) -> Result<
    Option<Seq<char>>,
    LoadErrorView,
> {
    if loaded {
        Ok(None)
    } else if path.len() == 0 {
        Err(LoadErrorView::NoModelPath)
    } else if !exists_there {
        Err(LoadErrorView::NotFound(path))
    } else {
        Ok(Some(path))
    }
}

/// The model is unloaded: it is loaded, and has been idle for the whole
/// timeout; a timeout of 0 never passes. Idle time counts in whole seconds.
pub open spec fn unload_is_due(
    loaded: bool,
    last_used: u128,
    now: u128,
    unload_after_secs: u64,
) -> bool {
    &&& unload_after_secs > 0
    &&& loaded
    &&& crate::daemon::elapsed(last_used, now) / 1_000_000_000 >= unload_after_secs
}

impl<C> TranscriptionEngine<C> {
    /// An engine without a model in memory.
    pub fn new(model_path: String, unload_after_secs: u64, now: u128) -> (r: Self)
        ensures
            r.ctx is None,
            r.model_path@ == model_path@,
            r.last_used == now,
            r.unload_after_secs == unload_after_secs,
    {
        TranscriptionEngine { ctx: None, model_path, last_used: now, unload_after_secs }
    }

    /// What has to be loaded before transcribing, given whether there is a
    /// file at the model's path.
    pub fn load(&self, exists_there: bool) -> (r: Result<Option<String>, LoadError>)
        ensures
            load_plan(self.ctx is Some, self.model_path@, exists_there) == match r {
                Ok(path) => Ok(text_in(path)),
                Err(e) => Err(e@),
            },
    {
        if self.ctx.is_some() {
            return Ok(None);
        }
        if self.model_path.as_str().is_empty() {
            return Err(LoadError::NoModelPath);
        }
        if !exists_there {
            return Err(LoadError::NotFound(self.model_path.clone()));
        }
        Ok(Some(self.model_path.clone()))
    }

    /// The model has been loaded.
    pub fn install(&mut self, ctx: C)
        ensures
            final(self).ctx == Some(ctx),
            final(self).model_path == old(self).model_path,
            final(self).last_used == old(self).last_used,
            final(self).unload_after_secs == old(self).unload_after_secs,
    {
        self.ctx = Some(ctx);
    }

    /// The model is used.
    pub fn touch(&mut self, now: u128)
        ensures
            final(self).last_used == now,
            final(self).ctx == old(self).ctx,
            final(self).model_path == old(self).model_path,
            final(self).unload_after_secs == old(self).unload_after_secs,
    {
        self.last_used = now;
    }

    /// Whether the model is to be unloaded.
    pub fn should_unload(&self, now: u128) -> (r: bool)
        ensures
            r == unload_is_due(self.ctx is Some, self.last_used, now, self.unload_after_secs),
    {
        if self.unload_after_secs == 0 {
            return false;
        }
        let idle: u128 = if now >= self.last_used {
            now - self.last_used
        } else {
            0
        };
        self.ctx.is_some() && idle / 1_000_000_000 >= self.unload_after_secs as u128
    }

    /// Unloads the model.
    pub fn unload(&mut self)
        ensures
            final(self).ctx is None,
            final(self).model_path == old(self).model_path,
            final(self).last_used == old(self).last_used,
            final(self).unload_after_secs == old(self).unload_after_secs,
    {
        self.ctx = None;
    }

    /// The configuration changed. A different path unloads the model.
    pub fn update_model(&mut self, new_path: String, unload_after_secs: u64)
        ensures
            final(self).model_path@ == new_path@,
            final(self).unload_after_secs == unload_after_secs,
            final(self).last_used == old(self).last_used,
            final(self).ctx == if new_path@ == old(self).model_path@ {
                old(self).ctx
            } else {
                None
            },
    {
        if !same_text(new_path.as_str(), self.model_path.as_str()) {
            self.ctx = None;
            self.model_path = new_path;
        }
        self.unload_after_secs = unload_after_secs;
    }
}

/// A loaded model is unloaded exactly when the whole timeout has passed since
/// it was last used, to the nanosecond; a timeout of 0 never passes.
pub proof fn law_unloaded_after_the_timeout(
    loaded: bool,
    last_used: u128,
    now: u128,
    unload_after_secs: u64,
)
    ensures
        unload_is_due(loaded, last_used, now, unload_after_secs) <==> loaded && unload_after_secs
            > 0 && now - last_used >= unload_after_secs * 1_000_000_000,
{
}

/// The prompt to transcribe with: none if the word list is empty.
pub open spec fn prompt_of(word_list: Seq<char>) -> Option<Seq<char>> {
    if word_list.len() == 0 {
        None
    } else {
        Some(word_list)
    }
}

/// The prompt to transcribe with: none if the word list is empty.
pub fn prompt_from(word_list: &str) -> (r: Option<String>)
    ensures
        text_in(r) == prompt_of(word_list@),
{
    if word_list.is_empty() {
        None
    } else {
        Some(word_list.to_owned())
    }
}

/// The texts of a transcript's segments, put together and trimmed.
pub fn transcript_of(segments: &Vec<String>) -> (r: String)
    ensures
        r@ == trimmed(joined(texts(segments@), Seq::empty())),
{
    let all = join(segments, "");
    proof {
        reveal_strlit("");
        assert(""@ =~= Seq::<char>::empty());
    }
    trim(all.as_str()).to_owned()
}

// ---------------------------------------------------------------------------
// Chunks
// ---------------------------------------------------------------------------

/// How many characters are not white space.
pub open spec fn dark_count(s: Seq<char>) -> nat
    decreases s.len(),
{
    if s.len() == 0 {
        0
    } else {
        dark_count(s.drop_last()) + (if is_white(s.last()) {
            0nat
        } else {
            1nat
        })
    }
}

/// The number of characters of a text that are not white space.
pub fn count_dark(s: &str) -> (r: usize)
    ensures
        r == dark_count(s@),
{
    let chars = chars_of(s);
    let mut r: usize = 0;
    let mut i: usize = 0;
    assert(s@.take(0) =~= Seq::<char>::empty());
    while i < chars.len()
        invariant
            chars@ == s@,
            0 <= i <= chars@.len(),
            r == dark_count(s@.take(i as int)),
            r <= i,
        decreases chars@.len() - i,
    {
        assert(s@.take(i + 1).drop_last() =~= s@.take(i as int));
        if !is_whitespace(chars[i]) {
            r += 1;
        }
        i += 1;
    }
    assert(s@.take(s@.len() as int) =~= s@);
    r
}

/// At 16000 samples a second, ten seconds of audio or more gave fewer than two
/// characters a second.
pub open spec fn is_too_sparse(samples: nat, text: Seq<char>) -> bool {
    samples >= 10 * 16_000 && dark_count(text) * 16_000 < 2 * samples
}

/// Whether a transcript is too short for the audio it stands for.
pub fn implausibly_sparse(samples: usize, text: &str) -> (r: bool)
    ensures
        r == is_too_sparse(samples as nat, text@),
{
    if samples < 160_000 {
        return false;
    }
    let dark: usize = count_dark(text);
    (dark as u128) * 16_000 < (samples as u128) * 2
}

/// Two transcripts as one: both trimmed, with one blank between them unless
/// one of them is blank.
pub open spec fn appended(left: Seq<char>, right: Seq<char>) -> Seq<char> {
    let l = trimmed(left);
    let r = trimmed(right);
    if l.len() == 0 {
        r
    } else if r.len() == 0 {
        l
    } else {
        l + " "@ + r
    }
}

/// Puts two transcripts together.
pub fn append_transcript(existing: &str, next: &str) -> (r: String)
    ensures
        r@ == appended(existing@, next@),
{
    let left = trim(existing);
    let right = trim(next);
    if left.is_empty() {
        return right.to_owned();
    }
    if right.is_empty() {
        return left.to_owned();
    }
    let mut r = left.to_owned();
    r.append(" ");
    r.append(right);
    r
}

/// Builds one transcript from chunks. What has been transcribed is kept as
/// text, so that at the end only the last chunk is left to do.
pub struct StreamingTranscriber {
    language: String,
    base_prompt: String,
    text: String,
    completed_chunks: usize,
    failed: bool,
}

/// The values of a [`StreamingTranscriber`].
pub ghost struct StreamView {
    pub language: Seq<char>,
    pub base_prompt: Seq<char>,
    pub text: Seq<char>,
    pub completed_chunks: nat,
    pub failed: bool,
}

impl View for StreamingTranscriber {
    type V = StreamView;

    closed spec fn view(&self) -> StreamView {
        StreamView {
            language: self.language@,
            base_prompt: self.base_prompt@,
            text: self.text@,
            completed_chunks: self.completed_chunks as nat,
            failed: self.failed,
        }
    }
}

/// Why a chunk was refused; `E` is the transcriber's own error.
#[derive(Debug)]
pub enum ChunkError<E> {
    /// So few characters for so many samples cannot be all that was said.
    TooSparse { characters: usize, samples: usize },
    /// The transcriber failed.
    Failed(E),
}

/// How much of a recording is transcribed at once.
#[derive(Debug, Clone, Copy, PartialEq, Eq, Structural)]
pub enum Extent {
    /// All of it.
    Whole,
    /// A part, which may begin and end in the middle of speech.
    Chunk,
}

/// A request to transcribe.
#[derive(Debug)]
pub struct TranscribeRequest {
    pub language: String,
    pub prompt: Option<String>,
    pub extent: Extent,
}

/// The values of a [`TranscribeRequest`].
pub ghost struct RequestView {
    pub language: Seq<char>,
    pub prompt: Option<Seq<char>>,
    pub extent: Extent,
}

impl RequestView {
    /// Silence is dropped from a whole recording, never from a part: where a
    /// part begins in the middle of speech, its silence cannot be told.
    pub open spec fn drops_silence(self) -> bool {
        self.extent == Extent::Whole
    }
}

impl View for TranscribeRequest {
    type V = RequestView;

    open spec fn view(&self) -> RequestView {
        RequestView {
            language: self.language@,
            prompt: text_in(self.prompt),
            extent: self.extent,
        }
    }
}

impl TranscribeRequest {
    /// Whether silence is dropped before the audio is transcribed.
    pub fn drops_silence(&self) -> (r: bool)
        ensures
            r == self@.drops_silence(),
    {
        self.extent == Extent::Whole
    }
}

/// The request to transcribe a whole recording in that language, with those words.
pub open spec fn asking_for_all(language: Seq<char>, word_list: Seq<char>) -> RequestView {
    RequestView { language, prompt: prompt_of(word_list), extent: Extent::Whole }
}

/// The request to transcribe a whole recording.
pub fn whole_request(language: &str, word_list: &str) -> (r: TranscribeRequest)
    ensures
        r@ == asking_for_all(language@, word_list@),
        r@ == (RequestView {
            language: language@,
            prompt: prompt_of(word_list@),
            extent: Extent::Whole,
        }),
{
    TranscribeRequest {
        language: language.to_owned(),
        prompt: prompt_from(word_list),
        extent: Extent::Whole,
    }
}

/// What is left to transcribe when the recording has ended.
#[derive(Debug)]
pub enum FinishRequest {
    /// The whole recording, because a chunk failed.
    Whole(TranscribeRequest),
    /// The part that is not in any chunk yet.
    Tail(TranscribeRequest),
    /// Nothing.
    Nothing,
}

impl StreamView {
    /// A transcript of nothing.
    pub open spec fn empty(language: Seq<char>, base_prompt: Seq<char>) -> StreamView {
        StreamView {
            language,
            base_prompt,
            text: Seq::empty(),
            completed_chunks: 0,
            failed: false,
        }
    }

    /// What the transcriber is asked with.
    pub open spec fn request(self, extent: Extent) -> RequestView {
        RequestView { language: self.language, prompt: prompt_of(self.base_prompt), extent }
    }

    /// A chunk of that many samples is transcribed as `text`. After a failure
    /// no more chunks are taken; one that is too sparse is such a failure.
    pub open spec fn with_chunk(self, samples: nat, text: Seq<char>) -> StreamView {
        if self.failed {
            self
        } else if is_too_sparse(samples, text) {
            StreamView { failed: true, ..self }
        } else {
            StreamView {
                text: appended(self.text, text),
                completed_chunks: self.completed_chunks + 1,
                ..self
            }
        }
    }

    /// The transcriber fails on a chunk.
    pub open spec fn with_failure(self) -> StreamView {
        StreamView { failed: true, ..self }
    }

    /// The tail of that many samples is transcribed too: it is long enough, or
    /// there is nothing else.
    pub open spec fn wants_tail(self, tail_samples: nat) -> bool {
        !self.failed && (tail_samples >= MIN_FINAL_NEW_SAMPLES || self.completed_chunks == 0)
    }
}

/// What ending a transcript comes to.
pub ghost enum Ending {
    /// This is the transcript.
    Transcript(Seq<char>),
    /// So few characters for the samples of the tail cannot be all that was said.
    TooSparse(nat),
    /// The transcriber failed on the tail.
    TailFailed,
    /// The transcriber failed on the whole recording.
    WholeFailed,
}

impl StreamView {
    /// Ends the transcript, given what the tail and the whole recording are
    /// transcribed as; `None` if the transcriber fails.
    pub open spec fn ending(
        self,
        tail_samples: nat,
        tail: Option<Seq<char>>,
        whole: Option<Seq<char>>,
    ) -> Ending {
        if self.failed {
            match whole {
                Some(text) => Ending::Transcript(text),
                None => Ending::WholeFailed,
            }
        } else if self.wants_tail(tail_samples) {
            match tail {
                Some(text) => if is_too_sparse(tail_samples, text) {
                    Ending::TooSparse(dark_count(text))
                } else {
                    Ending::Transcript(appended(self.text, text))
                },
                None => Ending::TailFailed,
            }
        } else {
            Ending::Transcript(self.text)
        }
    }
}

/// The text that a transcriber gave, if it did not fail.
pub open spec fn given<E>(outcome: Result<String, E>) -> Option<Seq<char>> {
    match outcome {
        Ok(text) => Some(text@),
        Err(_) => None,
    }
}

impl StreamingTranscriber {
    /// A transcript of nothing.
    pub fn new(language: String, base_prompt: String) -> (r: Self)
        ensures
            r@ == StreamView::empty(language@, base_prompt@),
    {
        StreamingTranscriber {
            language,
            base_prompt,
            text: String::new(),
            completed_chunks: 0,
            failed: false,
        }
    }

    /// The number of chunks in the transcript.
    pub fn chunks(&self) -> (r: usize)
        ensures
            r == self@.completed_chunks,
    {
        self.completed_chunks
    }

    /// The prompt to transcribe with.
    pub fn context_prompt(&self) -> (r: Option<String>)
        ensures
            text_in(r) == prompt_of(self@.base_prompt),
    {
        prompt_from(self.base_prompt.as_str())
    }

    fn request(&self, extent: Extent) -> (r: TranscribeRequest)
        ensures
            r@ == self@.request(extent),
    {
        TranscribeRequest {
            language: self.language.clone(),
            prompt: self.context_prompt(),
            extent,
        }
    }

    /// What to ask the transcriber for the next chunk; nothing after a failure.
    pub fn chunk_request(&self) -> (r: Option<TranscribeRequest>)
        ensures
            r is None <==> self@.failed,
            r matches Some(q) ==> q@ == self@.request(Extent::Chunk),
    {
        if self.failed {
            None
        } else {
            Some(self.request(Extent::Chunk))
        }
    }

    /// The transcriber has worked on a chunk of that many samples.
    pub fn push_chunk<E>(&mut self, samples: usize, outcome: Result<String, E>) -> (r: Result<
        (),
        ChunkError<E>,
    >)
        requires
            old(self)@.completed_chunks < usize::MAX,
        ensures
            final(self)@ == match outcome {
                Ok(text) => old(self)@.with_chunk(samples as nat, text@),
                Err(_) => old(self)@.with_failure(),
            },
            old(self)@.failed ==> r is Ok,
            !old(self)@.failed ==> match outcome {
                Ok(text) => if is_too_sparse(samples as nat, text@) {
                    r matches Err(ChunkError::TooSparse { characters, samples: n }) && characters
                        == dark_count(text@) && n == samples
                } else {
                    r is Ok
                },
                Err(e) => r == Err::<(), ChunkError<E>>(ChunkError::Failed(e)),
            },
    {
        if self.failed {
            return Ok(());
        }
        match outcome {
            Ok(text) => {
                if implausibly_sparse(samples, text.as_str()) {
                    self.failed = true;
                    return Err(
                        ChunkError::TooSparse { characters: count_dark(text.as_str()), samples },
                    );
                }
                self.text = append_transcript(self.text.as_str(), text.as_str());
                self.completed_chunks = self.completed_chunks + 1;
                Ok(())
            },
            Err(e) => {
                self.failed = true;
                Err(ChunkError::Failed(e))
            },
        }
    }

    /// What is left to transcribe when the recording has ended and that many
    /// samples are not in any chunk yet.
    pub fn finish_request(&self, tail_samples: usize) -> (r: FinishRequest)
        ensures
            match r {
                FinishRequest::Whole(q) => self@.failed && q@ == self@.request(Extent::Whole),
                FinishRequest::Tail(q) => self@.wants_tail(tail_samples as nat) && q@
                    == self@.request(Extent::Chunk),
                FinishRequest::Nothing => !self@.failed && !self@.wants_tail(tail_samples as nat),
            },
    {
        if self.failed {
            FinishRequest::Whole(self.request(Extent::Whole))
        } else if tail_samples >= MIN_FINAL_NEW_SAMPLES || self.completed_chunks == 0 {
            FinishRequest::Tail(self.request(Extent::Chunk))
        } else {
            FinishRequest::Nothing
        }
    }

    /// Ends the transcript. `whole` is what the whole recording was transcribed
    /// as and counts after a failure; `tail` is what the rest was transcribed
    /// as and counts where it was wanted.
    pub fn finish<E>(
        self,
        tail_samples: usize,
        tail: Result<String, E>,
        whole: Result<String, E>,
    ) -> (r: Result<String, ChunkError<E>>)
        ensures
            match self@.ending(tail_samples as nat, given(tail), given(whole)) {
                Ending::Transcript(text) => r matches Ok(t) && t@ == text,
                Ending::TooSparse(n) => r matches Err(ChunkError::TooSparse { characters, samples })
                    && characters == n && samples == tail_samples,
                Ending::TailFailed => r is Err && r->Err_0 is Failed && tail
                    == Err::<String, E>(r->Err_0->Failed_0),
                Ending::WholeFailed => r is Err && r->Err_0 is Failed && whole
                    == Err::<String, E>(r->Err_0->Failed_0),
            },
            self@.failed ==> match whole {
                Ok(text) => r matches Ok(t) && t@ == text@,
                Err(e) => r == Err::<String, ChunkError<E>>(ChunkError::Failed(e)),
            },
            !self@.failed && !self@.wants_tail(tail_samples as nat) ==> (r matches Ok(t) && t@
                == self@.text),
            self@.wants_tail(tail_samples as nat) ==> match tail {
                Ok(text) => if is_too_sparse(tail_samples as nat, text@) {
                    r matches Err(ChunkError::TooSparse { characters, samples }) && characters
                        == dark_count(text@) && samples == tail_samples
                } else {
                    r matches Ok(t) && t@ == appended(self@.text, text@)
                },
                Err(e) => r == Err::<String, ChunkError<E>>(ChunkError::Failed(e)),
            },
    {
        if self.failed {
            return match whole {
                Ok(text) => Ok(text),
                Err(e) => Err(ChunkError::Failed(e)),
            };
        }
        if tail_samples >= MIN_FINAL_NEW_SAMPLES || self.completed_chunks == 0 {
            match tail {
                Ok(text) => {
                    if implausibly_sparse(tail_samples, text.as_str()) {
                        return Err(
                            ChunkError::TooSparse {
                                characters: count_dark(text.as_str()),
                                samples: tail_samples,
                            },
                        );
                    }
                    Ok(append_transcript(self.text.as_str(), text.as_str()))
                },
                Err(e) => Err(ChunkError::Failed(e)),
            }
        } else {
            Ok(self.text)
        }
    }
}

// ---------------------------------------------------------------------------
// What holds of every transcript
// ---------------------------------------------------------------------------

impl StreamView {
    /// The transcript after more chunks, each a number of samples and what
    /// they were transcribed as.
    pub open spec fn with_chunks(self, chunks: Seq<(nat, Seq<char>)>) -> StreamView
        decreases chunks.len(),
    {
        if chunks.len() == 0 {
            self
        } else {
            let before = self.with_chunks(chunks.drop_last());
            before.with_chunk(chunks.last().0, chunks.last().1)
        }
    }
}

/// What the chunks were transcribed as.
pub open spec fn chunk_texts(chunks: Seq<(nat, Seq<char>)>) -> Seq<Seq<char>> {
    chunks.map_values(|c: (nat, Seq<char>)| c.1)
}

/// Putting transcripts together leaves no white space around them.
pub proof fn law_transcript_is_trimmed(left: Seq<char>, right: Seq<char>)
    ensures
        is_tight(appended(left, right)),
        trimmed(appended(left, right)) == appended(left, right),
{
    reveal_strlit(" ");
    lemma_trimmed_is_tight(left);
    lemma_trimmed_is_tight(right);
    let both = appended(left, right);
    let l = trimmed(left);
    let r = trimmed(right);
    if l.len() > 0 && r.len() > 0 {
        assert(both[0] == l[0]);
        assert(both.last() == r.last());
    }
    assert(is_tight(both));
    lemma_trimmed_is_tight(both);
}

/// It does not matter in which order transcripts are put together, as long as
/// they stay in sequence.
pub proof fn law_append_is_associative(a: Seq<char>, b: Seq<char>, c: Seq<char>)
    ensures
        appended(appended(a, b), c) == appended(a, appended(b, c)),
{
    law_transcript_is_trimmed(a, b);
    law_transcript_is_trimmed(b, c);
    assert(appended(appended(a, b), c) =~= appended(a, appended(b, c)));
}

/// Unless a chunk is too sparse, the transcript is that of the chunks, trimmed
/// and with one blank between them; blank ones are left out.
pub proof fn law_transcript_of_chunks(start: StreamView, chunks: Seq<(nat, Seq<char>)>)
    requires
        !start.failed,
        start.text.len() == 0,
        forall|i: int|
            0 <= i < chunks.len() ==> !is_too_sparse(
                (#[trigger] chunks[i]).0,
                chunks[i].1,
            ),
    ensures
        !start.with_chunks(chunks).failed,
        start.with_chunks(chunks).completed_chunks == start.completed_chunks + chunks.len(),
        start.with_chunks(chunks).text == joined(entries(chunk_texts(chunks)), " "@),
    decreases chunks.len(),
{
    let all = chunk_texts(chunks);
    if chunks.len() == 0 {
        assert(all =~= Seq::empty());
        assert(start.text =~= Seq::empty());
    } else {
        let rest = chunks.drop_last();
        assert forall|i: int| 0 <= i < rest.len() implies !is_too_sparse(
            (#[trigger] rest[i]).0,
            rest[i].1,
        ) by {
            assert(rest[i] == chunks[i]);
        }
        law_transcript_of_chunks(start, rest);
        assert(all.drop_last() =~= chunk_texts(rest));
        assert(all.last() == chunks.last().1);
        let es = entries(chunk_texts(rest));
        lemma_joined_entries(chunk_texts(rest));
        let entry = trimmed(chunks.last().1);
        assert(chunks[chunks.len() - 1] == chunks.last());
        if entry.len() > 0 && es.len() > 0 {
            assert(es.push(entry).drop_last() =~= es);
        }
    }
}

/// A recording of which no chunk failed is transcribed as all its chunks and
/// its tail together.
pub proof fn law_finished_transcript(
    start: StreamView,
    chunks: Seq<(nat, Seq<char>)>,
    tail: Seq<char>,
)
    requires
        !start.failed,
        start.text.len() == 0,
        forall|i: int|
            0 <= i < chunks.len() ==> !is_too_sparse((#[trigger] chunks[i]).0, chunks[i].1),
    ensures
        appended(start.with_chunks(chunks).text, tail) == joined(
            entries(chunk_texts(chunks).push(tail)),
            " "@,
        ),
{
    law_transcript_of_chunks(start, chunks);
    let before = chunk_texts(chunks);
    let all = before.push(tail);
    assert(all.drop_last() =~= before);
    lemma_joined_entries(before);
    let es = entries(before);
    let entry = trimmed(tail);
    if entry.len() > 0 && es.len() > 0 {
        assert(es.push(entry).drop_last() =~= es);
    }
}

/// Entries put together are tight, and empty only if there are none.
proof fn lemma_joined_entries(ps: Seq<Seq<char>>)
    ensures
        is_tight(joined(entries(ps), " "@)),
        trimmed(joined(entries(ps), " "@)) == joined(entries(ps), " "@),
        entries(ps).len() > 0 <==> joined(entries(ps), " "@).len() > 0,
    decreases ps.len(),
{
    let all = joined(entries(ps), " "@);
    if ps.len() > 0 {
        let rest = ps.drop_last();
        lemma_joined_entries(rest);
        let entry = trimmed(ps.last());
        lemma_trimmed_is_tight(ps.last());
        let es = entries(rest);
        if entry.len() > 0 {
            assert(es.push(entry).drop_last() =~= es);
            if es.len() > 0 {
                assert(all[0] == joined(es, " "@)[0]);
                assert(all.last() == entry.last());
            } else {
                assert(all == entry);
            }
        }
    }
    lemma_trimmed_is_tight(all);
}

/// Once a chunk has failed, no later one changes anything: the whole recording
/// is transcribed at the end.
pub proof fn law_failure_is_final(stream: StreamView, chunks: Seq<(nat, Seq<char>)>)
    requires
        stream.failed,
    ensures
        stream.with_chunks(chunks) == stream,
        stream.with_failure() == stream,
        forall|n: nat| !stream.wants_tail(n),
    decreases chunks.len(),
{
    if chunks.len() > 0 {
        law_failure_is_final(stream, chunks.drop_last());
    }
}

// ---------------------------------------------------------------------------
// The word list
// ---------------------------------------------------------------------------

/// The words of a word list: what stands between line ends and commas,
/// trimmed, without what is blank.
pub open spec fn words_in(raw: Seq<char>) -> Seq<Seq<char>> {
    entries(pieces(raw, Separator::LineOrComma))
}

/// The words of a word list, with a comma and a blank between them.
pub open spec fn word_list(raw: Seq<char>) -> Seq<char> {
    joined(words_in(raw), ", "@)
}

/// The prompt that the word list file at a path gives, given its contents.
pub open spec fn loaded_words(path: Seq<char>, contents: Option<Seq<char>>) -> Seq<char> {
    if path.len() == 0 {
        Seq::empty()
    } else {
        match contents {
            Some(raw) => word_list(raw),
            None => Seq::empty(),
        }
    }
}

/// The word list file at a path as a prompt, given its contents; `None` if
/// there is no such file, which is as good as an empty one. Without a path
/// there is no word list.
pub fn load_word_list(path: &str, contents: Option<&str>) -> (r: String)
    ensures
        r@ == loaded_words(
            path@,
            match contents {
                Some(raw) => Some(raw@),
                None => None,
            },
        ),
        r@ == if path@.len() == 0 {
            Seq::empty()
        } else {
            match contents {
                Some(raw) => word_list(raw@),
                None => Seq::empty(),
            }
        },
{
    if path.is_empty() {
        return String::new();
    }
    match contents {
        Some(raw) => join(&split_entries(raw, Separator::LineOrComma), ", "),
        None => String::new(),
    }
}

/// A word list read back from a prompt holds the same words, so that making a
/// prompt of a prompt changes nothing.
pub proof fn law_word_list_reads_back(raw: Seq<char>)
    ensures
        words_in(word_list(raw)) == words_in(raw),
        word_list(word_list(raw)) == word_list(raw),
{
    let sep = Separator::LineOrComma;
    let ps = pieces(raw, sep);
    lemma_pieces(raw, sep);
    lemma_entries(ps);
    let ws = words_in(raw);
    assert forall|i: int| 0 <= i < ws.len() implies is_word(#[trigger] ws[i]) by {
        let k = choose|k: int| 0 <= k < ps.len() && ws[i] == trimmed(#[trigger] ps[k]);
        lemma_trimmed_is_tight(ps[k]);
        let (from, to) = lemma_trim_bounds(ps[k]);
        assert forall|m: int| 0 <= m < ws[i].len() implies !sep.cuts(#[trigger] ws[i][m]) by {
            assert(ws[i][m] == ps[k][from + m]);
        }
    }
    lemma_words_read_back(ws);
}

/// What can stand in a word list: a text without separators in it and without
/// white space around it.
pub open spec fn is_word(w: Seq<char>) -> bool {
    &&& w.len() > 0
    &&& is_tight(w)
    &&& forall|m: int| 0 <= m < w.len() ==> !Separator::LineOrComma.cuts(#[trigger] w[m])
}

proof fn lemma_words_read_back(ws: Seq<Seq<char>>)
    requires
        forall|i: int| 0 <= i < ws.len() ==> is_word(#[trigger] ws[i]),
    ensures
        words_in(joined(ws, ", "@)) == ws,
    decreases ws.len(),
{
    let sep = Separator::LineOrComma;
    let all = joined(ws, ", "@);
    if ws.len() == 0 {
        lemma_one_piece(all, sep);
        lemma_trimmed_is_tight(all);
        reveal_with_fuel(entries, 2);
        assert(seq![all].drop_last() =~= Seq::empty());
        assert(words_in(all) =~= ws);
    } else {
        let w = ws.last();
        assert(is_word(ws[ws.len() - 1]));
        if ws.len() == 1 {
            lemma_one_piece(w, sep);
            lemma_trimmed_is_tight(w);
            reveal_with_fuel(entries, 2);
            assert(seq![w].drop_last() =~= Seq::empty());
            assert(words_in(all) =~= ws);
        } else {
            let rest = ws.drop_last();
            assert forall|i: int| 0 <= i < rest.len() implies is_word(#[trigger] rest[i]) by {
                assert(rest[i] == ws[i]);
            }
            lemma_words_read_back(rest);
            let before = joined(rest, ", "@);
            let tail = seq![' '] + w;
            reveal_strlit(", ");
            assert(all =~= before.push(',') + tail);
            lemma_pieces_of_two(before, ',', tail, sep);
            assert forall|i: int| 0 <= i < tail.len() implies !sep.cuts(#[trigger] tail[i]) by {
                if i > 0 {
                    assert(tail[i] == w[i - 1]);
                }
            }
            lemma_one_piece(tail, sep);
            lemma_trimmed_between(tail, 1, tail.len() as int);
            assert(tail.subrange(1, tail.len() as int) =~= w);
            lemma_entries_of_two(pieces(before, sep), seq![tail]);
            reveal_with_fuel(entries, 2);
            assert(seq![tail].drop_last() =~= Seq::empty());
            assert(entries(seq![tail]) =~= seq![w]);
            assert(words_in(all) =~= ws);
        }
    }
}

/// The characters that are not white space are counted one by one, wherever they
/// stand: adding texts adds their counts.
pub proof fn law_dark_count(a: Seq<char>, b: Seq<char>, c: char)
    ensures
        dark_count(Seq::empty()) == 0,
        dark_count(seq![c]) == if is_white(c) {
            0nat
        } else {
            1nat
        },
        dark_count(a + b) == dark_count(a) + dark_count(b),
    decreases b.len(),
{
    reveal_with_fuel(dark_count, 2);
    assert(seq![c].drop_last() =~= Seq::empty());
    if b.len() == 0 {
        assert(a + b =~= a);
    } else {
        law_dark_count(a, b.drop_last(), c);
        assert((a + b).drop_last() =~= a + b.drop_last());
        assert((a + b).last() == b.last());
    }
}

/// How much text is asked for grows with the audio. Audio of `seconds` seconds,
/// ten or more, is refused exactly if its text has fewer than two characters a
/// second that are not white space; and with a part of a second more, exactly if
/// the text has fewer than for that part too. Shorter audio is never refused.
pub proof fn law_sparse_means_under_two_a_second(seconds: nat, part: nat, text: Seq<char>)
    requires
        part < 16_000,
    ensures
        seconds < 10 ==> !is_too_sparse(seconds * 16_000 + part, text),
        seconds >= 10 ==> (is_too_sparse(seconds * 16_000, text) <==> dark_count(text) < 2
            * seconds),
        seconds >= 10 ==> (is_too_sparse(seconds * 16_000 + part, text) <==> dark_count(text) < 2
            * seconds || (dark_count(text) == 2 * seconds && part > 0) || (dark_count(text) == 2
            * seconds + 1 && part > 8_000)),
{
}

/// A text that is too sparse for some audio is too sparse for any longer audio,
/// and so is any text with no more in it. Every text is too sparse for audio that
/// is long enough.
pub proof fn law_sparser_for_longer_audio(
    samples: nat,
    longer: nat,
    text: Seq<char>,
    shorter_text: Seq<char>,
)
    requires
        samples <= longer,
        dark_count(shorter_text) <= dark_count(text),
    ensures
        is_too_sparse(samples, text) ==> is_too_sparse(longer, shorter_text),
        longer >= 160_000 && longer > 8_000 * dark_count(text) ==> is_too_sparse(longer, text),
{
}

/// Two transcripts are put together as they are, but for the white space around
/// them: nothing is lost of either, and one blank stands between them unless one
/// of them is blank.
pub proof fn law_append_keeps_both(left: Seq<char>, right: Seq<char>)
    ensures
        ({
            let l = trimmed(left);
            let r = trimmed(right);
            let both = appended(left, right);
            &&& both.len() == l.len() + r.len() + (if l.len() > 0 && r.len() > 0 {
                1int
            } else {
                0int
            })
            &&& both.take(l.len() as int) == l
            &&& both.skip(both.len() - r.len()) == r
            &&& l.len() > 0 && r.len() > 0 ==> both[l.len() as int] == ' '
        }),
{
    reveal_strlit(" ");
    let l = trimmed(left);
    let r = trimmed(right);
    let both = appended(left, right);
    assert(both.take(l.len() as int) =~= l);
    assert(both.skip(both.len() - r.len()) =~= r);
}

/// A chunk of which too little came back, or on which the transcriber failed,
/// changes nothing but that the whole recording is transcribed in the end. Any
/// other chunk is appended to what there is.
pub proof fn law_one_more_chunk(stream: StreamView, seconds: nat, text: Seq<char>)
    requires
        !stream.failed,
    ensures
        ({
            let next = stream.with_chunk(seconds * 16_000, text);
            let refused = seconds >= 10 && dark_count(text) < 2 * seconds;
            &&& next.failed == refused
            &&& next.text == if refused {
                stream.text
            } else {
                appended(stream.text, text)
            }
            &&& next.completed_chunks == stream.completed_chunks + (if refused {
                0int
            } else {
                1int
            })
            &&& next.language == stream.language
            &&& next.base_prompt == stream.base_prompt
        }),
        stream.with_failure() == (StreamView { failed: true, ..stream }),
{
}

/// What is left at the end is transcribed if it lasts a quarter of a second or
/// if there is nothing else; not after a failure, when the whole recording is.
pub proof fn law_tail(stream: StreamView, tail_samples: nat)
    ensures
        stream.wants_tail(tail_samples) <==> !stream.failed && (4 * tail_samples >= 16_000
            || stream.completed_chunks == 0),
{
}

/// A new transcript is empty, keeps its language and word list, and is asked for
/// with them: the word list as it is, or no prompt if there is none.
pub proof fn law_requests(language: Seq<char>, word_list: Seq<char>, extent: Extent)
    ensures
        ({
            let stream = StreamView::empty(language, word_list);
            let request = stream.request(extent);
            &&& stream.text.len() == 0 && stream.completed_chunks == 0 && !stream.failed
            &&& request.language == language
            &&& request.extent == extent
            &&& request.prompt is None <==> word_list.len() == 0
            &&& request.prompt matches Some(p) ==> p == word_list
            &&& request.drops_silence() <==> extent != Extent::Chunk
        }),
{
}

/// Nothing is loaded while a model is in memory. Else the file at the configured
/// path is, and if there is no path or no file, it is said which.
pub proof fn law_what_is_loaded(loaded: bool, path: Seq<char>, exists_there: bool)
    ensures
        ({
            let plan = load_plan(loaded, path, exists_there);
            &&& loaded <==> plan == Ok::<Option<Seq<char>>, LoadErrorView>(None)
            &&& !loaded && path.len() > 0 && exists_there <==> plan == Ok::<
                Option<Seq<char>>,
                LoadErrorView,
            >(Some(path))
            &&& !loaded && path.len() == 0 <==> plan == Err::<Option<Seq<char>>, LoadErrorView>(
                LoadErrorView::NoModelPath,
            )
            &&& !loaded && path.len() > 0 && !exists_there <==> plan == Err::<
                Option<Seq<char>>,
                LoadErrorView,
            >(LoadErrorView::NotFound(path))
        }),
{
}

/// The words of two texts with a line end or a comma between them are those of
/// the one, then those of the other. A text without any is one word, without the
/// white space around it, or none if it is blank. So no word is lost or added.
pub proof fn law_words(a: Seq<char>, c: char, b: Seq<char>)
    ensures
        c == ',' || c == '\n' ==> words_in(a.push(c) + b) == words_in(a) + words_in(b),
        (forall|i: int| 0 <= i < a.len() ==> #[trigger] a[i] != ',' && a[i] != '\n') ==> words_in(
            a,
        ) == if trimmed(a).len() > 0 {
            seq![trimmed(a)]
        } else {
            Seq::<Seq<char>>::empty()
        },
{
    let sep = Separator::LineOrComma;
    if c == ',' || c == '\n' {
        lemma_pieces_of_two(a, c, b, sep);
        lemma_entries_of_two(pieces(a, sep), pieces(b, sep));
    }
    if forall|i: int| 0 <= i < a.len() ==> #[trigger] a[i] != ',' && a[i] != '\n' {
        lemma_one_piece(a, sep);
        crate::pieces::law_entry_of_one(a);
    }
}

/// The words of a word list become a prompt with a comma and a blank between
/// them: one word is itself, and one more list of words adds a separator and
/// its own prompt.
pub proof fn law_word_list_text(a: Seq<char>, c: char, b: Seq<char>)
    requires
        c == ',' || c == '\n',
    ensures
        words_in(a).len() == 0 ==> word_list(a).len() == 0,
        words_in(a).len() == 1 ==> word_list(a) == words_in(a)[0],
        words_in(a).len() > 0 && words_in(b).len() > 0 ==> word_list(a.push(c) + b) == word_list(a)
            + seq![',', ' '] + word_list(b),
{
    law_words(a, c, b);
    reveal_strlit(", ");
    assert(", "@ =~= seq![',', ' ']);
    let (x, y) = (words_in(a), words_in(b));
    if x.len() == 1 {
        assert(x =~= seq![x[0]]);
        crate::pieces::law_joined(x, y, x[0], ", "@);
    } else {
        crate::pieces::law_joined(x, y, Seq::empty(), ", "@);
    }
}

/// What a recording is transcribed as in the end: after a failure, what the whole
/// recording is transcribed as, and nothing of the chunks; else the chunks with
/// the tail, if that is wanted and is not too sparse; else the chunks alone.
pub proof fn law_ending(
    stream: StreamView,
    tail_samples: nat,
    tail: Option<Seq<char>>,
    whole: Option<Seq<char>>,
)
    ensures
        ({
            let r = stream.ending(tail_samples, tail, whole);
            let tail_counts = tail_samples >= 4_000 || stream.completed_chunks == 0;
            &&& stream.failed ==> match whole {
                Some(text) => r == Ending::Transcript(text),
                None => r is WholeFailed,
            }
            &&& !stream.failed && !tail_counts ==> r == Ending::Transcript(stream.text)
            &&& !stream.failed && tail_counts ==> match tail {
                Some(text) => if tail_samples >= 160_000 && 8_000 * dark_count(text)
                    < tail_samples {
                    r == Ending::TooSparse(dark_count(text))
                } else {
                    r == Ending::Transcript(appended(stream.text, text))
                },
                None => r is TailFailed,
            }
        }),
{
}

/// A file that is configured and there gives its words, whatever its path is; without a
/// path, or without a file, there are none.
pub proof fn law_loaded_words(path: Seq<char>, other: Seq<char>, raw: Seq<char>)
    ensures
        path.len() > 0 ==> words_in(loaded_words(path, Some(raw))) == words_in(raw),
        path.len() > 0 && other.len() > 0 ==> loaded_words(path, Some(raw)) == loaded_words(
            other,
            Some(raw),
        ),
        path.len() == 0 ==> loaded_words(path, Some(raw)).len() == 0,
        loaded_words(path, None).len() == 0,
{
    law_word_list_reads_back(raw);
}

/// Asking for a whole recording is what a stream asks that has begun with the same
/// language and words: what it prompts does not depend on how much is asked for.
pub proof fn law_asking_for_all(language: Seq<char>, word_list: Seq<char>)
    ensures
        asking_for_all(language, word_list) == StreamView::empty(language, word_list).request(
            Extent::Whole,
        ),
        asking_for_all(language, word_list).drops_silence(),
{
}

/// What the user is told of a model that is not there ends with its path, and differs from
/// what is said when there is no path.
pub proof fn law_load_errors(path: Seq<char>)
    ensures
        LoadErrorView::NotFound(path).text().len() == path.len() + 28,
        LoadErrorView::NotFound(path).text().skip(28) == path,
        LoadErrorView::NotFound(path).text() != LoadErrorView::NoModelPath.text(),
{
    reveal_strlit("Whisper model not found at: ");
    reveal_strlit(
        "No model path configured. Run: quoteme config set transcription.model_path <path>",
    );
    let t = LoadErrorView::NotFound(path).text();
    assert(t.skip(28) =~= path);
    assert(t[0] != LoadErrorView::NoModelPath.text()[0]);
}

} // verus!
