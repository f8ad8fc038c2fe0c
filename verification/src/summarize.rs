//! Summarization settings, the transcript precondition, and the token
//! generation loop as a state machine: the model runs outside, this decides
//! when to stop and what the summary text is.

use vstd::prelude::*;

use crate::model::Segment;
use crate::text::{chars_of, push_all, string_from_chars, trim, trim_chars};

verus! {

/// Why a summary could not be produced.
#[derive(Debug, Clone)]
pub enum SummarizeError {
    ModelMissing { path: String },
    LanguageNotSupported { model: String, language: String },
    Llama(String),
    NonUtf8Path(String),
    EmptyTranscript,
}

/// Settings of one summarization run.
#[derive(Debug, Clone)]
pub struct SummarizerConfig {
    pub model_path: String,
    /// Context window in tokens.
    pub n_ctx: u32,
    /// `0` means "use as many as you can".
    pub n_threads: i32,
    /// `999` = all model layers on GPU; `0` = pure CPU.
    pub n_gpu_layers: u32,
    /// Hard cap on generated tokens.
    pub max_tokens: u32,
    pub seed: u32,
}

impl SummarizerConfig {
    /// The standard settings for the model at `path`.
    pub fn for_model(path: String) -> (c: Self)
        ensures
            c.model_path == path,
            c.n_ctx == 32_768,
            c.n_threads == 0,
            c.n_gpu_layers == 999,
            c.max_tokens == 1_500,
            c.seed == 42,
    {
        SummarizerConfig {
            model_path: path,
            n_ctx: 32_768,
            n_threads: 0,
            n_gpu_layers: 999,
            max_tokens: 1_500,
            seed: 42,
        }
    }
}

/// The context window a summarize request uses when it names none.
pub fn default_n_ctx() -> (n: u32)
    ensures
        n == 4_096,
{
    4_096
}

/// The GPU layers a summarize request uses when it names none: all of them.
pub fn default_n_gpu_layers() -> (n: u32)
    ensures
        n == 999,
{
    999
}

/// The token cap a summarize request uses when it names none.
pub fn default_max_tokens() -> (n: u32)
    ensures
        n == 1_500,
{
    1_500
}

/// Whether a text is empty or only whitespace.
pub open spec fn is_blank(text: Seq<char>) -> bool {
    trim(text).len() == 0
}

/// Whether every segment's text is blank (true of no segments at all).
pub open spec fn all_blank(segments: Seq<Segment>) -> bool {
    forall|i: int| 0 <= i < segments.len() ==> is_blank(#[trigger] segments[i].text@)
}

/// Whether a text is blank.
pub fn text_is_blank(text: &String) -> (b: bool)
    ensures
        b == is_blank(text@),
{
    trim_chars(&chars_of(text.as_str())).len() == 0
}

/// There is something to summarize unless every segment is blank.
pub fn check_transcript(segments: &[Segment]) -> (r: Result<(), SummarizeError>)
    ensures
        r is Err <==> all_blank(segments@),
        r matches Err(e) ==> e is EmptyTranscript,
{
    let mut i: usize = 0;
    while i < segments.len()
        invariant
            i <= segments@.len(),
            forall|k: int| 0 <= k < i ==> is_blank(#[trigger] segments@[k].text@),
        decreases segments@.len() - i,
    {
        if !text_is_blank(&segments[i].text) {
            return Ok(());
        }
        i = i + 1;
    }
    Err(SummarizeError::EmptyTranscript)
}

/// What the runner does next in the generation loop.
#[derive(Debug, Clone, Copy, PartialEq, Eq, Structural)]
pub enum GenerationStep {
    /// Feed the token just accepted back to the model at this position.
    Decode { position: i32 },
    /// The model signalled the end of generation.
    Done,
}

/// The generation loop's state: the text so far, how many tokens were
/// accepted, where the next one goes, and whether the model has finished.
pub struct Generation {
    output: Vec<char>,
    produced: u32,
    max_tokens: u32,
    position: i32,
    finished: bool,
}

impl Generation {
    pub closed spec fn text(&self) -> Seq<char> {
        self.output@
    }

    pub closed spec fn produced(&self) -> nat {
        self.produced as nat
    }

    pub closed spec fn max_tokens(&self) -> nat {
        self.max_tokens as nat
    }

    pub closed spec fn position(&self) -> int {
        self.position as int
    }

    pub closed spec fn finished(&self) -> bool {
        self.finished
    }

    /// Whether the loop wants another token sampled.
    pub open spec fn wants(&self) -> bool {
        !self.finished() && self.produced() < self.max_tokens()
    }

    /// No more tokens are accepted than the cap allows.
    pub closed spec fn wf(&self) -> bool {
        self.produced <= self.max_tokens
    }

    /// A loop that places the first generated token right after the prompt
    /// and stops after `max_tokens` tokens.
    pub fn new(prompt_len: i32, max_tokens: u32) -> (g: Self)
        ensures
            g.wf(),
            g.text() == Seq::<char>::empty(),
            g.produced() == 0,
            g.max_tokens() == max_tokens,
            g.position() == prompt_len,
            !g.finished(),
    {
        Generation {
            output: Vec::new(),
            produced: 0,
            max_tokens,
            position: prompt_len,
            finished: false,
        }
    }

    /// Whether another token should be sampled.
    pub fn wants_token(&self) -> (b: bool)
        ensures
            b == self.wants(),
    {
        !self.finished && self.produced < self.max_tokens
    }

    /// Takes the sampled token: an end-of-generation token finishes the
    /// loop; any other token's text is appended and the token is decoded at
    /// the next position, which must leave room to advance.
    pub fn on_token(&mut self, is_eog: bool, piece: &str) -> (step: GenerationStep)
        requires
            old(self).wf(),
            old(self).wants(),
            !is_eog ==> old(self).position() < i32::MAX,
        ensures
            final(self).wf(),
            final(self).max_tokens() == old(self).max_tokens(),
            is_eog ==> step == GenerationStep::Done && final(self).finished() && final(self).text()
                == old(self).text() && final(self).produced() == old(self).produced()
                && final(self).position() == old(self).position(),
            !is_eog ==> step == (GenerationStep::Decode { position: old(self).position() as i32 })
                && !final(self).finished() && final(self).text() == old(self).text() + piece@
                && final(self).produced() == old(self).produced() + 1 && final(self).position()
                == old(self).position() + 1,
    {
        if is_eog {
            self.finished = true;
            return GenerationStep::Done;
        }
        let cs = chars_of(piece);
        push_all(&mut self.output, &cs);
        let position = self.position;
        self.position = self.position + 1;
        self.produced = self.produced + 1;
        GenerationStep::Decode { position }
    }

    /// Where the next accepted token is decoded.
    pub fn next_position(&self) -> (p: i32)
        ensures
            p == self.position(),
    {
        self.position
    }

    /// The generated summary text.
    pub fn output(&self) -> (s: String)
        ensures
            s@ == self.text(),
    {
        string_from_chars(&self.output)
    }
}

} // verus!
