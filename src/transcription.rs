//! Transcription orchestration: the retry-once-with-refresh policy around
//! the recogniser, as a state machine that its driver feeds with what the
//! model store and the recogniser report, and the clean-up of the
//! recogniser's text.

use vstd::prelude::*;
use crate::text::{join_spaced, join_words, split_tokens, string_from, texts, tokens};

verus! {

/// What the recogniser produced: its text and its confidence in percent.
#[derive(Debug, Clone)]
pub struct WhisperOutput {
    pub text: String,
    pub confidence_percent: u8,
}

/// `c` with ASCII upper-case letters made lower-case.
pub open spec fn ascii_lower(c: char) -> char {
    if 'A' <= c && c <= 'Z' {
        (((c as u32) + 32) as u8) as char
    } else {
        c
    }
}

/// `a` and `b` are equal up to ASCII case, as `str::eq_ignore_ascii_case` tests.
pub open spec fn same_ignoring_ascii_case(a: Seq<char>, b: Seq<char>) -> bool {
    a.len() == b.len() && forall|k: int| 0 <= k < a.len() ==> ascii_lower(a[k]) == ascii_lower(b[k])
}

/// The token by which the recogniser marks a stretch without speech.
pub open spec fn is_blank_marker(t: Seq<char>) -> bool {
    same_ignoring_ascii_case(t, "[BLANK_AUDIO]"@)
}

/// The tokens of `s` that are not no-speech markers, in order.
pub open spec fn speech_tokens(ts: Seq<Seq<char>>) -> Seq<Seq<char>>
    decreases ts.len(),
{
    if ts.len() == 0 {
        seq![]
    } else if is_blank_marker(ts.last()) {
        speech_tokens(ts.drop_last())
    } else {
        speech_tokens(ts.drop_last()).push(ts.last())
    }
}

/// The recogniser's text with the no-speech markers dropped and the rest
/// single-spaced.
pub open spec fn cleaned(s: Seq<char>) -> Seq<char> {
    join_spaced(speech_tokens(tokens(s)))
}

fn lower_ascii(c: char) -> (r: char)
    ensures
        r == ascii_lower(c),
{
    if 'A' <= c && c <= 'Z' {
        (((c as u32) + 32) as u8) as char
    } else {
        c
    }
}

fn is_blank_token(t: &str) -> (r: bool)
    ensures
        r == is_blank_marker(t@),
{
    let x = crate::text::chars_of(t);
    let y = crate::text::chars_of("[BLANK_AUDIO]");
    if x.len() != y.len() {
        return false;
    }
    let mut j: usize = 0;
    while j < x.len()
        invariant
            0 <= j <= x@.len(),
            x@.len() == y@.len(),
            x@ == t@,
            y@ == "[BLANK_AUDIO]"@,
            forall|k: int| 0 <= k < j ==> ascii_lower(x@[k]) == ascii_lower(y@[k]),
        decreases x@.len() - j,
    {
        if lower_ascii(x[j]) != lower_ascii(y[j]) {
            return false;
        }
        j = j + 1;
    }
    true
}

/// Drops the recogniser's no-speech markers from `input` and single-spaces
/// the rest.
pub fn clean_whisper_text(input: &str) -> (r: String)
    ensures
        r@ == cleaned(input@),
{
    let toks = split_tokens(input);
    let mut kept: Vec<String> = Vec::new();
    let mut i: usize = 0;
    while i < toks.len()
        invariant
            0 <= i <= toks@.len(),
            texts(toks@) == tokens(input@),
            texts(kept@) == speech_tokens(texts(toks@).take(i as int)),
        decreases toks@.len() - i,
    {
        let ghost prev = kept@;
        assert(texts(toks@).take(i + 1).drop_last() =~= texts(toks@).take(i as int));
        if !is_blank_token(toks[i].as_str()) {
            kept.push(toks[i].clone());
            assert(texts(kept@) =~= texts(prev).push(toks@[i as int]@));
        }
        i = i + 1;
    }
    assert(texts(toks@).take(toks@.len() as int) =~= texts(toks@));
    let joined = join_words(&kept);
    string_from(&joined)
}

/// The segments of a recognition joined, each followed by a space.
pub open spec fn segments_joined(segs: Seq<Seq<char>>) -> Seq<char>
    decreases segs.len(),
{
    if segs.len() == 0 {
        seq![]
    } else {
        segments_joined(segs.drop_last()) + segs.last() + seq![' ']
    }
}

/// The text of a recognition from its segments: the segments put together,
/// then cleaned.
pub fn text_from_segments(segments: &Vec<String>) -> (r: String)
    ensures
        r@ == cleaned(segments_joined(texts(segments@))),
{
    let mut all = String::new();
    let mut i: usize = 0;
    proof {
        reveal_strlit(" ");
    }
    while i < segments.len()
        invariant
            0 <= i <= segments@.len(),
            all@ == segments_joined(texts(segments@).take(i as int)),
            " "@ == seq![' '],
        decreases segments@.len() - i,
    {
        assert(texts(segments@).take(i + 1).drop_last() =~= texts(segments@).take(i as int));
        all.append(segments[i].as_str());
        all.append(" ");
        i = i + 1;
    }
    assert(texts(segments@).take(segments@.len() as int) =~= texts(segments@));
    clean_whisper_text(all.as_str())
}

/// The error reported when the recogniser fails again after the model was
/// fetched anew; it carries the first failure's message.
pub open spec fn refresh_failure(first: Seq<char>) -> Seq<char> {
    "transcription failed after model refresh: "@ + first
}

impl View for WhisperOutput {
    type V = (Seq<char>, u8);

    open spec fn view(&self) -> (Seq<char>, u8) {
        (self.text@, self.confidence_percent)
    }
}

/// The view of a recogniser outcome.
pub open spec fn outcome_view(r: Result<WhisperOutput, String>) -> Result<(Seq<char>, u8), Seq<char>> {
    match r {
        Ok(o) => Ok(o@),
        Err(e) => Err(e@),
    }
}

/// What the driver of a transcription is to do next.
pub enum TranscribeAction {
    /// The transcription is over, with this outcome.
    Finish(Result<WhisperOutput, String>),
    /// Make sure the model is installed and report its path.
    PrepareModel,
    /// Delete the model file, fetch it anew and report its path.
    RefreshModel,
    /// Run the recogniser with the model at this path and report its outcome.
    RunInference(String),
}

/// The view of a `TranscribeAction`.
pub enum ActionView {
    Finish(Result<(Seq<char>, u8), Seq<char>>),
    PrepareModel,
    RefreshModel,
    RunInference(Seq<char>),
}

impl View for TranscribeAction {
    type V = ActionView;

    open spec fn view(&self) -> ActionView {
        match self {
            TranscribeAction::Finish(r) => ActionView::Finish(outcome_view(*r)),
            TranscribeAction::PrepareModel => ActionView::PrepareModel,
            TranscribeAction::RefreshModel => ActionView::RefreshModel,
            TranscribeAction::RunInference(p) => ActionView::RunInference(p@),
        }
    }
}

/// What the driver reports back.
pub enum TranscribeEvent {
    /// The model is at this path, or could not be provided.
    ModelReady(Result<String, String>),
    /// What the recogniser produced, or why it failed.
    InferenceDone(Result<WhisperOutput, String>),
}

/// The view of a `TranscribeEvent`.
pub enum EventView {
    ModelReady(Result<Seq<char>, Seq<char>>),
    InferenceDone(Result<(Seq<char>, u8), Seq<char>>),
}

impl View for TranscribeEvent {
    type V = EventView;

    open spec fn view(&self) -> EventView {
        match self {
            TranscribeEvent::ModelReady(Ok(p)) => EventView::ModelReady(Ok(p@)),
            TranscribeEvent::ModelReady(Err(e)) => EventView::ModelReady(Err(e@)),
            TranscribeEvent::InferenceDone(r) => EventView::InferenceDone(outcome_view(*r)),
        }
    }
}

/// What a transcription waits for.
#[derive(Debug, Clone, Copy, PartialEq, Eq, Structural)]
pub enum JobStage {
    AwaitModel,
    AwaitInference,
    Done,
}

/// One transcription in progress. `first_error` holds the recogniser's first
/// failure once the single retry has begun.
pub struct TranscriptionJob {
    pub stage: JobStage,
    pub first_error: Option<String>,
}

/// The view of a `TranscriptionJob`.
pub struct JobView {
    pub stage: JobStage,
    pub first_error: Option<Seq<char>>,
}

impl View for TranscriptionJob {
    type V = JobView;

    open spec fn view(&self) -> JobView {
        JobView {
            stage: self.stage,
            first_error: match self.first_error {
                Some(e) => Some(e@),
                None => None,
            },
        }
    }
}

/// How a transcription of `pcm_len` samples begins: an empty capture ends at
/// once with empty text and no confidence, without running the recogniser;
/// otherwise the model is prepared.
pub open spec fn job_start(pcm_len: nat) -> (JobView, ActionView) {
    if pcm_len == 0 {
        (
            JobView { stage: JobStage::Done, first_error: None },
            ActionView::Finish(Ok((seq![], 0))),
        )
    } else {
        (JobView { stage: JobStage::AwaitModel, first_error: None }, ActionView::PrepareModel)
    }
}

/// The job accepts `ev` in its present stage.
pub open spec fn accepts(job: JobView, ev: EventView) -> bool {
    match ev {
        EventView::ModelReady(_) => job.stage == JobStage::AwaitModel,
        EventView::InferenceDone(_) => job.stage == JobStage::AwaitInference,
    }
}

/// The step of the retry policy: a model that cannot be provided ends the
/// job; a recogniser failure on the first model leads to one refresh and one
/// more attempt; a failure on the refreshed model ends the job with an error
/// that carries the first failure.
pub open spec fn job_step(job: JobView, ev: EventView) -> (JobView, ActionView) {
    match ev {
        EventView::ModelReady(Err(e)) => (
            JobView { stage: JobStage::Done, ..job },
            ActionView::Finish(Err(e)),
        ),
        EventView::ModelReady(Ok(p)) => (
            JobView { stage: JobStage::AwaitInference, ..job },
            ActionView::RunInference(p),
        ),
        EventView::InferenceDone(Ok(o)) => (
            JobView { stage: JobStage::Done, ..job },
            ActionView::Finish(Ok(o)),
        ),
        EventView::InferenceDone(Err(e)) => match job.first_error {
            None => (
                JobView { stage: JobStage::AwaitModel, first_error: Some(e) },
                ActionView::RefreshModel,
            ),
            Some(f) => (
                JobView { stage: JobStage::Done, first_error: Some(f) },
                ActionView::Finish(Err(refresh_failure(f))),
            ),
        },
    }
}

/// The recogniser is retried exactly once. On a non-empty capture whose
/// model is provided, a first failure leads to a refresh of the model and one
/// more run. If that run succeeds, its output is the outcome; if it fails
/// too, the outcome is an error whose message ends with the first failure's
/// message, and the job is over either way.
pub proof fn lemma_retry_once(
    pcm_len: nat,
    first_path: Seq<char>,
    first_error: Seq<char>,
    second_path: Seq<char>,
    second: Result<(Seq<char>, u8), Seq<char>>,
)
    requires
        pcm_len > 0,
    ensures
        ({
            let (j0, a0) = job_start(pcm_len);
            let ev1 = EventView::ModelReady(Ok(first_path));
            let (j1, a1) = job_step(j0, ev1);
            let ev2 = EventView::InferenceDone(Err(first_error));
            let (j2, a2) = job_step(j1, ev2);
            let ev3 = EventView::ModelReady(Ok(second_path));
            let (j3, a3) = job_step(j2, ev3);
            let ev4 = EventView::InferenceDone(second);
            let (j4, a4) = job_step(j3, ev4);
            &&& a0 == ActionView::PrepareModel && accepts(j0, ev1)
            &&& a1 == ActionView::RunInference(first_path) && accepts(j1, ev2)
            &&& a2 == ActionView::RefreshModel && accepts(j2, ev3)
            &&& a3 == ActionView::RunInference(second_path) && accepts(j3, ev4)
            &&& j4.stage == JobStage::Done
            &&& (second matches Ok(o) ==> a4 == ActionView::Finish(Ok(o)))
            &&& (second is Err ==> a4 == ActionView::Finish(Err(refresh_failure(first_error))))
            &&& (second is Err ==> refresh_failure(first_error).subrange(
                refresh_failure(first_error).len() - first_error.len(),
                refresh_failure(first_error).len() as int,
            ) == first_error)
        }),
{
    let m = refresh_failure(first_error);
    assert(m.subrange(m.len() - first_error.len(), m.len() as int) =~= first_error);
}

impl TranscriptionJob {
    /// Begins the transcription of `pcm_len` samples.
    pub fn start(pcm_len: usize) -> (r: (TranscriptionJob, TranscribeAction))
        ensures
            (r.0@, r.1@) == job_start(pcm_len as nat),
    {
        if pcm_len == 0 {
            let out = WhisperOutput { text: String::new(), confidence_percent: 0 };
            assert(out.text@ =~= seq![]);
            (
                TranscriptionJob { stage: JobStage::Done, first_error: None },
                TranscribeAction::Finish(Ok(out)),
            )
        } else {
            (
                TranscriptionJob { stage: JobStage::AwaitModel, first_error: None },
                TranscribeAction::PrepareModel,
            )
        }
    }

    /// Tells whether the job waits for the model to be provided.
    pub fn awaits_model(&self) -> (r: bool)
        ensures
            r == (self.stage == JobStage::AwaitModel),
    {
        match self.stage {
            JobStage::AwaitModel => true,
            _ => false,
        }
    }

    /// Tells whether the job waits for the recogniser.
    pub fn awaits_inference(&self) -> (r: bool)
        ensures
            r == (self.stage == JobStage::AwaitInference),
    {
        match self.stage {
            JobStage::AwaitInference => true,
            _ => false,
        }
    }

    /// Takes in what the driver reports and says what it is to do next.
    pub fn step(&mut self, ev: TranscribeEvent) -> (a: TranscribeAction)
        requires
            accepts(old(self)@, ev@),
        ensures
            (final(self)@, a@) == job_step(old(self)@, ev@),
    {
        match ev {
            TranscribeEvent::ModelReady(Err(e)) => {
                self.stage = JobStage::Done;
                TranscribeAction::Finish(Err(e))
            },
            TranscribeEvent::ModelReady(Ok(p)) => {
                self.stage = JobStage::AwaitInference;
                TranscribeAction::RunInference(p)
            },
            TranscribeEvent::InferenceDone(Ok(o)) => {
                self.stage = JobStage::Done;
                TranscribeAction::Finish(Ok(o))
            },
            TranscribeEvent::InferenceDone(Err(e)) => {
                let first = self.first_error.take();
                match first {
                    None => {
                        self.stage = JobStage::AwaitModel;
                        self.first_error = Some(e);
                        TranscribeAction::RefreshModel
                    },
                    Some(f) => {
                        let msg = String::from_str("transcription failed after model refresh: ").concat(
                            f.as_str(),
                        );
                        self.stage = JobStage::Done;
                        self.first_error = Some(f);
                        TranscribeAction::Finish(Err(msg))
                    },
                }
            },
        }
    }
}

} // verus!
