//! The run pipeline end to end: pre-flight validation, flattening the
//! engine's report into the envelope, and routing the rendered line to the
//! right stream with the right exit status.

use vstd::prelude::*;

use crate::engine::TranscriptionRequest;
use crate::envelope::{Envelope, EnvelopeModel, lemma_parse_render, lemma_render_one_line,
    spec_parse, spec_render};
use crate::validate::{spec_validate, validate_paths};

verus! {

/// Which standard stream the rendered line is written to.
#[derive(Clone, Copy, PartialEq, Eq, Structural, Debug)]
pub enum Stream {
    Stdout,
    Stderr,
}

/// What the engine phase reported, as the binary observed it: the one
/// `load_model` call failed, or the `transcribe` call failed, or
/// transcription succeeded with the given text. Both error messages are
/// opaque and carried verbatim.
#[derive(Clone, Debug, PartialEq, Eq)]
pub enum EngineReport {
    LoadFailed { error: String },
    TranscribeFailed { error: String },
    Transcribed { text: String },
}

/// Specification-level model of an engine report.
pub enum ReportModel {
    LoadFailed { error: Seq<char> },
    TranscribeFailed { error: Seq<char> },
    Transcribed { text: Seq<char> },
}

impl View for EngineReport {
    type V = ReportModel;

    open spec fn view(&self) -> ReportModel {
        match self {
            EngineReport::LoadFailed { error } => ReportModel::LoadFailed { error: error@ },
            EngineReport::TranscribeFailed { error } => ReportModel::TranscribeFailed {
                error: error@,
            },
            EngineReport::Transcribed { text } => ReportModel::Transcribed { text: text@ },
        }
    }
}

impl DeepView for EngineReport {
    type V = ReportModel;

    open spec fn deep_view(&self) -> ReportModel {
        self.view()
    }
}

/// The envelope an engine report flattens to: the text on success, the
/// opaque message verbatim on either failure. The pipeline does not
/// classify engine-internal error kinds.
pub open spec fn spec_envelope_of_report(r: ReportModel) -> EnvelopeModel {
    match r {
        ReportModel::Transcribed { text } => EnvelopeModel::Success { text },
        ReportModel::LoadFailed { error } => EnvelopeModel::Failure { error },
        ReportModel::TranscribeFailed { error } => EnvelopeModel::Failure { error },
    }
}

/// The envelope of a whole run. The first validation failure wins and the
/// engine is never consulted; otherwise the engine report decides. A run
/// that passed validation always has a report — the binary always drives
/// the engine then — so the reportless case never arises and is pinned to
/// an empty failure message.
pub open spec fn spec_run_envelope(
    model_path: Seq<char>,
    model_exists: bool,
    audio_path: Seq<char>,
    audio_exists: bool,
    report: Option<ReportModel>,
) -> EnvelopeModel {
    match spec_validate(model_path, model_exists, audio_path, audio_exists) {
        Some(msg) => EnvelopeModel::Failure { error: msg },
        None => match report {
            Some(r) => spec_envelope_of_report(r),
            None => EnvelopeModel::Failure { error: Seq::<char>::empty() },
        },
    }
}

/// Success is written to standard output, failure to standard error.
pub open spec fn spec_stream(e: EnvelopeModel) -> Stream {
    match e {
        EnvelopeModel::Success { .. } => Stream::Stdout,
        EnvelopeModel::Failure { .. } => Stream::Stderr,
    }
}

/// Success exits with status 0, failure with status 1.
pub open spec fn spec_exit_code(e: EnvelopeModel) -> int {
    match e {
        EnvelopeModel::Success { .. } => 0,
        EnvelopeModel::Failure { .. } => 1,
    }
}

/// Flatten an engine report into the envelope.
pub fn envelope_of_report(report: EngineReport) -> (e: Envelope)
    ensures
        e@ == spec_envelope_of_report(report@),
{
    match report {
        EngineReport::Transcribed { text } => Envelope::Success { text },
        EngineReport::LoadFailed { error } => Envelope::Failure { error },
        EngineReport::TranscribeFailed { error } => Envelope::Failure { error },
    }
}

/// The stream the envelope's line goes to.
pub fn stream_for(e: &Envelope) -> (s: Stream)
    ensures
        s == spec_stream(e@),
{
    match e {
        Envelope::Success { .. } => Stream::Stdout,
        Envelope::Failure { .. } => Stream::Stderr,
    }
}

/// The process exit status the envelope selects.
pub fn exit_code_for(e: &Envelope) -> (c: i32)
    ensures
        c as int == spec_exit_code(e@),
{
    match e {
        Envelope::Success { .. } => 0,
        Envelope::Failure { .. } => 1,
    }
}

/// Everything the process does at its boundary, decided by the pipeline:
/// the line to write, the stream to write it to, the status to exit with.
pub struct RunOutcome {
    pub line: String,
    pub stream: Stream,
    pub exit_code: i32,
}

/// One run, end to end: check the model path, then the audio path; when
/// both exist, flatten the engine's report; render the envelope and route
/// it.
pub fn run_outcome(
    request: &TranscriptionRequest,
    model_exists: bool,
    audio_exists: bool,
    report: Option<EngineReport>,
) -> (r: RunOutcome)
    ensures
        ({
            let e = spec_run_envelope(
                request.model_path@,
                model_exists,
                request.audio_path@,
                audio_exists,
                report.deep_view(),
            );
            &&& r.line@ == spec_render(e)
            &&& r.stream == spec_stream(e)
            &&& r.exit_code as int == spec_exit_code(e)
        }),
{
    let validation = validate_paths(
        request.model_path.as_str(),
        model_exists,
        request.audio_path.as_str(),
        audio_exists,
    );
    let envelope = match validation {
        Err(msg) => Envelope::Failure { error: msg },
        Ok(()) => match report {
            Some(rep) => envelope_of_report(rep),
            None => Envelope::Failure { error: String::new() },
        },
    };
    let line = envelope.render();
    let stream = stream_for(&envelope);
    let exit_code = exit_code_for(&envelope);
    RunOutcome { line, stream, exit_code }
}

/// When both required files exist and the engine loads and transcribes
/// successfully, the run holds the success envelope for exactly that text:
/// its line parses back as `{"text": ...}`, contains no control character
/// (so it is exactly one line on standard output), and the run exits 0.
pub proof fn lemma_successful_run(model_path: Seq<char>, audio_path: Seq<char>, text: Seq<char>)
    ensures
        ({
            let e = spec_run_envelope(
                model_path,
                true,
                audio_path,
                true,
                Some(ReportModel::Transcribed { text }),
            );
            &&& e == (EnvelopeModel::Success { text })
            &&& spec_stream(e) == Stream::Stdout
            &&& spec_exit_code(e) == 0
            &&& spec_parse(spec_render(e)) == Some(e)
            &&& forall|i: int|
                0 <= i < spec_render(e).len() ==> (#[trigger] spec_render(e)[i]) as u32 >= 32
        }),
{
    let e = EnvelopeModel::Success { text };
    lemma_parse_render(e);
    lemma_render_one_line(e);
}

/// A missing model file fails the run with exactly the model message on
/// standard error and exit status 1 — whatever the audio path's existence
/// and whatever the engine would have reported: the model check comes
/// first and the engine is never reached.
pub proof fn lemma_missing_model(
    model_path: Seq<char>,
    audio_path: Seq<char>,
    audio_exists: bool,
    report: Option<ReportModel>,
)
    ensures
        ({
            let e = spec_run_envelope(model_path, false, audio_path, audio_exists, report);
            &&& e == (EnvelopeModel::Failure { error: "Model file not found: "@ + model_path })
            &&& spec_stream(e) == Stream::Stderr
            &&& spec_exit_code(e) == 1
        }),
{
}

/// A missing audio file beside an existing model fails the run with exactly
/// the audio message on standard error and exit status 1; the engine is
/// never reached.
pub proof fn lemma_missing_audio(
    model_path: Seq<char>,
    audio_path: Seq<char>,
    report: Option<ReportModel>,
)
    ensures
        ({
            let e = spec_run_envelope(model_path, true, audio_path, false, report);
            &&& e == (EnvelopeModel::Failure { error: "Audio file not found: "@ + audio_path })
            &&& spec_stream(e) == Stream::Stderr
            &&& spec_exit_code(e) == 1
        }),
{
}

} // verus!
