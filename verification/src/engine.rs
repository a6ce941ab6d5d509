//! The closed set of engine variants, their load- and inference-time
//! configuration, and the call-order state machine of an engine adapter.

use vstd::prelude::*;

verus! {

/// The two interchangeable engine variants behind the one capability
/// surface `{load_model, transcribe}`: a general model-file engine and a
/// quantized directory-based engine.
#[derive(Clone, Copy, PartialEq, Eq, Structural, Debug)]
pub enum EngineKind {
    Whisper,
    Parakeet,
}

/// Quantization level of the quantized engine's model directory.
#[derive(Clone, Copy, PartialEq, Eq, Structural, Debug)]
pub enum Quantization {
    Int8,
}

/// Engine-specific configuration for loading a model. Exactly one variant
/// matches each engine kind; see [`params_match`].
#[derive(Clone, Copy, PartialEq, Eq, Structural, Debug)]
pub enum ModelParams {
    Whisper { use_gpu: bool },
    Parakeet { quantization: Quantization },
}

/// Configuration for one transcription call. When `language` is absent the
/// engine auto-detects.
#[derive(Clone, Debug, PartialEq, Eq)]
pub struct InferenceParams {
    pub language: Option<String>,
}

/// Pairing a params variant with an engine kind is a static invariant, not a
/// runtime case: the builder only ever constructs the matching variant.
pub open spec fn params_match(kind: EngineKind, params: ModelParams) -> bool {
    match (kind, params) {
        (EngineKind::Whisper, ModelParams::Whisper { .. }) => true,
        (EngineKind::Parakeet, ModelParams::Parakeet { .. }) => true,
        _ => false,
    }
}

/// The language the engine is asked to transcribe in. The whisper-like
/// engine takes the flag verbatim; the quantized engine always auto-detects,
/// so the flag is accepted but inert there.
pub open spec fn spec_inference_language(
    kind: EngineKind,
    language: Option<Seq<char>>,
) -> Option<Seq<char>> {
    match kind {
        EngineKind::Whisper => language,
        EngineKind::Parakeet => None,
    }
}

/// Build the model-load parameters for the selected engine: the general
/// engine runs on the GPU, the quantized engine loads int8 weights. Neither
/// choice is user-configurable.
pub fn model_params_for(kind: EngineKind) -> (p: ModelParams)
    ensures
        params_match(kind, p),
        kind == EngineKind::Whisper ==> p == (ModelParams::Whisper { use_gpu: true }),
        kind == EngineKind::Parakeet ==> p == (ModelParams::Parakeet {
            quantization: Quantization::Int8,
        }),
{
    match kind {
        EngineKind::Whisper => ModelParams::Whisper { use_gpu: true },
        EngineKind::Parakeet => ModelParams::Parakeet { quantization: Quantization::Int8 },
    }
}

/// Build the inference parameters for the selected engine from the parsed
/// `--language` flag.
pub fn inference_params_for(kind: EngineKind, language: Option<String>) -> (p: InferenceParams)
    ensures
        p.language.deep_view() == spec_inference_language(kind, language.deep_view()),
{
    match kind {
        EngineKind::Whisper => InferenceParams { language },
        EngineKind::Parakeet => InferenceParams { language: None },
    }
}

/// One invocation's request, assembled once from the parsed command line
/// and immutable afterwards.
#[derive(Clone, Debug, PartialEq, Eq)]
pub struct TranscriptionRequest {
    pub audio_path: String,
    pub model_path: String,
    pub engine_kind: EngineKind,
    pub language: Option<String>,
}

impl TranscriptionRequest {
    /// Assemble the request from the parsed CLI fields.
    pub fn new(
        audio_path: String,
        model_path: String,
        engine_kind: EngineKind,
        language: Option<String>,
    ) -> (r: TranscriptionRequest)
        ensures
            r.audio_path == audio_path,
            r.model_path == model_path,
            r.engine_kind == engine_kind,
            r.language == language,
    {
        TranscriptionRequest { audio_path, model_path, engine_kind, language }
    }

    /// The model-load parameters for this request's engine.
    pub fn model_params(&self) -> (p: ModelParams)
        ensures
            params_match(self.engine_kind, p),
            self.engine_kind == EngineKind::Whisper ==> p == (ModelParams::Whisper {
                use_gpu: true,
            }),
            self.engine_kind == EngineKind::Parakeet ==> p == (ModelParams::Parakeet {
                quantization: Quantization::Int8,
            }),
    {
        model_params_for(self.engine_kind)
    }

    /// The inference parameters for this request's engine and language flag.
    pub fn inference_params(&self) -> (p: InferenceParams)
        ensures
            p.language.deep_view() == spec_inference_language(
                self.engine_kind,
                self.language.deep_view(),
            ),
    {
        let language = match &self.language {
            Some(s) => Some(s.clone()),
            None => None,
        };
        inference_params_for(self.engine_kind, language)
    }
}

/// For the quantized engine the `--language` flag never changes the
/// parameters passed to inference: any two supplied values build the same
/// configuration.
pub proof fn lemma_quantized_language_inert(a: Option<Seq<char>>, b: Option<Seq<char>>)
    ensures
        spec_inference_language(EngineKind::Parakeet, a) == spec_inference_language(
            EngineKind::Parakeet,
            b,
        ),
{
}

/// Call-order state of an engine adapter: `load_model` must precede
/// `transcribe`, and a failed load is terminal.
#[derive(Clone, Copy, PartialEq, Eq, Structural, Debug)]
pub enum AdapterState {
    Uninitialized,
    Ready,
    Failed,
}

/// The sequencing half of an engine adapter. The engine itself lives outside
/// the pipeline; this record tracks, for one process run, where in the
/// `Uninitialized -> Ready` state machine the adapter stands, so that
/// `transcribe` can be reached only after a successful `load_model`.
pub struct Adapter {
    pub kind: EngineKind,
    pub state: AdapterState,
}

impl Adapter {
    /// A fresh adapter has loaded nothing yet.
    pub fn new(kind: EngineKind) -> (a: Adapter)
        ensures
            a.kind == kind,
            a.state == AdapterState::Uninitialized,
    {
        Adapter { kind, state: AdapterState::Uninitialized }
    }

    /// Record the outcome of the one `load_model` call: success arms the
    /// adapter, failure is terminal.
    pub fn on_load_result(&mut self, loaded: bool)
        requires
            old(self).state == AdapterState::Uninitialized,
        ensures
            final(self).kind == old(self).kind,
            final(self).state == (if loaded {
                AdapterState::Ready
            } else {
                AdapterState::Failed
            }),
    {
        self.state = if loaded {
            AdapterState::Ready
        } else {
            AdapterState::Failed
        };
    }

    /// Transcription may start only once the adapter is armed.
    pub fn may_transcribe(&self) -> (ok: bool)
        ensures
            ok == (self.state == AdapterState::Ready),
    {
        matches!(self.state, AdapterState::Ready)
    }
}

} // verus!
