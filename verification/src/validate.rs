//! Pre-flight check that the required input files exist, turning the
//! engines' opaque failures on missing files into actionable messages.
//!
//! The check itself is pure: the binary looks the paths up on disk and hands
//! the existence facts in as booleans, so the reported message is a function
//! of the inputs alone.

use vstd::prelude::*;

verus! {

/// The outcome of validation: `None` when every required file exists,
/// otherwise the message for the first missing path. The model path is
/// checked before the audio path, so a missing model is reported even when
/// the audio file is missing too.
pub open spec fn spec_validate(
    model_path: Seq<char>,
    model_exists: bool,
    audio_path: Seq<char>,
    audio_exists: bool,
) -> Option<Seq<char>> {
    if !model_exists {
        Some("Model file not found: "@ + model_path)
    } else if !audio_exists {
        Some("Audio file not found: "@ + audio_path)
    } else {
        None
    }
}

/// Check the required paths in their fixed order (model, then audio) and
/// fail on the first missing one with a `"<Label> file not found: <path>"`
/// message; succeed silently when both exist.
pub fn validate_paths(
    model_path: &str,
    model_exists: bool,
    audio_path: &str,
    audio_exists: bool,
) -> (r: Result<(), String>)
    ensures
        r is Ok <==> model_exists && audio_exists,
        r matches Err(m) ==> Some(m@) == spec_validate(
            model_path@,
            model_exists,
            audio_path@,
            audio_exists,
        ),
{
    if !model_exists {
        let mut msg = String::from_str("Model file not found: ");
        msg.append(model_path);
        Err(msg)
    } else if !audio_exists {
        let mut msg = String::from_str("Audio file not found: ");
        msg.append(audio_path);
        Err(msg)
    } else {
        Ok(())
    }
}

/// Validation is deterministic: two runs over the same paths and existence
/// facts decide the same outcome, so the reported error is byte-identical
/// from run to run.
pub proof fn lemma_validation_idempotent(
    model_path: Seq<char>,
    model_exists: bool,
    audio_path: Seq<char>,
    audio_exists: bool,
    r1: Option<Seq<char>>,
    r2: Option<Seq<char>>,
)
    requires
        r1 == spec_validate(model_path, model_exists, audio_path, audio_exists),
        r2 == spec_validate(model_path, model_exists, audio_path, audio_exists),
    ensures
        r1 == r2,
{
}

} // verus!
