use transcribe_cli::engine::{
    inference_params_for, model_params_for, Adapter, EngineKind, ModelParams, Quantization,
    TranscriptionRequest,
};
use transcribe_cli::envelope::Envelope;
use transcribe_cli::pipeline::{
    envelope_of_report, exit_code_for, run_outcome, stream_for, EngineReport, Stream,
};
use transcribe_cli::validate::validate_paths;

fn request(model: &str, audio: &str) -> TranscriptionRequest {
    TranscriptionRequest::new(
        String::from(audio),
        String::from(model),
        EngineKind::Whisper,
        None,
    )
}

#[test]
fn successful_run_emits_text_line_on_stdout() {
    let r = run_outcome(
        &request("model.bin", "audio.wav"),
        true,
        true,
        Some(EngineReport::Transcribed {
            text: String::from("hello world"),
        }),
    );
    assert_eq!(r.line, "{\"text\":\"hello world\"}");
    assert_eq!(r.stream, Stream::Stdout);
    assert_eq!(r.exit_code, 0);
}

#[test]
fn successful_run_line_is_valid_json_with_text_key() {
    let r = run_outcome(
        &request("model.bin", "audio.wav"),
        true,
        true,
        Some(EngineReport::Transcribed {
            text: String::from("a transcription"),
        }),
    );
    let v: serde_json::Value = serde_json::from_str(&r.line).unwrap();
    let obj = v.as_object().unwrap();
    assert_eq!(obj.len(), 1);
    assert_eq!(obj.get("text").unwrap().as_str().unwrap(), "a transcription");
}

#[test]
fn empty_transcription_is_still_a_success() {
    let r = run_outcome(
        &request("model.bin", "audio.wav"),
        true,
        true,
        Some(EngineReport::Transcribed { text: String::new() }),
    );
    assert_eq!(r.line, "{\"text\":\"\"}");
    assert_eq!(r.stream, Stream::Stdout);
    assert_eq!(r.exit_code, 0);
}

#[test]
fn missing_model_is_reported_before_missing_audio() {
    let r = run_outcome(
        &request("gone_model.bin", "gone_audio.wav"),
        false,
        false, None);
    assert_eq!(r.line, "{\"error\":\"Model file not found: gone_model.bin\"}");
    assert_eq!(r.stream, Stream::Stderr);
    assert_eq!(r.exit_code, 1);
}

#[test]
fn missing_model_error_is_valid_json_with_error_key() {
    let r = run_outcome(
        &request("gone_model.bin", "audio.wav"),
        false,
        true, None);
    let v: serde_json::Value = serde_json::from_str(&r.line).unwrap();
    let obj = v.as_object().unwrap();
    assert_eq!(obj.len(), 1);
    assert_eq!(
        obj.get("error").unwrap().as_str().unwrap(),
        "Model file not found: gone_model.bin"
    );
}

#[test]
fn missing_audio_beside_existing_model() {
    let r = run_outcome(
        &request("real_model.bin", "missing.wav"),
        true,
        false, None);
    assert_eq!(r.line, "{\"error\":\"Audio file not found: missing.wav\"}");
    assert_eq!(r.stream, Stream::Stderr);
    assert_eq!(r.exit_code, 1);
}

#[test]
fn validation_is_idempotent_byte_for_byte() {
    let first = validate_paths("m.bin", false, "a.wav", true).unwrap_err();
    let second = validate_paths("m.bin", false, "a.wav", true).unwrap_err();
    assert_eq!(first, second);
    let r1 = run_outcome(
        &request("m.bin", "a.wav"),
        false,
        true, None);
    let r2 = run_outcome(
        &request("m.bin", "a.wav"),
        false,
        true, None);
    assert_eq!(r1.line, r2.line);
    assert_eq!(r1.exit_code, r2.exit_code);
}

#[test]
fn validation_passes_when_both_files_exist() {
    assert!(validate_paths("m.bin", true, "a.wav", true).is_ok());
}

#[test]
fn load_failure_carries_engine_message_verbatim() {
    let r = run_outcome(
        &request("model.bin", "audio.wav"),
        true,
        true,
        Some(EngineReport::LoadFailed {
            error: String::from("failed to open GGML file"),
        }),
    );
    assert_eq!(r.line, "{\"error\":\"failed to open GGML file\"}");
    assert_eq!(r.stream, Stream::Stderr);
    assert_eq!(r.exit_code, 1);
}

#[test]
fn transcription_failure_carries_engine_message_verbatim() {
    let r = run_outcome(
        &request("model.bin", "audio.wav"),
        true,
        true,
        Some(EngineReport::TranscribeFailed {
            error: String::from("unsupported sample rate"),
        }),
    );
    assert_eq!(r.line, "{\"error\":\"unsupported sample rate\"}");
    assert_eq!(r.exit_code, 1);
}

#[test]
fn whisper_model_params_use_gpu() {
    assert_eq!(
        model_params_for(EngineKind::Whisper),
        ModelParams::Whisper { use_gpu: true }
    );
}

#[test]
fn parakeet_model_params_are_int8() {
    assert_eq!(
        model_params_for(EngineKind::Parakeet),
        ModelParams::Parakeet {
            quantization: Quantization::Int8
        }
    );
}

#[test]
fn whisper_language_is_copied_verbatim() {
    let p = inference_params_for(EngineKind::Whisper, Some(String::from("es")));
    assert_eq!(p.language.as_deref(), Some("es"));
    let none = inference_params_for(EngineKind::Whisper, None);
    assert_eq!(none.language, None);
}

#[test]
fn parakeet_language_flag_is_inert() {
    let with_flag = inference_params_for(EngineKind::Parakeet, Some(String::from("es")));
    let without_flag = inference_params_for(EngineKind::Parakeet, None);
    assert_eq!(with_flag, without_flag);
    assert_eq!(with_flag.language, None);
    let other_flag = inference_params_for(EngineKind::Parakeet, Some(String::from("fr")));
    assert_eq!(with_flag, other_flag);
}

#[test]
fn request_builder_pairs_params_with_engine_kind() {
    let quantized = TranscriptionRequest::new(
        String::from("a.wav"),
        String::from("model_dir"),
        EngineKind::Parakeet,
        Some(String::from("es")),
    );
    assert_eq!(
        quantized.model_params(),
        ModelParams::Parakeet {
            quantization: Quantization::Int8
        }
    );
    assert_eq!(quantized.inference_params().language, None);

    let general = TranscriptionRequest::new(
        String::from("a.wav"),
        String::from("m.bin"),
        EngineKind::Whisper,
        Some(String::from("en")),
    );
    assert_eq!(general.model_params(), ModelParams::Whisper { use_gpu: true });
    assert_eq!(general.inference_params().language.as_deref(), Some("en"));
}

#[test]
fn adapter_sequences_load_before_transcribe() {
    let mut a = Adapter::new(EngineKind::Whisper);
    assert!(!a.may_transcribe());
    a.on_load_result(true);
    assert!(a.may_transcribe());
    let mut failed = Adapter::new(EngineKind::Parakeet);
    failed.on_load_result(false);
    assert!(!failed.may_transcribe());
}

#[test]
fn report_flattens_to_matching_envelope_variant() {
    let ok = envelope_of_report(EngineReport::Transcribed {
        text: String::from("t"),
    });
    assert!(matches!(ok, Envelope::Success { .. }));
    assert_eq!(stream_for(&ok), Stream::Stdout);
    assert_eq!(exit_code_for(&ok), 0);
    let err = envelope_of_report(EngineReport::LoadFailed {
        error: String::from("e"),
    });
    assert!(matches!(err, Envelope::Failure { .. }));
    assert_eq!(stream_for(&err), Stream::Stderr);
    assert_eq!(exit_code_for(&err), 1);
}
