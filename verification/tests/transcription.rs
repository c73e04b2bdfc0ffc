use typervox::capture::{CaptureError, MockCapture};
use typervox::engine::{ct2_result, EngineError, MockEngine};
use typervox::session::CaptureSession;
use typervox::settings::{
    device_candidates, language, missing_preprocessor_config, model_id, rate_is_usable, Device,
    DeviceSearch, EngineSettings, InitError, BEAM_SIZE, MAX_LENGTH,
};
use typervox::text::{common_prefix_len, decimal_text, join};

fn settings(sample_rate: usize) -> EngineSettings {
    assert!(rate_is_usable(sample_rate));
    EngineSettings::new("m".to_string(), "en".to_string(), Device::Cpu, sample_rate)
}

fn session(sample_rate: usize) -> CaptureSession {
    CaptureSession::new(&settings(sample_rate), 0)
}

/// A time in milliseconds, as the session takes it.
fn ms(time: u128) -> u128 {
    time * 1_000_000
}

fn segments(parts: &[&str]) -> Vec<String> {
    parts.iter().map(|part| part.to_string()).collect()
}

#[test]
fn mock_engine_reports_length() {
    let engine = MockEngine;
    let res = engine.decode([0.0f32, 1.0].len()).unwrap();
    assert_eq!(res.text, "len=2");
    assert_eq!(res.lang, "en");
    assert_eq!(res.decode_ms, 0);
    assert_eq!(MockEngine::default().decode(1024).unwrap().text, "len=1024");
}

#[test]
fn mock_capture_hands_its_frames_out() {
    let mut capture = MockCapture {
        frames: vec![0, i16::MAX, i16::MIN],
    };
    assert_eq!(capture.start(), Ok(()));
    assert_eq!(capture.stop(), Ok(vec![0, i16::MAX, i16::MIN]));
    assert_eq!(capture.frames, vec![0, i16::MAX, i16::MIN]);
    assert!(MockCapture::default().frames.is_empty());
}

#[test]
fn errors_have_messages() {
    assert_eq!(
        CaptureError::Start("x".to_string()).message(),
        "capture start failed: x"
    );
    assert_eq!(
        CaptureError::Stop("y".to_string()).message(),
        "capture stop failed: y"
    );
    assert_eq!(
        EngineError::Decode("z".to_string()).message(),
        "decode failed: z"
    );
    assert_eq!(
        EngineError::model_download("offline").message(),
        "decode failed: model download: offline"
    );
    assert_eq!(
        EngineError::model_load("corrupt").message(),
        "decode failed: model load: corrupt"
    );
}

#[test]
fn ct2_result_takes_the_first_segment() {
    let result = ct2_result(&segments(&["one", "two"]), 345);
    assert_eq!(result.text, "one");
    assert_eq!(result.decode_ms, 345);
    assert_eq!(result.lang, "en");
    let empty = ct2_result(&segments(&[]), (1u128 << 64) + 3);
    assert_eq!(empty.text, "");
    assert_eq!(empty.decode_ms, 3);
    assert_eq!(empty.clone().lang, "en");
}

#[test]
fn model_and_language_default() {
    assert_eq!(model_id(None), "Systran/faster-whisper-base.en");
    assert_eq!(model_id(Some("mine".to_string())), "mine");
    assert_eq!(model_id(Some(String::new())), "");
    assert_eq!(language(None), "en");
    assert_eq!(language(Some("de".to_string())), "de");
}

#[test]
fn preprocessor_config_is_written_when_missing() {
    assert_eq!(missing_preprocessor_config(true), None);
    let config = missing_preprocessor_config(false).unwrap();
    let parsed: serde_json::Value = serde_json::from_str(config).unwrap();
    assert_eq!(parsed["sampling_rate"], serde_json::Value::from(16000));
    assert_eq!(parsed["chunk_length"], serde_json::Value::from(30));
    assert_eq!(parsed["padding_value"], serde_json::Value::from(0.0));
    assert_eq!(parsed.as_object().unwrap().len(), 12);
    assert!(config.starts_with("{\n  \"chunk_length\": 30,\n"));
    assert!(config.ends_with("\"sampling_rate\": 16000\n}"));
}

#[test]
fn devices_are_tried_in_order_and_the_last_error_is_kept() {
    assert_eq!(device_candidates(0), vec![Device::Cpu]);
    assert_eq!(device_candidates(-1), vec![Device::Cpu]);
    assert_eq!(device_candidates(2), vec![Device::Cuda, Device::Cpu]);

    let mut search: DeviceSearch<&str> = DeviceSearch::new(device_candidates(1));
    assert_eq!(search.next_device(), Some(Device::Cuda));
    search.record_failure("no driver");
    assert_eq!(search.next_device(), Some(Device::Cpu));
    search.record_failure("no memory");
    assert_eq!(search.next_device(), None);
    assert_eq!(search.into_error(), InitError::LastAttempt("no memory"));

    let none: DeviceSearch<&str> = DeviceSearch::new(Vec::new());
    assert_eq!(none.next_device(), None);
    assert_eq!(none.into_error(), InitError::NoDevice);
}

#[test]
fn chunks_and_buffers_follow_the_sample_rate() {
    assert_eq!(settings(16_000).chunk_len(), 640);
    assert_eq!(settings(16_000).max_samples, 48_000);
    assert_eq!((BEAM_SIZE, MAX_LENGTH), (1, 64));
    assert_eq!(settings(24).chunk_len(), 1);
    assert_eq!(settings(0).chunk_len(), 1);
    assert!(!rate_is_usable(usize::MAX));
    assert!(!rate_is_usable(usize::MAX / 3 + 1));
}

#[test]
fn decode_waits_for_time_and_audio() {
    let mut session = session(10);
    assert_eq!(session.push_chunk(&[1, 2, 3, 4], ms(1_000)), None);
    assert_eq!(session.push_chunk(&[5], ms(150) - 1), None);
    assert_eq!(session.push_chunk(&[], ms(150)), Some(&[1i16, 2, 3, 4, 5][..]));
}

#[test]
fn interval_counts_from_the_end_of_the_last_decode() {
    let mut session = CaptureSession::new(&settings(2), ms(1_000));
    assert_eq!(session.push_chunk(&[1], ms(1_149)), None);
    assert_eq!(session.push_chunk(&[2], ms(1_150)), Some(&[1i16, 2][..]));
    session.printed("a".to_string(), ms(1_400));
    assert_eq!(session.push_chunk(&[3], ms(1_401)), None);
    assert_eq!(session.push_chunk(&[4], ms(1_550) - 1), None);
    assert_eq!(session.push_chunk(&[5], ms(1_550)), Some(&[2i16, 3, 4, 5][..]));
    assert_eq!(
        session.conclude("b".to_string(), Ok::<(), u8>(()), ms(1_600)),
        Ok(())
    );
    assert_eq!(session.push_chunk(&[6], ms(1_749)), None);
    assert_eq!(session.push_chunk(&[7], ms(900)), None);
    assert_eq!(session.push_chunk(&[8], ms(1_750)), Some(&[5i16, 6, 7, 8][..]));
}

#[test]
fn decode_takes_the_last_two_seconds_before_and_after_audio_is_dropped() {
    let mut session = session(2);
    let first: Vec<i16> = (1..=9).collect();
    assert_eq!(session.push_chunk(&first, ms(150)), Some(&[6i16, 7, 8, 9][..]));
    session.printed("a".to_string(), ms(200));
    assert_eq!(session.push_chunk(&[10], ms(350)), Some(&[7i16, 8, 9, 10][..]));
    session.printed("b".to_string(), ms(400));
    assert_eq!(session.push_chunk(&[], ms(10_000)), Some(&[7i16, 8, 9, 10][..]));
}

/// Prints a transcription successfully, and returns what was printed.
fn print(session: &mut CaptureSession, parts: &[&str]) -> String {
    let (text, tail) = session.new_text(&segments(parts));
    assert_eq!(text, parts.concat());
    session.printed(text, 0);
    assert_ne!(tail.as_deref(), Some(""));
    tail.unwrap_or_default()
}

#[test]
fn text_is_printed_incrementally() {
    let mut session = session(16_000);
    assert_eq!(print(&mut session, &["hel", "lo"]), "hello");
    assert_eq!(print(&mut session, &["hello", " world"]), " world");
    assert_eq!(print(&mut session, &["hello"]), "");
    assert_eq!(print(&mut session, &["help"]), "p");
    assert_eq!(print(&mut session, &["gr\u{fc}n"]), "gr\u{fc}n");
    assert_eq!(print(&mut session, &["gr\u{fc}\u{df}e"]), "\u{df}e");
    assert_eq!(print(&mut session, &[]), "");
    assert_eq!(print(&mut session, &["again"]), "again");
}

#[test]
fn text_is_kept_only_once_it_is_printed() {
    let mut session = session(16_000);
    assert_eq!(print(&mut session, &["one"]), "one");

    let (text, tail) = session.new_text(&segments(&["one two"]));
    assert_eq!(tail.as_deref(), Some(" two"));
    assert_eq!(session.conclude(text, Err("closed"), 0), Err("closed"));

    let (text, tail) = session.new_text(&segments(&["one two"]));
    assert_eq!(tail.as_deref(), Some(" two"));
    assert_eq!(session.conclude(text, Ok::<(), &str>(()), 0), Ok(()));
    assert_eq!(session.new_text(&segments(&["one two"])).1, None);
}

#[test]
fn audio_is_kept_when_printing_fails() {
    let mut session = session(2);
    let first: Vec<i16> = (1..=9).collect();
    session.push_chunk(&first, ms(150));
    assert_eq!(session.conclude("a".to_string(), Err(5), ms(200)), Err(5));
    assert_eq!(session.push_chunk(&[10], ms(200)), Some(&[7i16, 8, 9, 10][..]));
}

#[test]
fn text_helpers() {
    assert_eq!(decimal_text(0), "0");
    assert_eq!(decimal_text(9), "9");
    assert_eq!(decimal_text(10), "10");
    assert_eq!(decimal_text(9_876_543_210), "9876543210");
    assert_eq!(decimal_text(u64::MAX), "18446744073709551615");
    assert_eq!(join(&segments(&["a", "", "bc"])), "abc");
    assert_eq!(common_prefix_len("abc", "abd"), 2);
    assert_eq!(common_prefix_len("", "abd"), 0);
    assert_eq!(common_prefix_len("ab", "ab"), 2);
}
