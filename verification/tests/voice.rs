use mahakala::voice::{SpeechConfig, VoiceManager, TRANSCRIPTION_CONFIDENCE_BITS};

fn manager() -> VoiceManager {
    VoiceManager::new(SpeechConfig {
        model: "whisper".to_string(),
        language: "en".to_string(),
        sample_rate: 16000,
        channels: 1,
        format: "pcm".to_string(),
    })
}

#[test]
fn test_start_stream() {
    let mut manager = manager();
    let id = manager.start_stream("session_1");
    assert!(id.is_ok());
    assert_eq!(manager.list_streams().len(), 1);
}

#[test]
fn test_process_and_transcribe() {
    let mut manager = manager();
    let stream_id = manager.start_stream("session_1").unwrap();

    let audio_data = vec![0u8; 1024];
    manager.process_audio_chunk(&stream_id, &audio_data).unwrap();
    manager.process_audio_chunk(&stream_id, &audio_data).unwrap();

    let result = manager.transcribe(&stream_id);
    assert!(result.is_ok());
    let transcription = result.unwrap();
    assert!(!transcription.text.is_empty());
    assert_eq!(transcription.language, "en");
    assert_eq!(transcription.duration_ms, 200);
}

#[test]
fn test_stop_stream() {
    let mut manager = manager();
    let stream_id = manager.start_stream("session_1").unwrap();
    manager.stop_stream(&stream_id).unwrap();

    let stream = manager.get_stream(&stream_id).unwrap();
    assert!(!stream.is_active);
}

#[test]
fn voice_stopped_stream_refuses_audio() {
    let mut manager = manager();
    let id = manager.start_stream("s").unwrap();
    manager.stop_stream(&id).unwrap();
    assert_eq!(manager.process_audio_chunk(&id, &[1, 2]).unwrap_err().to_text(), format!("Internal error: Audio stream {} is not active", id));
    assert_eq!(manager.transcribe("nope").unwrap_err().to_text(), "Not found: Audio stream nope not found");
}

#[test]
fn voice_confidence_and_speech() {
    assert_eq!(f64::from_bits(TRANSCRIPTION_CONFIDENCE_BITS), 0.95);
    let manager = manager();
    assert_eq!(manager.synthesize_speech("hi").unwrap(), b"Synthesized audio for: hi".to_vec());
    let stats = manager.get_stats();
    assert_eq!(stats.total_streams, 0);
    assert_eq!(stats.model, "whisper");
}
