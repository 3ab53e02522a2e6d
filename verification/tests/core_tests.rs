use voiceflow::config::AppConfig;
use voiceflow::grammar::{
    cleanup_from_content, cleanup_from_reply, plan_cleanup, CleanupStep, GrammarError,
};
use voiceflow::llama::{llama_prompt, llama_reply_text};
use voiceflow::models::{
    available_models, download_after_read, download_after_status, locate_model, DownloadAction, model_download_url, model_file_name, ModelFile, ModelLocation,
};
use voiceflow::output::{delivery_for, output_plan, text_to_deliver, Delivery, OutputPlan};
use voiceflow::recording::{
    begin_recording, end_recording, hotkey_action, poll_recording, recording_wav_format,
    HotkeyAction, PollOutcome, WavFormat,
};
use voiceflow::typing::{text_chunks, typing_plan};
use voiceflow::whisper::{locate_whisper, whisper_args, WhisperLocation};
use voiceflow::window::{menu_action, tray_click_action, WindowAction};

fn entry(name: &str, is_file: bool) -> ModelFile {
    ModelFile { file_name: name.to_string(), is_file }
}

#[test]
fn default_config_values() {
    let c = AppConfig::default();
    assert_eq!(c.active_model, "tiny.en");
    assert_eq!(c.output_method, "type");
    assert_eq!(c.typing_speed, 20);
    assert!(!c.translate);
    assert_eq!(c.language, "en");
    assert_eq!(c.hotkey, "Control+Shift+Space");
    assert!(c.always_on_top);
    assert!(!c.grammar_enabled);
    assert_eq!(c.openrouter_api_key, "");
    assert_eq!(c.openrouter_model, "openai/gpt-4o-mini");
}

#[test]
fn stored_config_wins_over_default() {
    let mut c = AppConfig::default();
    c.active_model = "base.en".to_string();
    assert_eq!(AppConfig::from_stored(Some(c)).active_model, "base.en");
    assert_eq!(AppConfig::from_stored(None).active_model, "tiny.en");
}

#[test]
fn whisper_arguments_without_translation() {
    let c = AppConfig::default();
    let args = whisper_args("m.bin", "in.wav", "out", &c);
    let expected = [
        "-m", "m.bin", "-f", "in.wav", "-otxt", "-of", "out", "-l", "en", "--no-timestamps",
        "--max-context", "64", "-t", "4", "--no-gpu",
    ];
    assert_eq!(args, expected);
}

#[test]
fn whisper_arguments_with_translation() {
    let mut c = AppConfig::default();
    c.translate = true;
    c.language = "de".to_string();
    let args = whisper_args("m.bin", "in.wav", "out", &c);
    assert_eq!(args.len(), 16);
    assert_eq!(args[8], "de");
    assert_eq!(args[15], "-tr");
}

#[test]
fn whisper_location() {
    assert_eq!(locate_whisper(true), WhisperLocation::DevTree);
    assert_eq!(locate_whisper(false), WhisperLocation::Bundled);
}

#[test]
fn model_names_and_urls() {
    assert_eq!(model_file_name("base.en"), "ggml-base.en.bin");
    assert_eq!(
        model_download_url("small"),
        "https://huggingface.co/ggerganov/whisper.cpp/resolve/main/ggml-small.bin"
    );
}

#[test]
fn available_models_from_directory() {
    let entries = vec![
        entry("ggml-base.en.bin", true),
        entry("notes.txt", true),
        entry("ggml-dir.bin", false),
        entry("ggml-small.bin", true),
    ];
    assert_eq!(available_models(&entries), vec!["base.en", "small", "tiny.en"]);
}

#[test]
fn available_models_keeps_listed_bundled_model_once() {
    let entries = vec![entry("ggml-tiny.en.bin", true), entry("ggml-base.bin", true)];
    assert_eq!(available_models(&entries), vec!["tiny.en", "base"]);
    assert_eq!(available_models(&Vec::new()), vec!["tiny.en"]);
}

#[test]
fn available_models_strips_every_occurrence() {
    let entries = vec![entry("ggml-a.bin.bin", true), entry("ggml-ggml-b.bin", true)];
    assert_eq!(available_models(&entries), vec!["a", "b", "tiny.en"]);
}

#[test]
fn stored_model_is_listed_by_its_name() {
    for name in ["tiny", "base.en", "large-v3", "q5_0"] {
        let entries = vec![entry(&model_file_name(name), true)];
        assert_eq!(available_models(&entries)[0], name);
    }
}

#[test]
fn model_location_order() {
    assert_eq!(locate_model(true, true, true), ModelLocation::Downloaded);
    assert_eq!(locate_model(false, true, true), ModelLocation::Bundled);
    assert_eq!(locate_model(false, false, true), ModelLocation::DevTree);
    assert_eq!(locate_model(false, false, false), ModelLocation::Downloaded);
}

#[test]
fn blank_text_is_left_unchanged() {
    let c = AppConfig::default();
    match plan_cleanup("  \n ", &c) {
        Ok(CleanupStep::Unchanged(t)) => assert_eq!(t, "  \n "),
        _ => panic!("expected the text back"),
    }
}

#[test]
fn missing_key_is_an_error() {
    let mut c = AppConfig::default();
    c.openrouter_api_key = "   ".to_string();
    match plan_cleanup("hello", &c) {
        Err(e) => {
            assert!(matches!(e, GrammarError::MissingApiKey));
            assert_eq!(e.message(), "OpenRouter API key is missing");
        }
        _ => panic!("expected an error"),
    }
}

#[test]
fn cleanup_request_fields() {
    let mut c = AppConfig::default();
    c.openrouter_api_key = " sk-1 ".to_string();
    c.openrouter_model = "m/x".to_string();
    match plan_cleanup(" i has a apple ", &c) {
        Ok(CleanupStep::Send(req)) => {
            assert_eq!(req.url, "https://openrouter.ai/api/v1/chat/completions");
            assert_eq!(req.authorization, "Bearer  sk-1 ");
            assert_eq!(req.referer, "http://localhost:1420");
            assert_eq!(req.title, "Voiceflow");
            assert_eq!(req.model, "m/x");
            assert!(req.system_prompt.starts_with("You are an AI assistant."));
            assert_eq!(req.user_text, " i has a apple ");
        }
        _ => panic!("expected a request"),
    }
}

#[test]
fn reply_with_content_is_trimmed() {
    let body = r#"{"choices":[{"message":{"role":"assistant","content":"  I have an apple. \n"}}]}"#;
    assert_eq!(cleanup_from_reply(true, body).unwrap(), "I have an apple.");
}

#[test]
fn reply_errors() {
    match cleanup_from_reply(false, "quota exceeded") {
        Err(e) => {
            assert!(matches!(e, GrammarError::Api(_)));
            assert_eq!(e.message(), "OpenRouter API Error: quota exceeded");
        }
        _ => panic!("expected an error"),
    }
    match cleanup_from_reply(true, "not json") {
        Err(e) => assert!(matches!(e, GrammarError::InvalidReply)),
        _ => panic!("expected an error"),
    }
    for body in [
        r#"{"choices":[]}"#,
        r#"{"choices":[{"message":{"content":42}}]}"#,
        r#"{"error":"x"}"#,
        r#"[1,2]"#,
    ] {
        match cleanup_from_reply(true, body) {
            Err(e) => {
                assert!(matches!(e, GrammarError::MissingContent));
                assert_eq!(e.message(), "Failed to parse OpenRouter response");
            }
            _ => panic!("expected an error"),
        }
    }
}

#[test]
fn content_outcomes() {
    assert_eq!(cleanup_from_content(Some(Some(" ok ".to_string()))).unwrap(), "ok");
    assert!(matches!(cleanup_from_content(Some(None)), Err(GrammarError::MissingContent)));
    assert!(matches!(cleanup_from_content(None), Err(GrammarError::InvalidReply)));
}

#[test]
fn llama_prompt_frames_the_input() {
    let p = llama_prompt("i has cat");
    assert!(p.starts_with("<|im_start|>system\nYou are a grammar correction engine.\n"));
    assert!(p.ends_with("<|im_start|>user\ni has cat\n<|im_end|>\n<|im_start|>assistant\n"));
    assert_eq!(llama_reply_text("  I have a cat.\n"), "I have a cat.");
}

#[test]
fn delivery_by_output_method() {
    let mut c = AppConfig::default();
    assert_eq!(delivery_for(&c), Delivery::Keyboard { delay_ms: 20 });
    c.output_method = "clipboard".to_string();
    assert_eq!(delivery_for(&c), Delivery::Clipboard);
    c.output_method = "other".to_string();
    c.typing_speed = 0;
    assert_eq!(delivery_for(&c), Delivery::Keyboard { delay_ms: 0 });
}

#[test]
fn failed_cleanup_falls_back_to_raw_text() {
    assert_eq!(text_to_deliver("raw", None), "raw");
    assert_eq!(text_to_deliver("raw", Some("clean".to_string())), "clean");
}

#[test]
fn chunks_of_fifty_characters() {
    let text: String = "é".repeat(120);
    let chunks = text_chunks(&text);
    assert_eq!(chunks.len(), 3);
    assert_eq!(chunks[0].chars().count(), 50);
    assert_eq!(chunks[2].chars().count(), 20);
    assert_eq!(chunks.concat(), text);
    assert!(text_chunks("").is_empty());
    assert_eq!(text_chunks(&"a".repeat(50)).len(), 1);
}

#[test]
fn typing_plan_pauses() {
    let p = typing_plan("hello", 20);
    assert_eq!(p.chunks, vec!["hello"]);
    assert_eq!(p.pause_after_chunk_ms, Some(20));
    assert_eq!(typing_plan("hello", 0).pause_after_chunk_ms, None);
}

#[test]
fn start_stop_cycle() {
    let mut rec = false;
    assert_eq!(begin_recording(&mut rec).unwrap(), "recording_started");
    assert!(rec);
    assert_eq!(begin_recording(&mut rec).unwrap_err(), "Already recording");
    assert!(rec);
    assert!(end_recording(&mut rec).is_ok());
    assert!(!rec);
    assert_eq!(end_recording(&mut rec).unwrap_err(), "Not recording");
    assert!(!rec);
}

#[test]
fn hotkey_toggles() {
    assert_eq!(hotkey_action(true), HotkeyAction::StopAndTranscribe);
    assert_eq!(hotkey_action(false), HotkeyAction::Start);
}

#[test]
fn polling_decisions() {
    assert_eq!(poll_recording(true, 10, 20), PollOutcome::Continue);
    assert_eq!(poll_recording(false, 10, 20), PollOutcome::Stopped);
    assert_eq!(poll_recording(true, 20, 20), PollOutcome::TimedOut);
    assert_eq!(poll_recording(false, 30, 20), PollOutcome::TimedOut);
}

#[test]
fn wav_format_is_16_bit_integer() {
    assert_eq!(
        recording_wav_format(2, 48000),
        WavFormat { channels: 2, sample_rate: 48000, bits_per_sample: 16, integer_samples: true }
    );
}

#[test]
fn tray_menu_and_click() {
    assert_eq!(menu_action("show"), WindowAction::ShowAndFocus);
    assert_eq!(menu_action("hide"), WindowAction::Hide);
    assert_eq!(menu_action("quit"), WindowAction::Quit);
    assert_eq!(menu_action("other"), WindowAction::Ignore);
    assert_eq!(tray_click_action(true), WindowAction::Hide);
    assert_eq!(tray_click_action(false), WindowAction::ShowAndFocus);
}

#[test]
fn output_plan_follows_settings() {
    let mut c = AppConfig::default();
    assert_eq!(
        output_plan(&c),
        OutputPlan { clean_up_grammar: false, delivery: Delivery::Keyboard { delay_ms: 20 } }
    );
    c.grammar_enabled = true;
    c.output_method = "clipboard".to_string();
    assert_eq!(output_plan(&c), OutputPlan { clean_up_grammar: true, delivery: Delivery::Clipboard });
}

#[test]
fn download_steps() {
    assert_eq!(download_after_status(true), DownloadAction::Continue);
    assert_eq!(download_after_status(false), DownloadAction::Abort);
    assert_eq!(download_after_read(None), DownloadAction::Abort);
    assert_eq!(download_after_read(Some(0)), DownloadAction::Complete);
    assert_eq!(download_after_read(Some(32768)), DownloadAction::WriteChunk(32768));
}

#[test]
fn start_is_refused_until_an_accepted_stop() {
    let mut rec = false;
    assert!(begin_recording(&mut rec).is_ok());
    assert_eq!(begin_recording(&mut rec).unwrap_err(), "Already recording");
    assert_eq!(begin_recording(&mut rec).unwrap_err(), "Already recording");
    assert!(end_recording(&mut rec).is_ok());
    assert_eq!(end_recording(&mut rec).unwrap_err(), "Not recording");
    assert!(begin_recording(&mut rec).is_ok());
    assert!(rec);
}
