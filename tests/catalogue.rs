use chunked_download::gastown::parse_molecule_list_line;
use chunked_download::models::{voice_model_info, voice_model_status, ModelFileStatus};
use chunked_download::voice::{get_persona_prompt, system_prompt, AgentPersona};

fn file(name: &str, exists: bool) -> ModelFileStatus {
    ModelFileStatus {
        name: name.into(),
        path: format!("/m/{}", name),
        exists,
        size_bytes: if exists { Some(1) } else { None },
        expected_size_bytes: 1,
    }
}

#[test]
fn voice_model_catalogue() {
    let info = voice_model_info("/m".into());
    assert_eq!(info.files.len(), 5);
    assert_eq!(info.total_size_bytes, 1_655_000_000);
    assert_eq!(info.quantization, "Q4_0");
    assert_eq!(
        info.files[0].url,
        "https://huggingface.co/lfm-audio/LFM2.5-Audio-1.5B-GGUF/resolve/main/LFM2.5-Audio-1.5B-Q4_0.gguf"
    );
    assert_eq!(info.files[4].name, "Server Binary");
    assert_eq!(info.files.iter().map(|f| f.size_bytes).sum::<u64>(), info.total_size_bytes);
}

#[test]
fn voice_model_missing_files() {
    let names = vec!["a.gguf".to_string(), "b.gguf".to_string()];
    let s = voice_model_status("/m".into(), vec![file("a", true), file("b", false)], &names, false);
    assert!(!s.installed);
    assert_eq!(
        s.missing_files,
        vec!["b.gguf".to_string(), "runners/llama-liquid-audio-macos-arm64/llama-liquid-audio-server".to_string()]
    );
    let t = voice_model_status("/m".into(), vec![file("a", true), file("b", true)], &names, true);
    assert!(t.installed);
    assert!(t.missing_files.is_empty());
}

#[test]
fn prompt_follows_mode_and_persona() {
    assert_eq!(system_prompt(Some("asr"), Some(AgentPersona::Mayor), None), "Perform ASR.");
    assert_eq!(system_prompt(Some("tts"), None, None), "Perform TTS.");
    assert_eq!(system_prompt(None, Some(AgentPersona::Crew), None), get_persona_prompt(AgentPersona::Crew, None));
    let default = system_prompt(Some("interleaved"), None, None);
    assert!(default.starts_with("You are the snarky voice assistant for Gas Town"));
    assert!(default.ends_with("- \"How much today?\" - Cost summary"));
}

#[test]
fn molecule_list_lines() {
    let m = parse_molecule_list_line("gt-mol-7 [P1] [molecule] in_progress - Ship the thing - now").unwrap();
    assert_eq!(m.id, "gt-mol-7");
    assert_eq!(m.name, "Ship the thing - now");
    assert_eq!(m.status, "in_progress");
    assert!(m.steps.is_empty());
    assert_eq!(parse_molecule_list_line("x open - y").unwrap().status, "open");
    assert_eq!(parse_molecule_list_line(" - nameless").unwrap().id, "");
    assert_eq!(parse_molecule_list_line("a b c - d").unwrap().status, "unknown");
    assert!(parse_molecule_list_line("no separator here").is_none());
}
