use flint::commands::{
    complete_chat, get_chat, install_outcome, install_progress, local_base_url, new_chat, openai_base_url,
    poll_chat_output, push_chat_event, recommendation_or_default, recommended_desc, recommended_installed,
    recommended_model_tag, send_chat, start_install, ChatState,
};
use flint::error::AppError;
use flint::types::{ChatEvent, ChatMessage, InstallState, ModelInfo, ProbeResult, PullProgress, Tier};

fn probe(tier: Option<Tier>) -> ProbeResult {
    ProbeResult { chip: "Apple M4".into(), ram_tenths_gb: 160, tier, supported: true, unsupported_reason: None }
}

fn model(name: &str) -> ModelInfo {
    ModelInfo { name: name.into(), size_bytes: 1, modified_at: String::new() }
}

#[test]
fn the_recommended_model_follows_the_tier() {
    let p = probe(Some(Tier::Gb16));
    assert_eq!(recommended_model_tag(Some(&p)).as_deref(), Some("qwen3:8b"));
    assert_eq!(recommended_desc(Some(&p)).unwrap().tag, "qwen3:8b");
    assert_eq!(recommended_model_tag(None), None);
    assert_eq!(recommended_desc(None).unwrap_err(), AppError::Engine("no model for this machine".into()));
    assert_eq!(
        recommended_desc(Some(&probe(None))).unwrap_err(),
        AppError::Engine("no model for this machine".into())
    );
}

#[test]
fn recommended_installed_looks_for_the_tag() {
    let p = probe(Some(Tier::Gb16));
    assert!(recommended_installed(Some(&p), &[model("llama3:8b"), model("qwen3:8b")]));
    assert!(!recommended_installed(Some(&p), &[model("qwen3:4b")]));
    assert!(!recommended_installed(None, &[model("qwen3:8b")]));
}

#[test]
fn recommendation_view_without_a_tier_has_no_model() {
    let p = probe(None);
    let r = recommendation_or_default(&p, &["qwen3:8b".to_string()]);
    assert!(r.model.is_none());
    assert!(!r.already_installed);
    assert_eq!(r.as_of, "2026-08");
    let r = recommendation_or_default(&probe(Some(Tier::Gb8)), &[]);
    assert_eq!(r.model.unwrap().tag, "qwen3:4b");
}

#[test]
fn local_urls() {
    assert_eq!(openai_base_url(11434), "http://127.0.0.1:11434/v1");
    assert_eq!(local_base_url(4096), "http://127.0.0.1:4096");
    assert_eq!(local_base_url(0), "http://127.0.0.1:0");
}

#[test]
fn install_lifecycle() {
    let mut s = InstallState::Idle;
    assert_eq!(start_install(&mut s, "nope:1b").unwrap_err(), AppError::Engine("unknown model: nope:1b".into()));
    assert_eq!(s, InstallState::Idle);
    let d = start_install(&mut s, "qwen3:14b").unwrap();
    assert_eq!(d.tag, "qwen3:14b");
    let starting = PullProgress { status: "starting".into(), completed: 0, total: 0, percent_tenths: 0 };
    assert_eq!(s, InstallState::Running { model: "qwen3:14b".into(), progress: starting });
    let p = PullProgress { status: "downloading".into(), completed: 1, total: 4, percent_tenths: 250 };
    install_progress(&mut s, &"qwen3:14b".to_string(), p.clone(), false);
    assert_eq!(s, InstallState::Running { model: "qwen3:14b".into(), progress: p.clone() });
    let later = PullProgress { status: "downloading".into(), completed: 2, total: 4, percent_tenths: 500 };
    install_progress(&mut s, &"qwen3:14b".to_string(), later, true);
    assert_eq!(s, InstallState::Running { model: "qwen3:14b".into(), progress: p });
    assert_eq!(install_outcome("m".into(), true, Ok(())), InstallState::Cancelled { model: "m".into() });
    assert_eq!(install_outcome("m".into(), false, Ok(())), InstallState::Done { model: "m".into() });
    assert_eq!(
        install_outcome("m".into(), false, Err(AppError::Engine("disk full".into()))),
        InstallState::Failed { model: "m".into(), error: "engine error: disk full".into() }
    );
}

#[test]
fn chat_turn_lifecycle() {
    let mut c = ChatState::new();
    assert!(c.needs_history());
    let stored = vec![ChatMessage { role: "user".into(), content: "earlier".into(), ts: 1 }];
    let view = get_chat(&mut c, stored.clone(), Some("qwen3:8b".into()));
    assert_eq!(view.messages, stored);
    assert_eq!(view.model.as_deref(), Some("qwen3:8b"));
    assert!(!c.needs_history());
    // A second view does not reload.
    let view = get_chat(&mut c, Vec::new(), None);
    assert_eq!(view.messages.len(), 1);

    let sent = send_chat(&mut c, "hi".into(), 10).unwrap();
    assert_eq!(sent, ChatMessage { role: "user".into(), content: "hi".into(), ts: 10 });
    assert!(c.streaming);
    assert_eq!(
        send_chat(&mut c, "again".into(), 11).unwrap_err(),
        AppError::Engine("a reply is already streaming — wait or cancel".into())
    );
    assert_eq!(new_chat(&mut c).unwrap_err(), AppError::Engine("wait for the current reply before starting a new chat".into()));

    push_chat_event(&mut c, ChatEvent::Delta { content: "He".into() }, false);
    push_chat_event(&mut c, ChatEvent::Delta { content: "x".into() }, true);
    let saved = complete_chat(&mut c, Ok("Hello".into()), 20).unwrap();
    assert_eq!(saved, ChatMessage { role: "assistant".into(), content: "Hello".into(), ts: 20 });
    assert!(!c.streaming);
    assert_eq!(c.messages.len(), 3);
    assert_eq!(
        poll_chat_output(&mut c),
        vec![ChatEvent::Delta { content: "He".into() }, ChatEvent::Done { full: "Hello".into() }]
    );
    assert!(poll_chat_output(&mut c).is_empty());

    send_chat(&mut c, "q".into(), 30).unwrap();
    assert_eq!(complete_chat(&mut c, Ok(String::new()), 31), None);
    assert_eq!(c.messages.len(), 4);
    send_chat(&mut c, "q2".into(), 40).unwrap();
    assert_eq!(complete_chat(&mut c, Err(AppError::Engine("model not found".into())), 41), None);
    assert_eq!(
        poll_chat_output(&mut c),
        vec![ChatEvent::Done { full: String::new() }, ChatEvent::Error { message: "engine error: model not found".into() }]
    );
    new_chat(&mut c).unwrap();
    assert!(c.messages.is_empty());
}
