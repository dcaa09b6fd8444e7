use std::collections::HashMap;
use traitbot::ai::{
    after_ai_attempt, answer_messages, ask_ai, finish_ask_ai, free_models, AiAttemptAction,
    ChatReply, AI_BEHAVIOUR,
};
use traitbot::memory::ChannelHistory;

fn expected_system_prompt(history: &str) -> String {
    let behaviour = "You are TraitBot, a funny and smart AI assistant for a Discord programming server. 
                    Keep answers concise and beginner friendly."
        .to_string();
    format!(
        "
                    {}

                    Previous questions and answer
                    {}
                    ",
        behaviour, history
    )
}

#[test]
fn missing_api_key_is_refused() {
    let mut h = ChannelHistory::new();
    match ask_ai(&mut h, "hello", "m", 1, None) {
        Err(e) => assert_eq!(e, "Missing api key"),
        Ok(_) => panic!("expected an error"),
    }
}

#[test]
fn empty_question_is_refused() {
    let mut h = ChannelHistory::new();
    match ask_ai(&mut h, "   ", "m", 1, Some("k")) {
        Err(e) => assert_eq!(e, "Question cannot be empty"),
        Ok(_) => panic!("expected an error"),
    }
}

#[test]
fn request_carries_history_and_trimmed_question() {
    let mut h = ChannelHistory::new();
    h.record_exchange(1, "a", "b");
    let req = ask_ai(&mut h, " what is a trait? ", "qwen/qwen3-coder:free", 1, Some("SECRET")).ok().unwrap();
    assert_eq!(req.model, "qwen/qwen3-coder:free");
    assert_eq!(req.authorization, "Bearer SECRET");
    assert_eq!(req.user_message, "what is a trait?");
    assert_eq!(req.system_prompt, expected_system_prompt("User: a\nAI: b"));
    assert!(AI_BEHAVIOUR.starts_with("You are TraitBot"));
}

#[test]
fn asking_trims_history_even_on_error() {
    let mut m = HashMap::new();
    m.insert(1u64, (0..11).map(|i| i.to_string()).collect::<Vec<_>>());
    let mut h = ChannelHistory::from_map(m);
    assert!(ask_ai(&mut h, "q", "m", 1, None).is_err());
    assert_eq!(h.history(1).len(), 10);
    assert_eq!(h.history(1)[0], "1");
}

#[test]
fn reply_errors() {
    let mut h = ChannelHistory::new();
    assert_eq!(
        finish_ask_ai(&mut h, "q", 1, ChatReply::SendFailed("timeout".to_string())),
        Err("Failed to send question: timeout".to_string())
    );
    assert_eq!(
        finish_ask_ai(
            &mut h,
            "q",
            1,
            ChatReply::HttpError { status: "429 Too Many Requests".to_string(), body: Some("slow".to_string()) }
        ),
        Err("There was an error calling the AI (429 Too Many Requests): slow".to_string())
    );
    assert_eq!(
        finish_ask_ai(&mut h, "q", 1, ChatReply::HttpError { status: "500 Internal Server Error".to_string(), body: None }),
        Err("There was an error calling the AI (500 Internal Server Error): Unknown error".to_string())
    );
    assert_eq!(
        finish_ask_ai(&mut h, "q", 1, ChatReply::BadBody("eof".to_string())),
        Err("Failed to parsed response: eof".to_string())
    );
    assert_eq!(
        finish_ask_ai(&mut h, "q", 1, ChatReply::Choices(vec![])),
        Err("AI returned no response".to_string())
    );
    assert!(h.history(1).is_empty());
}

#[test]
fn answer_is_trimmed_and_recorded() {
    let mut h = ChannelHistory::new();
    let r = finish_ask_ai(&mut h, " hi", 7, ChatReply::Choices(vec!["  Hello!\n".to_string(), "x".to_string()]));
    assert_eq!(r, Ok("Hello!".to_string()));
    assert_eq!(h.history(7), vec!["User:  hi", "AI: Hello!"]);
}

#[test]
fn empty_answer_is_recorded_but_refused() {
    let mut h = ChannelHistory::new();
    let r = finish_ask_ai(&mut h, "q", 7, ChatReply::Choices(vec![" \n".to_string()]));
    assert_eq!(r, Err("AI returned an empty message".to_string()));
    assert_eq!(h.history(7), vec!["User: q", "AI: "]);
}

#[test]
fn short_answer_is_one_message() {
    let a = "x".repeat(1900);
    assert_eq!(answer_messages(&a), vec![a.clone()]);
}

#[test]
fn long_answer_is_cut_in_whole_pieces() {
    let a = format!("{}{}{}", "a".repeat(1900), "b".repeat(1900), "c".repeat(100));
    assert_eq!(answer_messages(&a), vec!["a".repeat(1900), "b".repeat(1900)]);
}

#[test]
fn pieces_cutting_a_character_are_lossy() {
    let a = format!("{}é{}", "a".repeat(1899), "b".repeat(1900));
    let msgs = answer_messages(&a);
    assert_eq!(msgs.len(), 2);
    assert_eq!(msgs[0], format!("{}\u{FFFD}", "a".repeat(1899)));
    assert!(msgs[1].starts_with('\u{FFFD}'));
}

#[test]
fn attempt_actions() {
    match after_ai_attempt(&Ok("hi".to_string())) {
        AiAttemptAction::Deliver(m) => assert_eq!(m, vec!["hi".to_string()]),
        _ => panic!("expected delivery"),
    }
    assert!(matches!(
        after_ai_attempt(&Err("There was an error calling the AI (429 Too Many Requests): x".to_string())),
        AiAttemptAction::TryNextModel
    ));
    assert!(matches!(after_ai_attempt(&Err("Missing api key".to_string())), AiAttemptAction::ReportAndTryNext));
}

#[test]
fn models_in_order() {
    let m = free_models();
    assert_eq!(m.len(), 7);
    assert_eq!(m[0], "deepseek/deepseek-v4-flash:free");
    assert_eq!(m[6], "nousresearch/hermes-3-llama-3.1-405b:free");
}
