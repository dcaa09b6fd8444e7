use traitbot::moderation::{
    ai_moderation, cleaned_message_text, is_retryable_error, moderate_message,
    moderation_ends_handling, moderation_request, removal_notice, MODERATION_PROMPT, ModerationDecision, ModerationReply, ModerationStep,
};

#[test]
fn command_arguments_are_moderated() {
    assert_eq!(cleaned_message_text("/ai   tell  me\na joke"), "tell me a joke");
    assert_eq!(cleaned_message_text("hello  there "), "hello  there ");
    assert_eq!(cleaned_message_text("/ciao"), "");
}

#[test]
fn bot_messages_are_safe() {
    assert!(matches!(
        moderate_message(true, "anything bad"),
        ModerationStep::Decided(ModerationDecision::Safe)
    ));
}

#[test]
fn empty_text_is_safe() {
    assert!(matches!(moderate_message(false, "/ciao"), ModerationStep::Decided(ModerationDecision::Safe)));
    assert!(matches!(moderate_message(false, "  \n"), ModerationStep::Decided(ModerationDecision::Safe)));
}

#[test]
fn other_text_goes_to_a_model() {
    match moderate_message(false, "/ai what is rust") {
        ModerationStep::AskModel(t) => assert_eq!(t, "what is rust"),
        _ => panic!("expected a model to be asked"),
    }
    match moderate_message(false, " hi ") {
        ModerationStep::AskModel(t) => assert_eq!(t, " hi "),
        _ => panic!("expected a model to be asked"),
    }
}

#[test]
fn delete_answer_deletes() {
    let r = ModerationReply::Choices(vec![" delete\n".to_string(), "SAFE".to_string()]);
    assert_eq!(ai_moderation(&r), ModerationDecision::Delete);
    let r = ModerationReply::Choices(vec!["DELETE".to_string()]);
    assert_eq!(ai_moderation(&r), ModerationDecision::Delete);
}

#[test]
fn other_answers_are_safe() {
    assert_eq!(ai_moderation(&ModerationReply::Choices(vec!["SAFE".to_string()])), ModerationDecision::Safe);
    assert_eq!(ai_moderation(&ModerationReply::Choices(vec!["DELETE it".to_string()])), ModerationDecision::Safe);
    assert_eq!(ai_moderation(&ModerationReply::Choices(vec![])), ModerationDecision::Safe);
    assert_eq!(ai_moderation(&ModerationReply::NoApiKey), ModerationDecision::Safe);
    assert_eq!(ai_moderation(&ModerationReply::SendFailed), ModerationDecision::Safe);
    assert_eq!(ai_moderation(&ModerationReply::BadBody), ModerationDecision::Safe);
}

#[test]
fn rate_limit_errors_retry() {
    let r = ModerationReply::HttpError(Some("{\"error\":{\"code\":429}}".to_string()));
    assert_eq!(ai_moderation(&r), ModerationDecision::RetryLater);
    let r = ModerationReply::HttpError(Some("code 402: credits".to_string()));
    assert_eq!(ai_moderation(&r), ModerationDecision::RetryLater);
    let r = ModerationReply::HttpError(Some("500".to_string()));
    assert_eq!(ai_moderation(&r), ModerationDecision::Safe);
    assert_eq!(ai_moderation(&ModerationReply::HttpError(None)), ModerationDecision::Safe);
    assert!(is_retryable_error("429 Too Many Requests"));
    assert!(!is_retryable_error("404 Not Found"));
}

#[test]
fn only_retry_continues_handling() {
    assert!(moderation_ends_handling(ModerationDecision::Safe));
    assert!(moderation_ends_handling(ModerationDecision::Delete));
    assert!(!moderation_ends_handling(ModerationDecision::RetryLater));
}

#[test]
fn removal_notice_mentions_author() {
    assert_eq!(removal_notice(42), "<@42> your message has been removed");
}

#[test]
fn moderation_request_carries_prompt_and_text() {
    let r = moderation_request("some text", "qwen/qwen3-coder:free", "KEY");
    assert_eq!(r.model, "qwen/qwen3-coder:free");
    assert_eq!(r.authorization, "Bearer KEY");
    assert_eq!(r.system_prompt, MODERATION_PROMPT);
    assert!(r.system_prompt.contains("Respond ONLY with:"));
    assert_eq!(r.user_message, "some text");
}
