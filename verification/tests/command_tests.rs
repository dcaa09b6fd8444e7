use traitbot::call::{handle_voice_join, still_waiting, support_notice, SUPPORT_VOICE_CHANNEL_ID};
use traitbot::channels::{send_channel_intro, RUST_HELP_DESCRIPTION};
use traitbot::commands::{
    ciao_reply, command_of, help_channel_for, help_channel_reply, is_unknown_command,
    unknown_command_notice, welcome_message, BotState, Command, CPP_CHANNEL_ID, CSHARP_CHANNEL_ID,
    OTHER_HELP_CHANNEL_ID, OWNER_ID, RUST_CHANNEL_ID,
};
use traitbot::ticket::{create_ticket, ticket_created_message, ticket_error_message};

#[test]
fn unknown_commands() {
    assert!(is_unknown_command("/foo"));
    assert!(is_unknown_command("/aiuto rust"));
    assert!(!is_unknown_command("/CIAO"));
    assert!(!is_unknown_command("/ai come stai"));
    assert!(!is_unknown_command("ciao"));
    assert!(!is_unknown_command("/ticket"));
}

#[test]
fn commands_found() {
    assert!(matches!(command_of("/ciao", 1, "general"), Command::Ciao));
    assert!(matches!(command_of("/CIAO", 1, "general"), Command::NoCommand));
    assert!(matches!(command_of("/aiuto", 1, "general"), Command::Help));
    assert!(matches!(command_of("/ticket", 1, "general"), Command::Ticket));
    match command_of("/ai spiegami /ai", 1, "general") {
        Command::Ai(q) => assert_eq!(q, " spiegami "),
        _ => panic!("expected a question"),
    }
    assert!(matches!(command_of("/ai", 1, "general"), Command::NoCommand));
}

#[test]
fn closing_needs_owner_in_ticket_channel() {
    assert!(matches!(command_of("/die", OWNER_ID, "ticket-anna"), Command::CloseTicket));
    assert!(matches!(command_of("/die", 5, "ticket-anna"), Command::NoCommand));
    assert!(matches!(command_of("/die", OWNER_ID, "general"), Command::NoCommand));
}

#[test]
fn help_for_a_language() {
    assert!(matches!(command_of("/aiuto Rust", 1, "general"), Command::HelpLanguage(id) if id == RUST_CHANNEL_ID));
    assert!(matches!(command_of("/aiuto rust", 1, "rust-help"), Command::NoCommand));
    assert!(matches!(command_of("/aiuto ", 1, "general"), Command::NoCommand));
    assert_eq!(help_channel_for("C++"), CPP_CHANNEL_ID);
    assert_eq!(help_channel_for("c#"), CSHARP_CHANNEL_ID);
    assert_eq!(help_channel_for("cobol"), OTHER_HELP_CHANNEL_ID);
    assert_eq!(help_channel_reply(7), "chiedi aiuto dentro il canale <#7>");
}

#[test]
fn texts() {
    assert_eq!(ciao_reply("anna"), "ciao anna");
    assert_eq!(unknown_command_notice("anna", "/x"), "Ciao anna il commando /x non esiste ancora");
    let expected = format!(
        "Benvenuto {}! \n\n
            Se hai bisogno di aiuto su un linguaggio \n
            usa `/aiuto [linguaggio]`
            ",
        "anna"
    );
    assert_eq!(welcome_message("anna"), expected);
}

#[test]
fn bot_state_counts() {
    let mut s = BotState::new(5);
    s.record_message(9);
    s.record_message(11);
    assert_eq!(s.message_count, 2);
    assert_eq!(s.start_time, 11);
}

#[test]
fn voice_join_watch() {
    let w = handle_voice_join(None, Some(SUPPORT_VOICE_CHANNEL_ID), Some(3), 4).unwrap();
    assert_eq!((w.guild_id, w.voice_channel_id, w.user_id), (3, SUPPORT_VOICE_CHANNEL_ID, 4));
    assert!(handle_voice_join(Some(1), Some(SUPPORT_VOICE_CHANNEL_ID), Some(3), 4).is_none());
    assert!(handle_voice_join(None, Some(2), Some(3), 4).is_none());
    assert!(handle_voice_join(None, Some(SUPPORT_VOICE_CHANNEL_ID), None, 4).is_none());
    assert!(still_waiting(&w, Some(SUPPORT_VOICE_CHANNEL_ID)));
    assert!(!still_waiting(&w, Some(1)));
    assert!(!still_waiting(&w, None));
    assert_eq!(support_notice(), "<@1338291003085422594> someone is waiting in the support call");
}

#[test]
fn rust_help_intro() {
    let i = send_channel_intro(false, "how do I", "rust-help", 5, 6).unwrap();
    assert_eq!(i.title, "Rust help");
    assert_eq!(i.user_field, "@<5>");
    assert_eq!(i.channel_field, "@<6>");
    assert_eq!(i.color, 0xf74c00);
    assert_eq!(i.footer, "TraitBot Rust Assistance");
    assert_eq!(
        RUST_HELP_DESCRIPTION,
        "Ask your Rust questions here \n\n\n            show your code \nuse code blocks"
    );
    assert!(send_channel_intro(true, "x", "rust-help", 5, 6).is_none());
    assert!(send_channel_intro(false, "!cmd", "rust-help", 5, 6).is_none());
    assert!(send_channel_intro(false, "x", "general", 5, 6).is_none());
}

#[test]
fn tickets() {
    let p = create_ticket(Some(1), 2, "Anna Ü").unwrap();
    assert_eq!(p.channel_name, "ticket-anna ü");
    assert_eq!(p.granted_members, vec![2, traitbot::ticket::TICKET_STAFF_ID]);
    assert_eq!(p.category_id, traitbot::ticket::TICKET_CATEGORY_ID);
    assert!(create_ticket(None, 2, "Anna").is_none());
    assert_eq!(ticket_created_message(9), "Ticket created: <#9>");
    assert_eq!(ticket_error_message("ticket-x"), "error creating ticket-x try again");
}

#[test]
fn each_message_triggers_at_most_one_command() {
    for content in ["/ciao", "/die", "/aiuto", "/aiuto rust", "/ticket", "/ai x", "hello", "/ai"] {
        let c = command_of(content, OWNER_ID, "ticket-x");
        let n = [
            content == "/ciao",
            content == "/die",
            content == "/aiuto",
            content.starts_with("/aiuto ") && content.split_whitespace().nth(1).is_some(),
            content == "/ticket",
            content.starts_with("/ai "),
        ]
        .iter()
        .filter(|b| **b)
        .count();
        assert!(n <= 1);
        assert_eq!(n == 1, !matches!(c, Command::NoCommand), "{}", content);
    }
}
