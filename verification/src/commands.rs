//! Recognising the bot's commands in a message, and the texts it answers
//! them with.

use vstd::prelude::*;

use crate::text::{
    occurs_at, contains, decimal, decimal_string, lowercase, replace_all, replace_str, split_whitespace,
    split_words, starts_with, str_contains, str_eq, str_starts_with, to_lowercase, views,
};

verus! {

/// The member who may close ticket channels.
pub const OWNER_ID: u64 = 1338291003085422594;

/// The channel new members are welcomed in.
pub const WELCOME_CHANNEL_ID: u64 = 1376958993582391599;

/// The colour of the bot's embeds.
pub const EMBED_COLOR: u32 = 0x0099FF;

/// How long the notice about an unknown command stays before the command is
/// deleted, in seconds.
pub const UNKNOWN_COMMAND_DELAY_SECS: u64 = 10;

/// The title of the notice about an unknown command.
pub const UNKNOWN_COMMAND_TITLE: &'static str = "Info";

/// The field value of the notice about an unknown command.
pub const AVAILABLE_COMMANDS: &'static str = "i commandi disponibili sono !ciao, !aiuto, !ticket";

/// The title of the help embed.
pub const HELP_TITLE: &'static str = "Help";

/// The field name of the help embed.
pub const HELP_FIELD_NAME: &'static str = "aiuto in un linguaggio";

/// The field value of the help embed.
pub const HELP_FIELD_VALUE: &'static str = "!aiuto [nome linguaggio]";

/// The activity the bot shows.
pub const ACTIVITY: &'static str = "with discord";

/// Help channel for Rust.
pub const RUST_CHANNEL_ID: u64 = 1378299379840188466;
/// Help channel for Python.
pub const PYTHON_CHANNEL_ID: u64 = 1378298909914304685;
/// Help channel for Java.
pub const JAVA_CHANNEL_ID: u64 = 1378299259933298739;
/// Help channel for JavaScript.
pub const JAVASCRIPT_CHANNEL_ID: u64 = 1378299337398030437;
/// Help channel for PHP.
pub const PHP_CHANNEL_ID: u64 = 1378299468474093628;
/// Help channel for C++.
pub const CPP_CHANNEL_ID: u64 = 1378299138508324885;
/// Help channel for C#.
pub const CSHARP_CHANNEL_ID: u64 = 1378299599566929991;
/// Help channel for every other language.
pub const OTHER_HELP_CHANNEL_ID: u64 = 1378300028296237157;

/// The commands the bot knows, in lower case.
pub open spec fn is_known_command(s: Seq<char>) -> bool {
    ||| s == "/ciao"@
    ||| s == "/aiuto"@
    ||| s == "/die"@
    ||| s == "/ticket"@
    ||| s == "/ai"@
}

/// A message that looks like a command the bot does not know: it starts with
/// `/`, is none of the known commands in any case, and is no question to the AI.
pub open spec fn unknown_command(content: Seq<char>) -> bool {
    &&& starts_with(content, "/"@)
    &&& !is_known_command(lowercase(content))
    &&& !starts_with(content, "/ai "@)
}

/// The help channel for a language name in lower case.
pub open spec fn help_channel_id(lang: Seq<char>) -> u64 {
    if lang == "rust"@ {
        RUST_CHANNEL_ID
    } else if lang == "python"@ {
        PYTHON_CHANNEL_ID
    } else if lang == "java"@ {
        JAVA_CHANNEL_ID
    } else if lang == "javascript"@ {
        JAVASCRIPT_CHANNEL_ID
    } else if lang == "php"@ {
        PHP_CHANNEL_ID
    } else if lang == "cpp"@ || lang == "c++"@ {
        CPP_CHANNEL_ID
    } else if lang == "csharp"@ || lang == "c#"@ {
        CSHARP_CHANNEL_ID
    } else {
        OTHER_HELP_CHANNEL_ID
    }
}

/// `/ciao`: greet the author.
pub open spec fn is_ciao(content: Seq<char>) -> bool {
    content == "/ciao"@
}

/// `/die` by the owner in a ticket channel: close the channel.
pub open spec fn closes_ticket(content: Seq<char>, author_id: u64, channel_name: Seq<char>) -> bool {
    content == "/die"@ && author_id == OWNER_ID && starts_with(channel_name, "ticket-"@)
}

/// `/aiuto`: show the help.
pub open spec fn is_help(content: Seq<char>) -> bool {
    content == "/aiuto"@
}

/// `/aiuto <language>` outside a channel whose name contains the language:
/// the help channel to point to.
pub open spec fn help_language(content: Seq<char>, channel_name: Seq<char>) -> Option<u64> {
    let words = split_whitespace(content);
    if starts_with(content, "/aiuto "@) && words.len() > 1 && !contains(channel_name, words[1]) {
        Some(help_channel_id(lowercase(words[1])))
    } else {
        None
    }
}

/// `/ticket`: open a ticket.
pub open spec fn is_ticket(content: Seq<char>) -> bool {
    content == "/ticket"@
}

/// `/ai <question>`: the question, which is the message with every `/ai` removed.
pub open spec fn ai_question(content: Seq<char>) -> Option<Seq<char>> {
    if starts_with(content, "/ai "@) {
        Some(replace_all(content, "/ai"@, ""@))
    } else {
        None
    }
}

/// A command found in a message.
pub enum Command {
    /// Greet the author.
    Ciao,
    /// Delete the current (ticket) channel.
    CloseTicket,
    /// Show the help embed.
    Help,
    /// Point to this help channel.
    HelpLanguage(u64),
    /// Open a ticket for the author.
    Ticket,
    /// Ask the AI this question.
    Ai(String),
    /// Nothing to do.
    NoCommand,
}

/// Whether `content` looks like a command the bot does not know.
pub fn is_unknown_command(content: &str) -> (b: bool)
    ensures
        b == unknown_command(content@),
{
    if !str_starts_with(content, "/") {
        return false;
    }
    let lower = to_lowercase(content);
    let l = lower.as_str();
    let known = str_eq(l, "/ciao") || str_eq(l, "/aiuto") || str_eq(l, "/die") || str_eq(
        l,
        "/ticket",
    ) || str_eq(l, "/ai");
    !known && !str_starts_with(content, "/ai ")
}

/// The help channel for language `lang`, named in any case.
pub fn help_channel_for(lang: &str) -> (id: u64)
    ensures
        id == help_channel_id(lowercase(lang@)),
{
    let lower = to_lowercase(lang);
    let l = lower.as_str();
    if str_eq(l, "rust") {
        RUST_CHANNEL_ID
    } else if str_eq(l, "python") {
        PYTHON_CHANNEL_ID
    } else if str_eq(l, "java") {
        JAVA_CHANNEL_ID
    } else if str_eq(l, "javascript") {
        JAVASCRIPT_CHANNEL_ID
    } else if str_eq(l, "php") {
        PHP_CHANNEL_ID
    } else if str_eq(l, "cpp") || str_eq(l, "c++") {
        CPP_CHANNEL_ID
    } else if str_eq(l, "csharp") || str_eq(l, "c#") {
        CSHARP_CHANNEL_ID
    } else {
        OTHER_HELP_CHANNEL_ID
    }
}

/// The help channel that `/aiuto <language>` points to from `channel_name`.
pub fn help_language_for(content: &str, channel_name: &str) -> (r: Option<u64>)
    ensures
        r == help_language(content@, channel_name@),
{
    if !str_starts_with(content, "/aiuto ") {
        return None;
    }
    let words = split_words(content);
    proof {
        assert(views(words@).len() == words@.len());
    }
    if words.len() < 2 {
        return None;
    }
    let lang = words[1].as_str();
    assert(lang@ == views(words@)[1]);
    if str_contains(channel_name, lang) {
        return None;
    }
    Some(help_channel_for(lang))
}

/// No message satisfies two of the command conditions at once.
pub proof fn lemma_commands_exclusive(content: Seq<char>, author_id: u64, channel_name: Seq<char>)
    ensures
        is_ciao(content) ==> !closes_ticket(content, author_id, channel_name) && !is_help(content)
            && help_language(content, channel_name) is None && !is_ticket(content) && ai_question(
            content,
        ) is None,
        closes_ticket(content, author_id, channel_name) ==> !is_help(content) && help_language(
            content,
            channel_name,
        ) is None && !is_ticket(content) && ai_question(content) is None,
        is_help(content) ==> help_language(content, channel_name) is None && !is_ticket(content)
            && ai_question(content) is None,
        help_language(content, channel_name) is Some ==> !is_ticket(content) && ai_question(
            content,
        ) is None,
        is_ticket(content) ==> ai_question(content) is None,
{
    reveal_strlit("/ciao");
    reveal_strlit("/die");
    reveal_strlit("/aiuto");
    reveal_strlit("/aiuto ");
    reveal_strlit("/ticket");
    reveal_strlit("/ai ");
    if starts_with(content, "/ai "@) {
        assert(content.subrange(0, 4)[1] == 'a');
        assert(content.subrange(0, 4)[3] == ' ');
        assert(content[1] == 'a' && content[3] == ' ');
    }
    if starts_with(content, "/aiuto "@) {
        assert(content.subrange(0, 7)[1] == 'a');
        assert(content.subrange(0, 7)[3] == 'u');
        assert(content[1] == 'a' && content[3] == 'u' && content.len() >= 7);
    }
}

/// The command in `content`, posted by `author_id` in the channel named
/// `channel_name`.
pub fn command_of(content: &str, author_id: u64, channel_name: &str) -> (c: Command)
    ensures
        c is Ciao <==> is_ciao(content@),
        c is CloseTicket <==> closes_ticket(content@, author_id, channel_name@),
        c is Help <==> is_help(content@),
        c is HelpLanguage <==> help_language(content@, channel_name@) is Some,
        c matches Command::HelpLanguage(id) ==> help_language(content@, channel_name@) == Some(id),
        c is Ticket <==> is_ticket(content@),
        c is Ai <==> ai_question(content@) is Some,
        c matches Command::Ai(q) ==> ai_question(content@) == Some(q@),
{
    proof {
        lemma_commands_exclusive(content@, author_id, channel_name@);
    }
    if str_eq(content, "/ciao") {
        return Command::Ciao;
    }
    if str_eq(content, "/die") && author_id == OWNER_ID && str_starts_with(channel_name, "ticket-") {
        return Command::CloseTicket;
    }
    if str_eq(content, "/aiuto") {
        return Command::Help;
    }
    match help_language_for(content, channel_name) {
        Some(id) => {
            return Command::HelpLanguage(id);
        },
        None => {},
    }
    if str_eq(content, "/ticket") {
        return Command::Ticket;
    }
    if str_starts_with(content, "/ai ") {
        proof {
            reveal_strlit("/ai");
        }
        return Command::Ai(replace_str(content, "/ai", ""));
    }
    Command::NoCommand
}

/// The greeting for `/ciao`.
pub fn ciao_reply(name: &str) -> (r: String)
    ensures
        r@ == "ciao "@ + name@,
{
    let mut r = String::new();
    r.append("ciao ");
    r.append(name);
    r
}

/// The title of the notice about the unknown command `sent` from `sender`.
pub fn unknown_command_notice(sender: &str, sent: &str) -> (r: String)
    ensures
        r@ == "Ciao "@ + sender@ + " il commando "@ + sent@ + " non esiste ancora"@,
{
    let mut r = String::new();
    r.append("Ciao ");
    r.append(sender);
    r.append(" il commando ");
    r.append(sent);
    r.append(" non esiste ancora");
    r
}

/// The answer pointing to help channel `channel_id`.
pub fn help_channel_reply(channel_id: u64) -> (r: String)
    ensures
        r@ == "chiedi aiuto dentro il canale <#"@ + decimal(channel_id as nat) + ">"@,
{
    let mut r = String::new();
    r.append("chiedi aiuto dentro il canale <#");
    let id = decimal_string(channel_id);
    r.append(id.as_str());
    r.append(">");
    r
}

/// The message welcoming the new member `name`.
pub fn welcome_message(name: &str) -> (r: String)
    ensures
        r@ == WELCOME_OPENING@ + name@ + WELCOME_REST@,
{
    let mut r = String::new();
    r.append(WELCOME_OPENING);
    r.append(name);
    r.append(WELCOME_REST);
    r
}

/// The start of the welcome message, before the member's name.
pub const WELCOME_OPENING: &'static str = "Benvenuto ";

/// The rest of the welcome message, after the member's name.
pub const WELCOME_REST: &'static str = "! \n\n
            Se hai bisogno di aiuto su un linguaggio \n
            usa `/aiuto [linguaggio]`
            ";

/// The bot's counters.
pub struct BotState {
    /// Messages handled since the bot became ready.
    pub message_count: u32,
    /// When the last message was handled (or the bot became ready), in
    /// nanoseconds on a monotonic clock.
    pub start_time: u64,
}

impl BotState {
    /// The state when the bot becomes ready at `now`.
    pub fn new(now: u64) -> (s: BotState)
        ensures
            s.message_count == 0,
            s.start_time == now,
    {
        BotState { message_count: 0, start_time: now }
    }

    /// Counts a handled message at `now`.
    pub fn record_message(&mut self, now: u64)
        requires
            old(self).message_count < u32::MAX,
        ensures
            final(self).message_count == old(self).message_count + 1,
            final(self).start_time == now,
    {
        self.message_count = self.message_count + 1;
        self.start_time = now;
    }
}

/// Removing `/ai` from a text without any `/` leaves it unchanged.
proof fn lemma_replace_without_slash(s: Seq<char>)
    requires
        forall|i: int| 0 <= i < s.len() ==> #[trigger] s[i] != '/',
    ensures
        replace_all(s, "/ai"@, ""@) == s,
    decreases s.len(),
{
    reveal_strlit("/ai");
    if s.len() > 0 {
        assert(!occurs_at(s, "/ai"@, 0)) by {
            if occurs_at(s, "/ai"@, 0) {
                assert(s.subrange(0, 3)[0] == '/');
            }
        }
        lemma_replace_without_slash(s.drop_first());
        assert(seq![s[0]] + s.drop_first() =~= s);
    }
}

/// The question of `/ai <text>` keeps every character of the text as typed,
/// case included, when the text holds no `/`: it is a space followed by the
/// text.
pub proof fn lemma_ai_question_keeps_text(rest: Seq<char>)
    requires
        forall|i: int| 0 <= i < rest.len() ==> #[trigger] rest[i] != '/',
    ensures
        ai_question("/ai "@ + rest) == Some(" "@ + rest),
{
    reveal_strlit("/ai ");
    reveal_strlit("/ai");
    reveal_strlit(" ");
    reveal_strlit("");
    let content = "/ai "@ + rest;
    assert(content.subrange(0, 4) =~= "/ai "@);
    assert(content.subrange(0, 3) =~= "/ai"@);
    assert(occurs_at(content, "/ai"@, 0));
    let after = content.skip(3);
    assert(after =~= " "@ + rest);
    assert forall|i: int| 0 <= i < after.len() implies #[trigger] after[i] != '/' by {
        if i > 0 {
            assert(after[i] == rest[i - 1]);
        }
    }
    lemma_replace_without_slash(after);
    assert(""@ + replace_all(after, "/ai"@, ""@) =~= after);
}

/// Every `/ai` is removed from the question and nothing else: for
/// `/ai <x>/ai<y>` with no `/` in `x` or `y`, the question is a space, `x`
/// and `y`, as typed.
pub proof fn lemma_ai_question_removes_each_ai(x: Seq<char>, y: Seq<char>)
    requires
        forall|i: int| 0 <= i < x.len() ==> #[trigger] x[i] != '/',
        forall|i: int| 0 <= i < y.len() ==> #[trigger] y[i] != '/',
    ensures
        ai_question("/ai "@ + x + "/ai"@ + y) == Some(" "@ + x + y),
{
    reveal_strlit("/ai ");
    reveal_strlit("/ai");
    reveal_strlit(" ");
    reveal_strlit("");
    lemma_replace_with_prefix(" "@ + x, y);
    let content = "/ai "@ + x + "/ai"@ + y;
    assert(content.subrange(0, 4) =~= "/ai "@);
    assert(content.subrange(0, 3) =~= "/ai"@);
    assert(content.skip(3) =~= (" "@ + x) + ("/ai"@ + y));
    assert(""@ + replace_all(content.skip(3), "/ai"@, ""@) =~= replace_all(
        content.skip(3),
        "/ai"@,
        ""@,
    ));
}

/// `replace_all` over a text with no `/`, then `/ai`, then a text with no `/`.
proof fn lemma_replace_with_prefix(x: Seq<char>, y: Seq<char>)
    requires
        forall|i: int| 0 <= i < x.len() ==> #[trigger] x[i] != '/',
        forall|i: int| 0 <= i < y.len() ==> #[trigger] y[i] != '/',
    ensures
        replace_all(x + ("/ai"@ + y), "/ai"@, ""@) == x + y,
    decreases x.len(),
{
    reveal_strlit("/ai");
    reveal_strlit("");
    let s = x + ("/ai"@ + y);
    if x.len() == 0 {
        assert(s =~= "/ai"@ + y);
        assert(s.subrange(0, 3) =~= "/ai"@);
        assert(s.skip(3) =~= y);
        lemma_replace_without_slash(y);
        assert(""@ + y =~= x + y);
    } else {
        assert(s[0] == x[0]);
        assert(!occurs_at(s, "/ai"@, 0)) by {
            if occurs_at(s, "/ai"@, 0) {
                assert(s.subrange(0, 3)[0] == '/');
            }
        }
        lemma_replace_with_prefix(x.drop_first(), y);
        assert(s.drop_first() =~= x.drop_first() + ("/ai"@ + y));
        assert(seq![x[0]] + (x.drop_first() + y) =~= x + y);
    }
}

/// Each language the bot knows has its own help channel: a lower-case name
/// is sent to a language's channel exactly when it is that language's name,
/// and every other name to the general help channel.
pub proof fn lemma_help_channels_by_name(lang: Seq<char>)
    ensures
        help_channel_id(lang) == RUST_CHANNEL_ID <==> lang == "rust"@,
        help_channel_id(lang) == PYTHON_CHANNEL_ID <==> lang == "python"@,
        help_channel_id(lang) == JAVA_CHANNEL_ID <==> lang == "java"@,
        help_channel_id(lang) == JAVASCRIPT_CHANNEL_ID <==> lang == "javascript"@,
        help_channel_id(lang) == PHP_CHANNEL_ID <==> lang == "php"@,
        help_channel_id(lang) == CPP_CHANNEL_ID <==> (lang == "cpp"@ || lang == "c++"@),
        help_channel_id(lang) == CSHARP_CHANNEL_ID <==> (lang == "csharp"@ || lang == "c#"@),
        help_channel_id(lang) == OTHER_HELP_CHANNEL_ID <==> !(lang == "rust"@ || lang
            == "python"@ || lang == "java"@ || lang == "javascript"@ || lang == "php"@ || lang
            == "cpp"@ || lang == "c++"@ || lang == "csharp"@ || lang == "c#"@),
{
    reveal_strlit("rust");
    reveal_strlit("python");
    reveal_strlit("java");
    reveal_strlit("javascript");
    reveal_strlit("php");
    reveal_strlit("cpp");
    reveal_strlit("c++");
    reveal_strlit("csharp");
    reveal_strlit("c#");
    assert("rust"@.len() == 4 && "java"@.len() == 4 && "python"@.len() == 6);
    assert("javascript"@.len() == 10 && "php"@.len() == 3 && "cpp"@.len() == 3);
    assert("c++"@.len() == 3 && "csharp"@.len() == 6 && "c#"@.len() == 2);
    assert("rust"@[0] != "java"@[0]);
    assert("python"@[0] != "csharp"@[0]);
    assert("php"@[0] != "cpp"@[0]);
    assert("php"@[0] != "c++"@[0]);
    assert("cpp"@[1] != "c++"@[1]);
    assert("rust"@ != "java"@);
    assert("python"@ != "csharp"@);
    assert("php"@ != "cpp"@);
    assert("php"@ != "c++"@);
    assert("cpp"@ != "c++"@);
}

/// A message that is one of the bot's commands, in any case, is never
/// reported as an unknown command.
pub proof fn lemma_known_commands_not_unknown(content: Seq<char>)
    requires
        lowercase(content) == "/ciao"@ || lowercase(content) == "/aiuto"@ || lowercase(content)
            == "/die"@ || lowercase(content) == "/ticket"@ || lowercase(content) == "/ai"@,
    ensures
        !unknown_command(content),
{
}

/// Only a message that starts with `/` can be an unknown command, and a
/// question to the AI never is.
pub proof fn lemma_unknown_needs_slash(content: Seq<char>)
    ensures
        unknown_command(content) ==> starts_with(content, "/"@),
        starts_with(content, "/ai "@) ==> !unknown_command(content),
{
}

} // verus!
