//! Moderation of the messages posted on the server: which text a model is
//! asked about, and what its reply decides.

use vstd::prelude::*;

use crate::ai::ChatRequest;

use crate::text::{
    is_white_space, lemma_split_first_word, lemma_split_single_word, ascii_lower_code, contains, occurs_at, decimal, decimal_string, eq_ignore_ascii_case, join, join_strings, split_whitespace, split_words,
    starts_with, str_contains, str_eq_ignore_ascii_case, str_starts_with, trim, trim_str,
    views,
};

verus! {

/// What a moderation model decided about a message.
#[derive(Debug, Clone, Copy, PartialEq, Eq, Structural)]
pub enum ModerationDecision {
    /// The message may stay.
    Safe,
    /// The message was removed.
    Delete,
    /// The model could not answer now; another one should be asked.
    RetryLater,
}

/// The instructions a moderation model is given before the message.
pub const MODERATION_PROMPT: &'static str = "
                        You are an AI moderation system.
                        
                        Detect:
                        - toxicity
                        - harassment
                        - hate speech
                        - scams
                        - NSFW
                        - spam
                        - threats

                        Respond ONLY with:

                        SAFE 

                        or 

                        DELETE

                        note: the language of the message to moderate can be any
                    ";

/// The words of a message after its first one.
pub open spec fn rest_words(words: Seq<Seq<char>>) -> Seq<Seq<char>> {
    if words.len() == 0 {
        words
    } else {
        words.drop_first()
    }
}

/// The text of a message that is moderated: for a command (a message that
/// starts with `/`), its arguments joined by single spaces; otherwise the
/// whole message.
pub open spec fn cleaned_text(content: Seq<char>) -> Seq<char> {
    if starts_with(content, "/"@) {
        join(rest_words(split_whitespace(content)), " "@)
    } else {
        content
    }
}

/// The text that stands for an HTTP error reply whose body could not be read.
pub open spec fn error_body_text(body: Option<String>) -> Seq<char> {
    match body {
        Some(b) => b@,
        None => "Unknown error"@,
    }
}

/// An error text that says the model is rate limited or out of credit.
pub open spec fn error_is_retryable(text: Seq<char>) -> bool {
    contains(text, "429"@) || contains(text, "402"@)
}

/// What the moderation service answered.
pub enum ModerationReply {
    /// No API key is configured.
    NoApiKey,
    /// The request could not be sent.
    SendFailed,
    /// The service answered with an error status; the body, if it could be read.
    HttpError(Option<String>),
    /// The reply body is not the expected JSON.
    BadBody,
    /// The contents of the reply's choices, in order.
    Choices(Vec<String>),
}

/// What comes next in moderating a message.
pub enum ModerationStep {
    /// The decision is made without asking a model.
    Decided(ModerationDecision),
    /// A model is to be asked about this text.
    AskModel(String),
}

/// The text of `content` that is moderated (see `cleaned_text`).
pub fn cleaned_message_text(content: &str) -> (t: String)
    ensures
        t@ == cleaned_text(content@),
{
    if str_starts_with(content, "/") {
        let mut words = split_words(content);
        let ghost all = views(words@);
        if words.len() > 0 {
            words.remove(0);
            assert(views(words@) =~= all.drop_first());
        }
        join_strings(words.as_slice(), " ")
    } else {
        let mut t = String::new();
        t.append(content);
        t
    }
}

/// Starts moderating a message: a bot's message and a message with nothing
/// to moderate are safe; any other asks a model about its cleaned text.
pub fn moderate_message(author_is_bot: bool, content: &str) -> (step: ModerationStep)
    ensures
        author_is_bot ==> step == ModerationStep::Decided(ModerationDecision::Safe),
        !author_is_bot && trim(cleaned_text(content@)).len() == 0 ==> step
            == ModerationStep::Decided(ModerationDecision::Safe),
        !author_is_bot && trim(cleaned_text(content@)).len() > 0 ==> (step matches
            ModerationStep::AskModel(t) && t@ == cleaned_text(content@)),
{
    if author_is_bot {
        return ModerationStep::Decided(ModerationDecision::Safe);
    }
    let cleaned = cleaned_message_text(content);
    let trimmed = trim_str(cleaned.as_str());
    if trimmed.as_str().is_empty() {
        return ModerationStep::Decided(ModerationDecision::Safe);
    }
    ModerationStep::AskModel(cleaned)
}

/// The decision a moderation reply stands for.
pub open spec fn moderation_outcome(reply: ModerationReply) -> ModerationDecision {
    match reply {
        ModerationReply::HttpError(body) => if error_is_retryable(error_body_text(body)) {
            ModerationDecision::RetryLater
        } else {
            ModerationDecision::Safe
        },
        ModerationReply::Choices(c) => if c@.len() > 0 && eq_ignore_ascii_case(
            trim(c@[0]@),
            "DELETE"@,
        ) {
            ModerationDecision::Delete
        } else {
            ModerationDecision::Safe
        },
        _ => ModerationDecision::Safe,
    }
}

/// Whether an error text says the model is rate limited or out of credit.
pub fn is_retryable_error(text: &str) -> (b: bool)
    ensures
        b == error_is_retryable(text@),
{
    str_contains(text, "429") || str_contains(text, "402")
}

/// Decides about a message from the moderation service's reply: only a first
/// choice that reads `DELETE` (in any case, white space around it aside)
/// removes it; a rate-limit or credit error asks for another model; anything
/// else leaves it.
pub fn ai_moderation(reply: &ModerationReply) -> (d: ModerationDecision)
    ensures
        d == moderation_outcome(*reply),
{
    match reply {
        ModerationReply::HttpError(body) => {
            let retry = match body {
                Some(b) => is_retryable_error(b.as_str()),
                None => is_retryable_error("Unknown error"),
            };
            if retry {
                ModerationDecision::RetryLater
            } else {
                ModerationDecision::Safe
            }
        },
        ModerationReply::Choices(c) => {
            if c.len() == 0 {
                return ModerationDecision::Safe;
            }
            let first = trim_str(c[0].as_str());
            if str_eq_ignore_ascii_case(first.as_str(), "DELETE") {
                ModerationDecision::Delete
            } else {
                ModerationDecision::Safe
            }
        },
        _ => ModerationDecision::Safe,
    }
}

/// Whether handling a message ends with this moderation decision: it does
/// unless the model asked to be retried.
pub fn moderation_ends_handling(d: ModerationDecision) -> (b: bool)
    ensures
        b == (d != ModerationDecision::RetryLater),
{
    match d {
        ModerationDecision::RetryLater => false,
        _ => true,
    }
}

/// The notice posted after removing a message by `user_id`.
pub fn removal_notice(user_id: u64) -> (r: String)
    ensures
        r@ == "<@"@ + decimal(user_id as nat) + "> your message has been removed"@,
{
    let mut r = String::new();
    r.append("<@");
    let id = decimal_string(user_id);
    r.append(id.as_str());
    r.append("> your message has been removed");
    r
}

/// The request asking `model` about `content`, authorised by `api_key`: the
/// moderation instructions as the system message and the text as the user
/// message.
pub fn moderation_request(content: &str, model: &str, api_key: &str) -> (req: ChatRequest)
    ensures
        req.model@ == model@,
        req.authorization@ == "Bearer "@ + api_key@,
        req.system_prompt@ == MODERATION_PROMPT@,
        req.user_message@ == content@,
{
    let mut m = String::new();
    m.append(model);
    let mut authorization = String::new();
    authorization.append("Bearer ");
    authorization.append(api_key);
    let mut system = String::new();
    system.append(MODERATION_PROMPT);
    let mut user = String::new();
    user.append(content);
    ChatRequest { model: m, authorization, system_prompt: system, user_message: user }
}

/// A reply whose first choice, trimmed, is the six letters D, E, L, E, T, E,
/// each in upper or lower case (as `Delete`, `delete`, `DeLeTe`), removes the
/// message.
pub proof fn lemma_delete_in_any_case(v: Vec<String>)
    requires
        v@.len() > 0,
        trim(v@[0]@).len() == 6,
        forall|i: int|
            0 <= i < 6 ==> #[trigger] trim(v@[0]@)[i] == seq!['D', 'E', 'L', 'E', 'T', 'E'][i]
                || trim(v@[0]@)[i] == seq!['d', 'e', 'l', 'e', 't', 'e'][i],
    ensures
        moderation_outcome(ModerationReply::Choices(v)) == ModerationDecision::Delete,
{
    reveal_strlit("DELETE");
    let c = v@;
    let t = trim(c[0]@);
    assert forall|i: int| 0 <= i < t.len() implies ascii_lower_code(t[i]) == ascii_lower_code(
        "DELETE"@[i],
    ) by {
        assert(t[i] == seq!['D', 'E', 'L', 'E', 'T', 'E'][i] || t[i] == seq![
            'd',
            'e',
            'l',
            'e',
            't',
            'e',
        ][i]);
    }
    assert(eq_ignore_ascii_case(t, "DELETE"@));
}

/// The reply "Delete" (with any white space around it) removes the message,
/// and so does every answer equal to DELETE up to the case of its letters.
pub proof fn lemma_delete_ignores_case(v: Vec<String>)
    requires
        v@.len() > 0,
        eq_ignore_ascii_case(trim(v@[0]@), "DELETE"@),
    ensures
        moderation_outcome(ModerationReply::Choices(v)) == ModerationDecision::Delete,
{
}

/// A message is removed only on a reply whose first choice, trimmed, is
/// DELETE up to the case of its letters.
pub proof fn lemma_delete_only_on_delete(reply: ModerationReply)
    ensures
        moderation_outcome(reply) == ModerationDecision::Delete ==> (reply matches
            ModerationReply::Choices(v) && v@.len() > 0 && eq_ignore_ascii_case(
            trim(v@[0]@),
            "DELETE"@,
        )),
{
}

/// A message is removed only on a reply whose first choice, trimmed, is the
/// six letters D, E, L, E, T, E, each in upper or lower case.
pub proof fn lemma_delete_only_on_delete_letters(reply: ModerationReply)
    requires
        moderation_outcome(reply) == ModerationDecision::Delete,
    ensures
        reply matches ModerationReply::Choices(v) && v@.len() > 0 && trim(v@[0]@).len() == 6
            && forall|i: int|
            0 <= i < 6 ==> #[trigger] trim(v@[0]@)[i] == seq!['D', 'E', 'L', 'E', 'T', 'E'][i]
                || trim(v@[0]@)[i] == seq!['d', 'e', 'l', 'e', 't', 'e'][i],
{
    reveal_strlit("DELETE");
    if let ModerationReply::Choices(v) = reply {
        let t = trim(v@[0]@);
        let up = seq!['D', 'E', 'L', 'E', 'T', 'E'];
        let low = seq!['d', 'e', 'l', 'e', 't', 'e'];
        assert forall|i: int| 0 <= i < 6 implies #[trigger] t[i] == up[i] || t[i] == low[i] by {
            assert(ascii_lower_code(t[i]) == ascii_lower_code("DELETE"@[i]));
            assert("DELETE"@[i] == up[i]);
            let n = t[i] as int;
            assert(n == up[i] as int || n == low[i] as int);
        }
    }
}

/// An error text holding `429` or `402` anywhere asks for another model.
pub proof fn lemma_rate_limit_codes_retry(x: Seq<char>, y: Seq<char>)
    ensures
        error_is_retryable(x + "429"@ + y),
        error_is_retryable(x + "402"@ + y),
{
    reveal_strlit("429");
    reveal_strlit("402");
    let a = x + "429"@ + y;
    let b = x + "402"@ + y;
    let k = x.len() as int;
    assert(a.subrange(k, k + 3) =~= "429"@);
    assert(b.subrange(k, k + 3) =~= "402"@);
    assert(occurs_at(a, "429"@, k));
    assert(occurs_at(b, "402"@, k));
}

/// A message that is no command is moderated whole.
pub proof fn lemma_plain_message_moderated_whole(content: Seq<char>)
    requires
        !starts_with(content, "/"@),
    ensures
        cleaned_text(content) == content,
{
}

/// For a command `/<name> <arguments>` the name is dropped and the words of
/// the arguments are moderated, joined by single spaces.
pub proof fn lemma_command_arguments_moderated(name: Seq<char>, sep: char, args: Seq<char>)
    requires
        forall|i: int| 0 <= i < name.len() ==> !is_white_space(#[trigger] name[i]),
        is_white_space(sep),
    ensures
        cleaned_text(seq!['/'] + name.push(sep) + args) == join(split_whitespace(args), " "@),
{
    reveal_strlit("/");
    let w = seq!['/'] + name;
    assert forall|i: int| 0 <= i < w.len() implies !is_white_space(#[trigger] w[i]) by {
        if i > 0 {
            assert(w[i] == name[i - 1]);
        }
    }
    let content = seq!['/'] + name.push(sep) + args;
    assert(content =~= w.push(sep) + args);
    lemma_split_first_word(w, sep, args);
    assert(content.subrange(0, 1) =~= "/"@);
    assert((seq![w] + split_whitespace(args)).drop_first() =~= split_whitespace(args));
}

/// `/<name> <word>` moderates the word alone, as typed.
pub proof fn lemma_command_one_argument(name: Seq<char>, x: Seq<char>)
    requires
        forall|i: int| 0 <= i < name.len() ==> !is_white_space(#[trigger] name[i]),
        x.len() > 0,
        forall|i: int| 0 <= i < x.len() ==> !is_white_space(#[trigger] x[i]),
    ensures
        cleaned_text(seq!['/'] + name.push(' ') + x) == x,
{
    lemma_command_arguments_moderated(name, ' ', x);
    lemma_split_single_word(x);
}

/// `/<name> <word> <word>` moderates the two words with one space between
/// them, as typed.
pub proof fn lemma_command_two_arguments(name: Seq<char>, x: Seq<char>, y: Seq<char>)
    requires
        forall|i: int| 0 <= i < name.len() ==> !is_white_space(#[trigger] name[i]),
        x.len() > 0,
        forall|i: int| 0 <= i < x.len() ==> !is_white_space(#[trigger] x[i]),
        y.len() > 0,
        forall|i: int| 0 <= i < y.len() ==> !is_white_space(#[trigger] y[i]),
    ensures
        cleaned_text(seq!['/'] + name.push(' ') + (x.push(' ') + y)) == x + " "@ + y,
{
    lemma_command_arguments_moderated(name, ' ', x.push(' ') + y);
    lemma_split_first_word(x, ' ', y);
    lemma_split_single_word(y);
    let ws = seq![x] + seq![y];
    assert(ws =~= seq![x, y]);
    assert(ws.drop_last() =~= seq![x]);
    assert(join(ws.drop_last(), " "@) == x);
    assert(join(ws, " "@) == join(ws.drop_last(), " "@) + " "@ + ws.last());
}

} // verus!
