//! Asking a chat model a question on behalf of a channel: the request built
//! from the channel's history, what the reply yields, and how the answer is
//! delivered.

use vstd::prelude::*;
use vstd::utf8::encode_utf8;

use crate::memory::{ai_line, ask_cycle, history_of, trimmed, user_line, ChannelHistory};
use crate::moderation::{error_body_text, error_is_retryable, is_retryable_error};
use crate::text::{is_white_space, join, lemma_trim_shape, subrange_copy, trim, trim_str, views};

verus! {

/// How the assistant is told to behave.
pub const AI_BEHAVIOUR: &'static str = "You are TraitBot, a funny and smart AI assistant for a Discord programming server. 
                    Keep answers concise and beginner friendly.";

/// The text before the behaviour in the system prompt.
pub const PROMPT_OPENING: &'static str = "
                    ";

/// The text between the behaviour and the history in the system prompt.
pub const PROMPT_HISTORY_HEADING: &'static str = "

                    Previous questions and answer
                    ";

/// The text after the history in the system prompt.
pub const PROMPT_CLOSING: &'static str = "
                    ";

/// The notice posted when a model failed for a reason other than a rate
/// limit or missing credit.
pub const AI_ERROR_NOTICE: &'static str = "Errore durante la chiamata all'ai ";

/// The longest answer, in bytes, that is posted as one message; longer
/// answers are posted in pieces of this size.
pub const MESSAGE_CHUNK_BYTES: usize = 1900;

/// The system prompt for a channel whose history, joined by line breaks, is
/// `history`.
pub open spec fn system_prompt(history: Seq<char>) -> Seq<char> {
    PROMPT_OPENING@ + AI_BEHAVIOUR@ + PROMPT_HISTORY_HEADING@ + history + PROMPT_CLOSING@
}

/// A request to a chat model.
pub struct ChatRequest {
    /// The model asked.
    pub model: String,
    /// The value of the `Authorization` header.
    pub authorization: String,
    /// The system message: behaviour and channel history.
    pub system_prompt: String,
    /// The user message: the question.
    pub user_message: String,
}

/// What the chat service answered.
pub enum ChatReply {
    /// The request could not be sent; the error's text.
    SendFailed(String),
    /// The service answered with an error status.
    HttpError {
        /// The status, as `404 Not Found`.
        status: String,
        /// The body, if it could be read.
        body: Option<String>,
    },
    /// The reply body is not the expected JSON; the error's text.
    BadBody(String),
    /// The contents of the reply's choices, in order.
    Choices(Vec<String>),
}

/// Prepares asking `model` the question `question` in channel `channel_id`:
/// the channel's history is trimmed first (even when asking then fails),
/// then a missing API key or an empty question is refused, and otherwise the
/// request is built from the history and the trimmed question.
pub fn ask_ai(
    memory: &mut ChannelHistory,
    question: &str,
    model: &str,
    channel_id: u64,
    api_key: Option<&str>,
) -> (r: Result<ChatRequest, String>)
    ensures
        final(memory)@ == old(memory)@.insert(
            channel_id,
            trimmed(history_of(old(memory)@, channel_id)),
        ),
        api_key is None ==> (r matches Err(e) && e@ == "Missing api key"@),
        api_key is Some && trim(question@).len() == 0 ==> (r matches Err(e) && e@
            == "Question cannot be empty"@),
        api_key is Some && trim(question@).len() > 0 ==> (r matches Ok(req) && req.model@
            == model@ && req.authorization@ == "Bearer "@ + api_key->0@ && req.system_prompt@
            == system_prompt(join(trimmed(history_of(old(memory)@, channel_id)), "\n"@))
            && req.user_message@ == trim(question@)),
{
    let history = memory.begin_question(channel_id);
    let key = match api_key {
        Some(k) => k,
        None => {
            let mut e = String::new();
            e.append("Missing api key");
            return Err(e);
        },
    };
    let user_message = trim_str(question);
    if user_message.as_str().is_empty() {
        let mut e = String::new();
        e.append("Question cannot be empty");
        return Err(e);
    }
    let mut authorization = String::new();
    authorization.append("Bearer ");
    authorization.append(key);
    let mut system = String::new();
    system.append(PROMPT_OPENING);
    system.append(AI_BEHAVIOUR);
    system.append(PROMPT_HISTORY_HEADING);
    system.append(history.as_str());
    system.append(PROMPT_CLOSING);
    let mut m = String::new();
    m.append(model);
    Ok(ChatRequest { model: m, authorization, system_prompt: system, user_message })
}

/// The answer a reply carries: the first choice, trimmed.
pub open spec fn reply_answer(reply: ChatReply) -> Option<Seq<char>> {
    match reply {
        ChatReply::Choices(c) => if c@.len() > 0 {
            Some(trim(c@[0]@))
        } else {
            None
        },
        _ => None,
    }
}

/// What asking yields from a reply: the answer, or the error text.
pub open spec fn reply_outcome(reply: ChatReply) -> Result<Seq<char>, Seq<char>> {
    match reply {
        ChatReply::SendFailed(e) => Err("Failed to send question: "@ + e@),
        ChatReply::HttpError { status, body } => Err(
            "There was an error calling the AI ("@ + status@ + "): "@ + error_body_text(body),
        ),
        ChatReply::BadBody(e) => Err("Failed to parsed response: "@ + e@),
        ChatReply::Choices(c) => if c@.len() == 0 {
            Err("AI returned no response"@)
        } else if trim(c@[0]@).len() == 0 {
            Err("AI returned an empty message"@)
        } else {
            Ok(trim(c@[0]@))
        },
    }
}

/// The answer or error text of a result, by character sequences.
pub open spec fn result_view(r: Result<String, String>) -> Result<Seq<char>, Seq<char>> {
    match r {
        Ok(a) => Ok(a@),
        Err(e) => Err(e@),
    }
}

/// Finishes asking in channel `channel_id` with the service's reply: an
/// answer (even an empty one) is recorded in the history after the question;
/// the result is the trimmed answer, or the error text for the reply.
pub fn finish_ask_ai(memory: &mut ChannelHistory, question: &str, channel_id: u64, reply: ChatReply) -> (r:
    Result<String, String>)
    ensures
        result_view(r) == reply_outcome(reply),
        reply_answer(reply) matches Some(a) ==> final(memory)@ == old(memory)@.insert(
            channel_id,
            history_of(old(memory)@, channel_id).push(user_line(question@)).push(ai_line(a)),
        ),
        reply_answer(reply) is None ==> final(memory)@ == old(memory)@,
{
    match reply {
        ChatReply::SendFailed(e) => {
            let mut m = String::new();
            m.append("Failed to send question: ");
            m.append(e.as_str());
            Err(m)
        },
        ChatReply::HttpError { status, body } => {
            let mut m = String::new();
            m.append("There was an error calling the AI (");
            m.append(status.as_str());
            m.append("): ");
            match body {
                Some(b) => m.append(b.as_str()),
                None => m.append("Unknown error"),
            }
            Err(m)
        },
        ChatReply::BadBody(e) => {
            let mut m = String::new();
            m.append("Failed to parsed response: ");
            m.append(e.as_str());
            Err(m)
        },
        ChatReply::Choices(c) => {
            if c.len() == 0 {
                let mut m = String::new();
                m.append("AI returned no response");
                return Err(m);
            }
            let answer = trim_str(c[0].as_str());
            memory.record_exchange(channel_id, question, answer.as_str());
            if answer.as_str().is_empty() {
                let mut m = String::new();
                m.append("AI returned an empty message");
                return Err(m);
            }
            Ok(answer)
        },
    }
}

/// The text `String::from_utf8_lossy` makes of `bytes`.
pub uninterp spec fn utf8_lossy(bytes: Seq<u8>) -> Seq<char>;

/// Calls `String::from_utf8_lossy`; its result is named `utf8_lossy`, since
/// the replacement of invalid sequences is not restated here.
#[verifier::external_body]
fn lossy_text(bytes: &[u8]) -> (s: String)
    ensures
        s@ == utf8_lossy(bytes@),
{
    String::from_utf8_lossy(bytes).into_owned()
}

/// The whole pieces of `MESSAGE_CHUNK_BYTES` bytes that `bytes` splits into;
/// a shorter piece left over at the end is not among them.
pub open spec fn answer_chunks(bytes: Seq<u8>) -> Seq<Seq<u8>> {
    Seq::new(
        (bytes.len() / (MESSAGE_CHUNK_BYTES as nat)) as nat,
        |i: int| bytes.subrange(i * MESSAGE_CHUNK_BYTES, i * MESSAGE_CHUNK_BYTES + MESSAGE_CHUNK_BYTES),
    )
}

/// The messages an answer is posted as: the answer itself when it is at most
/// `MESSAGE_CHUNK_BYTES` bytes long, otherwise the text of each whole piece of
/// its UTF-8 bytes.
pub open spec fn answer_message_texts(answer: Seq<char>) -> Seq<Seq<char>> {
    let bytes = encode_utf8(answer);
    if bytes.len() <= MESSAGE_CHUNK_BYTES {
        seq![answer]
    } else {
        answer_chunks(bytes).map_values(|c: Seq<u8>| utf8_lossy(c))
    }
}

/// The messages `answer` is posted as.
pub fn answer_messages(answer: &str) -> (msgs: Vec<String>)
    ensures
        views(msgs@) == answer_message_texts(answer@),
{
    let bytes = answer.as_bytes();
    let n = bytes.len();
    if n <= MESSAGE_CHUNK_BYTES {
        let mut whole = String::new();
        whole.append(answer);
        let mut msgs: Vec<String> = Vec::new();
        msgs.push(whole);
        assert(views(msgs@) =~= seq![answer@]);
        return msgs;
    }
    let count = n / MESSAGE_CHUNK_BYTES;
    let ghost chunks = answer_chunks(bytes@);
    let mut msgs: Vec<String> = Vec::new();
    let mut i: usize = 0;
    while i < count
        invariant
            n == bytes@.len(),
            count == n / MESSAGE_CHUNK_BYTES,
            chunks == answer_chunks(bytes@),
            i <= count,
            msgs@.len() == i,
            forall|j: int| 0 <= j < i ==> #[trigger] msgs@[j]@ == utf8_lossy(chunks[j]),
        decreases count - i,
    {
        assert((i + 1) * 1900 <= n) by (nonlinear_arith)
            requires
                i < count,
                count == n / 1900,
        ;
        let start = i * MESSAGE_CHUNK_BYTES;
        let piece = subrange_copy(bytes, start, start + MESSAGE_CHUNK_BYTES);
        let text = lossy_text(piece.as_slice());
        msgs.push(text);
        i = i + 1;
    }
    assert(views(msgs@) =~= chunks.map_values(|c: Seq<u8>| utf8_lossy(c)));
    msgs
}

/// What to do after asking one model.
pub enum AiAttemptAction {
    /// Post these messages and ask no further model.
    Deliver(Vec<String>),
    /// Ask the next model without a word: this one is rate limited or out of
    /// credit.
    TryNextModel,
    /// Post `AI_ERROR_NOTICE`, then ask the next model.
    ReportAndTryNext,
}

/// Decides what follows one model's result: an answer is delivered, a
/// rate-limit or credit error moves on silently, any other error is
/// reported before moving on.
pub fn after_ai_attempt(result: &Result<String, String>) -> (action: AiAttemptAction)
    ensures
        match result {
            Ok(a) => action matches AiAttemptAction::Deliver(m) && views(m@)
                == answer_message_texts(a@),
            Err(e) => if error_is_retryable(e@) {
                action is TryNextModel
            } else {
                action is ReportAndTryNext
            },
        },
{
    match result {
        Ok(a) => AiAttemptAction::Deliver(answer_messages(a.as_str())),
        Err(e) => if is_retryable_error(e.as_str()) {
            AiAttemptAction::TryNextModel
        } else {
            AiAttemptAction::ReportAndTryNext
        },
    }
}

/// The models that are asked, in order, until one answers.
pub fn free_models() -> (models: Vec<&'static str>)
    ensures
        models@.map_values(|m: &str| m@) == seq![
            "deepseek/deepseek-v4-flash:free"@,
            "google/gemma-4-26b-a4b-it:free"@,
            "google/gemma-4-31b-it:free"@,
            "nvidia/nemotron-3-super-120b-a12b:free"@,
            "qwen/qwen3-next-80b-a3b-instruct:free"@,
            "qwen/qwen3-coder:free"@,
            "nousresearch/hermes-3-llama-3.1-405b:free"@,
        ],
{
    let models = vec![
        "deepseek/deepseek-v4-flash:free",
        "google/gemma-4-26b-a4b-it:free",
        "google/gemma-4-31b-it:free",
        "nvidia/nemotron-3-super-120b-a12b:free",
        "qwen/qwen3-next-80b-a3b-instruct:free",
        "qwen/qwen3-coder:free",
        "nousresearch/hermes-3-llama-3.1-405b:free",
    ];
    assert(models@.map_values(|m: &str| m@) =~= seq![
        "deepseek/deepseek-v4-flash:free"@,
        "google/gemma-4-26b-a4b-it:free"@,
        "google/gemma-4-31b-it:free"@,
        "nvidia/nemotron-3-super-120b-a12b:free"@,
        "qwen/qwen3-next-80b-a3b-instruct:free"@,
        "qwen/qwen3-coder:free"@,
        "nousresearch/hermes-3-llama-3.1-405b:free"@,
    ]);
    models
}

/// A question asked and answered in a channel leaves the channel's history
/// as it was before (less its oldest entry when it held more than the
/// limit), followed by the question and then the answer.
pub proof fn lemma_ask_cycle_history(
    m: Map<u64, Seq<Seq<char>>>,
    channel: u64,
    question: Seq<char>,
    reply: ChatReply,
)
    requires
        reply_answer(reply) is Some,
    ensures
        ({
            let m1 = m.insert(channel, trimmed(history_of(m, channel)));
            let a = reply_answer(reply)->0;
            let m2 = m1.insert(
                channel,
                history_of(m1, channel).push(user_line(question)).push(ai_line(a)),
            );
            &&& history_of(m2, channel) == trimmed(history_of(m, channel)).push(
                user_line(question),
            ).push(ai_line(a))
            &&& history_of(m2, channel) == ask_cycle(history_of(m, channel), question, a)
        }),
{
}

/// An answer that asking yields is never empty and has no white space at
/// either end.
pub proof fn lemma_answer_trimmed_nonempty(reply: ChatReply)
    ensures
        reply_outcome(reply) matches Ok(a) ==> a.len() > 0 && trim(a) == a && !is_white_space(a[0])
            && !is_white_space(a.last()),
{
    if let ChatReply::Choices(c) = reply {
        if c@.len() > 0 {
            lemma_trim_shape(c@[0]@);
        }
    }
}

/// An answer of more than `MESSAGE_CHUNK_BYTES` bytes is never posted whole:
/// it is posted as `n / 1900` messages (for `n` bytes), message `i` being the
/// text of bytes `1900 i` up to `1900 (i + 1)` of the answer, each piece lying
/// inside the answer. An answer of at most `MESSAGE_CHUNK_BYTES` bytes is
/// posted as it is, in one message.
pub proof fn lemma_long_answers_are_cut(answer: Seq<char>)
    ensures
        encode_utf8(answer).len() <= MESSAGE_CHUNK_BYTES ==> answer_message_texts(answer) == seq![
            answer,
        ],
        encode_utf8(answer).len() > MESSAGE_CHUNK_BYTES ==> ({
            let b = encode_utf8(answer);
            let msgs = answer_message_texts(answer);
            &&& msgs.len() == b.len() / 1900
            &&& msgs.len() >= 1
            &&& forall|i: int|
                0 <= i < msgs.len() ==> 1900 * i + 1900 <= b.len() && #[trigger] msgs[i]
                    == utf8_lossy(b.subrange(1900 * i, 1900 * i + 1900))
        }),
{
    let b = encode_utf8(answer);
    if b.len() > MESSAGE_CHUNK_BYTES {
        let msgs = answer_message_texts(answer);
        assert forall|i: int| 0 <= i < msgs.len() implies 1900 * i + 1900 <= b.len() && #[trigger] msgs[i]
            == utf8_lossy(b.subrange(1900 * i, 1900 * i + 1900)) by {
            let n = b.len() as int;
            assert(1900 * i + 1900 <= n) by (nonlinear_arith)
                requires
                    0 <= i < n / 1900,
                    n >= 0,
            ;
        }
    }
}

} // verus!
