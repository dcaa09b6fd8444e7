//! Per-user rate limiting of questions to the AI, and the per-channel history
//! of questions and answers that is kept between runs as JSON.

use std::collections::HashMap;
use vstd::prelude::*;

use crate::text::{join, join_strings, views};

verus! {

/// How long a user waits between two questions to the AI, in nanoseconds.
pub const RATE_LIMIT_WINDOW_NANOS: u64 = 25_000_000_000;

/// How many entries a channel's history may hold before a new question drops
/// the oldest one.
pub const HISTORY_LIMIT: usize = 10;

/// The time from `since` to `now`, or zero when `now` is not later.
pub open spec fn elapsed(since: u64, now: u64) -> int {
    if now >= since {
        now - since
    } else {
        0
    }
}

/// `user` asked less than the rate-limit window before `now`.
pub open spec fn rate_limited(last: Map<u64, u64>, user: u64, now: u64) -> bool {
    last.contains_key(user) && elapsed(last[user], now) < RATE_LIMIT_WINDOW_NANOS
}

/// The times of the last accepted questions after `user` asks at `now`, and
/// whether the question is accepted.
pub open spec fn rate_limit_step(last: Map<u64, u64>, user: u64, now: u64) -> (Map<u64, u64>, bool) {
    if rate_limited(last, user, now) {
        (last, false)
    } else {
        (last.insert(user, now), true)
    }
}

/// The text a refused user is answered with.
pub open spec fn rate_limit_message(sender: Seq<char>) -> Seq<char> {
    sender + " Please wait a few seconds before asking again"@
}

/// The time of each user's last accepted question to the AI.
pub struct RateLimits {
    last_request: HashMap<u64, u64>,
}

impl View for RateLimits {
    type V = Map<u64, u64>;

    closed spec fn view(&self) -> Map<u64, u64> {
        self.last_request@
    }
}

impl RateLimits {
    /// No user has asked yet.
    pub fn new() -> (r: RateLimits)
        ensures
            r@ == Map::<u64, u64>::empty(),
    {
        RateLimits { last_request: HashMap::new() }
    }

    /// The time of `user`'s last accepted question, if any.
    pub fn last_request(&self, user: u64) -> (r: Option<u64>)
        ensures
            r == (if self@.contains_key(user) {
                Some(self@[user])
            } else {
                None
            }),
    {
        match self.last_request.get(&user) {
            Some(t) => Some(*t),
            None => None,
        }
    }
}

/// Checks whether user `user_id`, named `sender`, may ask the AI at time `now`
/// (nanoseconds on a monotonic clock). An accepted question starts a new
/// window for that user; a refused one changes nothing.
pub fn check_rate_limit(limits: &mut RateLimits, user_id: u64, sender: &str, now: u64) -> (r: Result<
    (),
    String,
>)
    ensures
        (final(limits)@, r is Ok) == rate_limit_step(old(limits)@, user_id, now),
        r matches Err(msg) ==> msg@ == rate_limit_message(sender@),
{
    let limited = match limits.last_request.get(&user_id) {
        Some(last) => {
            let last = *last;
            let elapsed = if now >= last {
                now - last
            } else {
                0
            };
            elapsed < RATE_LIMIT_WINDOW_NANOS
        },
        None => false,
    };
    if limited {
        let mut msg = String::new();
        msg.append(sender);
        msg.append(" Please wait a few seconds before asking again");
        return Err(msg);
    }
    limits.last_request.insert(user_id, now);
    Ok(())
}

/// Within the window after an accepted question, the same user is refused.
pub proof fn lemma_second_question_within_window_refused(
    last: Map<u64, u64>,
    user: u64,
    t1: u64,
    t2: u64,
)
    requires
        rate_limit_step(last, user, t1).1,
        t1 <= t2 < t1 + RATE_LIMIT_WINDOW_NANOS,
    ensures
        !rate_limit_step(rate_limit_step(last, user, t1).0, user, t2).1,
{
}

/// Once the window after an accepted question has passed, the same user is
/// accepted again.
pub proof fn lemma_question_after_window_accepted(last: Map<u64, u64>, user: u64, t1: u64, t2: u64)
    requires
        rate_limit_step(last, user, t1).1,
        t1 + RATE_LIMIT_WINDOW_NANOS <= t2,
    ensures
        rate_limit_step(rate_limit_step(last, user, t1).0, user, t2).1,
{
}

/// A refused question does not extend the window: the state is unchanged.
pub proof fn lemma_refusal_changes_nothing(last: Map<u64, u64>, user: u64, now: u64)
    requires
        !rate_limit_step(last, user, now).1,
    ensures
        rate_limit_step(last, user, now).0 == last,
{
}

/// One user's question never changes whether another user is limited.
pub proof fn lemma_users_independent(
    last: Map<u64, u64>,
    user: u64,
    other: u64,
    now: u64,
    later: u64,
)
    requires
        user != other,
    ensures
        rate_limited(rate_limit_step(last, user, now).0, other, later) == rate_limited(
            last,
            other,
            later,
        ),
{
}

/// The history of `channel` in `m`; empty for a channel never seen.
pub open spec fn history_of(m: Map<u64, Seq<Seq<char>>>, channel: u64) -> Seq<Seq<char>> {
    if m.contains_key(channel) {
        m[channel]
    } else {
        seq![]
    }
}

/// A history before a new question: the oldest entry is dropped when more
/// than the limit are held.
pub open spec fn trimmed(h: Seq<Seq<char>>) -> Seq<Seq<char>> {
    if h.len() > HISTORY_LIMIT {
        h.drop_first()
    } else {
        h
    }
}

/// The history entry recording a question.
pub open spec fn user_line(question: Seq<char>) -> Seq<char> {
    "User: "@ + question
}

/// The history entry recording an answer.
pub open spec fn ai_line(answer: Seq<char>) -> Seq<char> {
    "AI: "@ + answer
}

/// The map of channel histories held by a `HashMap`, by character sequences.
pub open spec fn history_view(m: Map<u64, Vec<String>>) -> Map<u64, Seq<Seq<char>>> {
    Map::new(|k: u64| m.contains_key(k), |k: u64| views(m[k]@))
}

/// The questions and answers exchanged in each channel, oldest first.
pub struct ChannelHistory {
    channels: HashMap<u64, Vec<String>>,
}

impl View for ChannelHistory {
    type V = Map<u64, Seq<Seq<char>>>;

    closed spec fn view(&self) -> Map<u64, Seq<Seq<char>>> {
        history_view(self.channels@)
    }
}

impl ChannelHistory {
    /// No channel has a history yet.
    pub fn new() -> (r: ChannelHistory)
        ensures
            r@ == Map::<u64, Seq<Seq<char>>>::empty(),
    {
        let r = ChannelHistory { channels: HashMap::new() };
        assert(r@ =~= Map::<u64, Seq<Seq<char>>>::empty());
        r
    }

    /// The histories held by `channels`.
    pub fn from_map(channels: HashMap<u64, Vec<String>>) -> (r: ChannelHistory)
        ensures
            r@ == history_view(channels@),
    {
        ChannelHistory { channels }
    }

    /// The history of `channel_id`, oldest entry first.
    pub fn history(&self, channel_id: u64) -> (h: Vec<String>)
        ensures
            views(h@) == history_of(self@, channel_id),
    {
        match self.channels.get(&channel_id) {
            Some(h) => {
                let mut out: Vec<String> = Vec::new();
                let n = h.len();
                let mut i: usize = 0;
                while i < n
                    invariant
                        i <= n == h@.len(),
                        views(out@) =~= views(h@).take(i as int),
                    decreases n - i,
                {
                    let ghost before = views(out@);
                    let s = h[i].clone();
                    assert(s@ == views(h@)[i as int]);
                    out.push(s);
                    assert(views(out@) =~= before.push(s@));
                    i = i + 1;
                    assert(views(out@) =~= views(h@).take(i as int));
                }
                assert(views(h@).take(n as int) =~= views(h@));
                out
            },
            None => {
                let out: Vec<String> = Vec::new();
                assert(views(out@) =~= seq![]);
                out
            },
        }
    }

    /// Takes the history of `channel_id` out of the map (empty if there was none).
    fn take_history(&mut self, channel_id: u64) -> (h: Vec<String>)
        ensures
            views(h@) == history_of(old(self)@, channel_id),
            final(self).channels@ == old(self).channels@.remove(channel_id),
    {
        match self.channels.remove(&channel_id) {
            Some(h) => h,
            None => {
                let h: Vec<String> = Vec::new();
                assert(views(h@) =~= seq![]);
                h
            },
        }
    }

    /// Puts `h` back as the history of `channel_id`.
    fn put_history(&mut self, channel_id: u64, h: Vec<String>)
        requires
            !old(self).channels@.contains_key(channel_id),
        ensures
            final(self)@ == history_view(old(self).channels@).insert(channel_id, views(h@)),
    {
        let ghost before = self.channels@;
        self.channels.insert(channel_id, h);
        assert(self@ =~= history_view(before).insert(channel_id, views(h@)));
    }

    /// Prepares `channel_id` for a new question: drops the oldest entry when
    /// more than the limit are held, and gives the remaining entries joined by
    /// line breaks.
    pub fn begin_question(&mut self, channel_id: u64) -> (joined: String)
        ensures
            final(self)@ == old(self)@.insert(
                channel_id,
                trimmed(history_of(old(self)@, channel_id)),
            ),
            joined@ == join(trimmed(history_of(old(self)@, channel_id)), "\n"@),
    {
        let ghost old_view = self@;
        let mut h = self.take_history(channel_id);
        let ghost rest = self.channels@;
        if h.len() > HISTORY_LIMIT {
            let ghost before = h@;
            h.remove(0);
            assert(views(h@) =~= views(before).drop_first());
        }
        let joined = join_strings(h.as_slice(), "\n");
        self.put_history(channel_id, h);
        assert(history_view(rest).insert(channel_id, views(h@)) =~= old_view.insert(
            channel_id,
            views(h@),
        ));
        joined
    }

    /// Appends a question and its answer to the history of `channel_id`.
    pub fn record_exchange(&mut self, channel_id: u64, question: &str, answer: &str)
        ensures
            final(self)@ == old(self)@.insert(
                channel_id,
                history_of(old(self)@, channel_id).push(user_line(question@)).push(
                    ai_line(answer@),
                ),
            ),
    {
        let ghost old_view = self@;
        let mut h = self.take_history(channel_id);
        let ghost rest = self.channels@;
        let ghost before = views(h@);
        let mut q = String::new();
        q.append("User: ");
        q.append(question);
        let mut a = String::new();
        a.append("AI: ");
        a.append(answer);
        h.push(q);
        h.push(a);
        assert(views(h@) =~= before.push(user_line(question@)).push(ai_line(answer@)));
        self.put_history(channel_id, h);
        assert(history_view(rest).insert(channel_id, views(h@)) =~= old_view.insert(
            channel_id,
            views(h@),
        ));
    }
}

/// Preparing a channel for a new question changes no other channel.
pub proof fn lemma_begin_question_isolated(m: Map<u64, Seq<Seq<char>>>, channel: u64, other: u64)
    requires
        channel != other,
    ensures
        history_of(m.insert(channel, trimmed(history_of(m, channel))), other) == history_of(
            m,
            other,
        ),
{
}

/// Preparing for a question keeps the entries in order and drops at most the
/// oldest one, and only when more than the limit are held.
pub proof fn lemma_trimmed_keeps_latest(h: Seq<Seq<char>>)
    ensures
        h.len() <= HISTORY_LIMIT ==> trimmed(h) == h,
        h.len() > HISTORY_LIMIT ==> trimmed(h).len() == h.len() - 1 && forall|i: int|
            0 <= i < trimmed(h).len() ==> #[trigger] trimmed(h)[i] == h[i + 1],
{
}

/// After a recorded exchange the channel's history ends with the question
/// and then the answer, after all that it held before.
pub proof fn lemma_exchange_appended(
    m: Map<u64, Seq<Seq<char>>>,
    channel: u64,
    question: Seq<char>,
    answer: Seq<char>,
)
    ensures
        ({
            let h = history_of(m, channel);
            let h2 = history_of(
                m.insert(channel, h.push(user_line(question)).push(ai_line(answer))),
                channel,
            );
            &&& h2.len() == h.len() + 2
            &&& h2.take(h.len() as int) == h
            &&& h2[h.len() as int] == user_line(question)
            &&& h2[h.len() + 1int] == ai_line(answer)
        }),
{
    let h = history_of(m, channel);
    let h2 = h.push(user_line(question)).push(ai_line(answer));
    assert(h2.take(h.len() as int) =~= h);
}

/// The channel histories that `serde_json::from_str` reads from `text`, or
/// `None` where it reports an error.
pub uninterp spec fn parsed_memory(text: Seq<char>) -> Option<Map<u64, Seq<Seq<char>>>>;

/// Calls `serde_json::from_str::<HashMap<u64, Vec<String>>>` and keeps the map
/// on success. Its result is named `parsed_memory`; the JSON grammar is not
/// restated here.
#[verifier::external_body]
fn parse_memory_json(text: &str) -> (r: Option<HashMap<u64, Vec<String>>>)
    ensures
        r is Some <==> parsed_memory(text@) is Some,
        r matches Some(m) ==> parsed_memory(text@) == Some(history_view(m@)),
{
    serde_json::from_str(text).ok()
}

/// Calls `serde_json::to_string_pretty` on the map of histories. For this
/// map type the call always succeeds: channel ids are written as quoted
/// decimal keys by the map-key serializer, and the text is built in a `Vec`,
/// which gives no I/O error. The layout of the text (including the order of
/// the channels, which follows the map's iteration order) is left unsaid;
/// what is stated is that `serde_json::from_str` reads the same map back from
/// it, since the quoted keys parse back as numbers and strings are escaped
/// and unescaped exactly.
#[verifier::external_body]
fn memory_to_json(m: &HashMap<u64, Vec<String>>) -> (r: Option<String>)
    ensures
        r is Some,
        r matches Some(t) ==> parsed_memory(t@) == Some(history_view(m@)),
{
    serde_json::to_string_pretty(m).ok()
}

/// The histories loaded from the content of the memory file: none when the
/// file could not be read or does not hold valid history JSON.
pub open spec fn loaded_history(content: Option<Seq<char>>) -> Map<u64, Seq<Seq<char>>> {
    match content {
        Some(text) => match parsed_memory(text) {
            Some(m) => m,
            None => Map::empty(),
        },
        None => Map::empty(),
    }
}

/// Builds the histories from the content of the memory file, `None` when it
/// could not be read.
pub fn load_memory(file_content: Option<&str>) -> (h: ChannelHistory)
    ensures
        h@ == loaded_history(
            match file_content {
                Some(t) => Some(t@),
                None => None,
            },
        ),
{
    match file_content {
        Some(text) => match parse_memory_json(text) {
            Some(m) => ChannelHistory::from_map(m),
            None => ChannelHistory::new(),
        },
        None => ChannelHistory::new(),
    }
}

/// The JSON text to store in the memory file: text from which the same
/// histories are read back.
pub fn save_memory(history: &ChannelHistory) -> (text: String)
    ensures
        parsed_memory(text@) == Some(history@),
{
    match memory_to_json(&history.channels) {
        Some(t) => t,
        None => {
            let mut t = String::new();
            t.append("{}");
            t
        },
    }
}

/// Loading the text that `save_memory` writes gives back the same histories.
pub proof fn lemma_saved_memory_reloads(text: Seq<char>, history: Map<u64, Seq<Seq<char>>>)
    requires
        parsed_memory(text) == Some(history),
    ensures
        loaded_history(Some(text)) == history,
{
}

/// A channel's history after one question and its answer: trimmed, then the
/// question and the answer appended.
pub open spec fn ask_cycle(h: Seq<Seq<char>>, question: Seq<char>, answer: Seq<char>) -> Seq<
    Seq<char>,
> {
    trimmed(h).push(user_line(question)).push(ai_line(answer))
}

/// A channel's history after the exchanges `ex`, in order, starting from `h`.
pub open spec fn after_exchanges(h: Seq<Seq<char>>, ex: Seq<(Seq<char>, Seq<char>)>) -> Seq<
    Seq<char>,
>
    decreases ex.len(),
{
    if ex.len() == 0 {
        h
    } else {
        ask_cycle(after_exchanges(h, ex.drop_last()), ex.last().0, ex.last().1)
    }
}

/// The history is not capped: from an empty history, `k` answered questions
/// leave `2k` entries while `k <= 6`, and `k + 6` after that; it grows by one
/// entry per question once it holds more than the limit.
pub proof fn lemma_history_growth(ex: Seq<(Seq<char>, Seq<char>)>)
    ensures
        after_exchanges(seq![], ex).len() == if ex.len() <= 6 {
            2 * ex.len()
        } else {
            ex.len() + 6
        },
    decreases ex.len(),
{
    if ex.len() > 0 {
        lemma_history_growth(ex.drop_last());
    }
}

} // verus!
