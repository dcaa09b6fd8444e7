//! The introduction the bot shows in help channels.

use vstd::prelude::*;

use crate::text::{decimal, decimal_string, starts_with, str_eq, str_starts_with};

verus! {

/// How long the introduction stays before it is deleted, in seconds.
pub const INTRO_LIFETIME_SECS: u64 = 10;

/// The introduction of the Rust help channel.
pub struct ChannelIntro {
    /// The embed's title.
    pub title: &'static str,
    /// The embed's description.
    pub description: &'static str,
    /// The embed's colour.
    pub color: u32,
    /// The embed's footer.
    pub footer: &'static str,
    /// The value of the `User` field.
    pub user_field: String,
    /// The value of the `Channel` field.
    pub channel_field: String,
}

/// The title of the Rust help introduction.
pub const RUST_HELP_TITLE: &'static str = "Rust help";

/// The description of the Rust help introduction.
pub const RUST_HELP_DESCRIPTION: &'static str = "Ask your Rust questions here \n\n
            show your code \n\
            use code blocks";

/// The colour of the Rust help introduction.
pub const RUST_HELP_COLOR: u32 = 0xf74c00;

/// The footer of the Rust help introduction.
pub const RUST_HELP_FOOTER: &'static str = "TraitBot Rust Assistance";

/// The field text naming `id`.
pub open spec fn id_field(id: u64) -> Seq<char> {
    "@<"@ + decimal(id as nat) + ">"@
}

fn id_field_text(id: u64) -> (r: String)
    ensures
        r@ == id_field(id),
{
    let mut r = String::new();
    r.append("@<");
    let d = decimal_string(id);
    r.append(d.as_str());
    r.append(">");
    r
}

/// The introduction to show for a message by `author_id` in the channel
/// `channel_id` named `channel_name`: only a message by a person, that is no
/// `!` command, in `rust-help` gets one.
pub fn send_channel_intro(
    author_is_bot: bool,
    content: &str,
    channel_name: &str,
    author_id: u64,
    channel_id: u64,
) -> (r: Option<ChannelIntro>)
    ensures
        r is Some <==> (!author_is_bot && !starts_with(content@, "!"@) && channel_name@
            == "rust-help"@),
        r matches Some(i) ==> i.title@ == RUST_HELP_TITLE@ && i.description@
            == RUST_HELP_DESCRIPTION@ && i.color == RUST_HELP_COLOR && i.footer@
            == RUST_HELP_FOOTER@ && i.user_field@ == id_field(author_id) && i.channel_field@
            == id_field(channel_id),
{
    if author_is_bot {
        return None;
    }
    if str_starts_with(content, "!") {
        return None;
    }
    if !str_eq(channel_name, "rust-help") {
        return None;
    }
    Some(
        ChannelIntro {
            title: RUST_HELP_TITLE,
            description: RUST_HELP_DESCRIPTION,
            color: RUST_HELP_COLOR,
            footer: RUST_HELP_FOOTER,
            user_field: id_field_text(author_id),
            channel_field: id_field_text(channel_id),
        },
    )
}

} // verus!
