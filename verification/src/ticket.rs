//! Opening support tickets: the private channel's name and place, and the
//! texts posted about it.

use vstd::prelude::*;

use crate::text::{decimal, decimal_string, lowercase, to_lowercase};

verus! {

/// The category ticket channels are created in.
pub const TICKET_CATEGORY_ID: u64 = 1503847756299632860;

/// The staff member who can see every ticket.
pub const TICKET_STAFF_ID: u64 = 1501279350215938258;

/// A ticket channel to create.
pub struct TicketPlan {
    /// The channel's name.
    pub channel_name: String,
    /// The category it is created in.
    pub category_id: u64,
    /// The members who may view the channel, send messages and read its
    /// history: the member who opened it, then the staff member. Everyone
    /// else is denied viewing it.
    pub granted_members: Vec<u64>,
}

/// The name of the ticket channel of the member named `name`.
pub open spec fn ticket_channel_name(name: Seq<char>) -> Seq<char> {
    "ticket-"@ + lowercase(name)
}

/// Opens a ticket for `author_id`, named `author_name`, when the message was
/// posted in a server (`guild_id`); outside a server nothing is done.
pub fn create_ticket(guild_id: Option<u64>, author_id: u64, author_name: &str) -> (p: Option<
    TicketPlan,
>)
    ensures
        p is Some <==> guild_id is Some,
        p matches Some(p) ==> p.channel_name@ == ticket_channel_name(author_name@)
            && p.category_id == TICKET_CATEGORY_ID && p.granted_members@ == seq![
            author_id,
            TICKET_STAFF_ID,
        ],
{
    if guild_id.is_none() {
        return None;
    }
    let mut name = String::new();
    name.append("ticket-");
    let lower = to_lowercase(author_name);
    name.append(lower.as_str());
    Some(
        TicketPlan {
            channel_name: name,
            category_id: TICKET_CATEGORY_ID,
            granted_members: vec![author_id, TICKET_STAFF_ID],
        },
    )
}

/// The message posted in a new ticket channel `channel_id`.
pub fn ticket_created_message(channel_id: u64) -> (r: String)
    ensures
        r@ == "Ticket created: <#"@ + decimal(channel_id as nat) + ">"@,
{
    let mut r = String::new();
    r.append("Ticket created: <#");
    let d = decimal_string(channel_id);
    r.append(d.as_str());
    r.append(">");
    r
}

/// The message posted when the ticket channel `channel_name` could not be
/// created.
pub fn ticket_error_message(channel_name: &str) -> (r: String)
    ensures
        r@ == "error creating "@ + channel_name@ + " try again"@,
{
    let mut r = String::new();
    r.append("error creating ");
    r.append(channel_name);
    r.append(" try again");
    r
}

} // verus!
