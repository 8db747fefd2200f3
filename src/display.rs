//! Which events a room viewer shows, and how it marks their senders.
use vstd::prelude::*;

use crate::json::{field, str_of};
use crate::msgs::{BMessage, BMsg, Danmaku};

verus! {

/// The colour a viewer gives the name of a chat message's sender.
#[derive(Debug, Clone, Copy, PartialEq, Eq, Structural)]
pub enum NameColour {
    Red,
    Blue,
    Green,
}

/// Room admins are red, guard members blue, everyone else green.
pub fn user_color(dan: &Danmaku) -> (r: NameColour)
    ensures
        r == (if dan.is_admin {
            NameColour::Red
        } else if dan.guard > 0 {
            NameColour::Blue
        } else {
            NameColour::Green
        }),
{
    if dan.is_admin {
        NameColour::Red
    } else if dan.guard > 0 {
        NameColour::Blue
    } else {
        NameColour::Green
    }
}

/// The leaderboard text of a `ROOM_RANK` command.
pub open spec fn rank_desc_of(msg: BMsg) -> Option<Seq<char>> {
    if msg.cmd@ == "ROOM_RANK"@ {
        str_of(field(msg.data, "rank_desc"@))
    } else {
        None
    }
}

/// The leaderboard banner that a command carries: the `rank_desc` text of a
/// `ROOM_RANK` command, and nothing for any other command.
pub fn rank_banner(msg: &BMsg) -> (r: Option<String>)
    ensures
        r matches Some(s) ==> rank_desc_of(*msg) == Some(s@),
        r is None ==> rank_desc_of(*msg) is None,
{
    if msg.cmd == String::from_str("ROOM_RANK") {
        match &msg.data {
            Some(data) => data.str_field(&String::from_str("rank_desc")),
            None => None,
        }
    } else {
        None
    }
}

/// The name of the cheapest gift, which viewers leave out.
pub open spec fn cheap_gift() -> Seq<char> {
    "辣条"@
}

/// Whether a viewer shows the event: chat messages unless a gift sent them,
/// gifts but the cheapest, every paid message, and of the other commands only
/// leaderboard banners.
pub open spec fn shown(msg: BMessage) -> bool {
    match msg {
        BMessage::DANMAKU(d) => !d.is_gift,
        BMessage::GIFT(g) => g.gift@ != cheap_gift(),
        BMessage::SuperChat(_) => true,
        BMessage::BMSG(m) => rank_desc_of(m) is Some,
    }
}

/// Whether a viewer shows the event; see `shown`.
pub fn is_shown(msg: &BMessage) -> (r: bool)
    ensures
        r == shown(*msg),
{
    match msg {
        BMessage::DANMAKU(d) => !d.is_gift,
        BMessage::GIFT(g) => !(g.gift == String::from_str("辣条")),
        BMessage::SuperChat(_) => true,
        BMessage::BMSG(m) => rank_banner(m).is_some(),
    }
}

} // verus!
