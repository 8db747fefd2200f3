//! Room commands and the events they are classified into.
use vstd::prelude::*;

use crate::error::DanmukuError;
use crate::json::{field, idx, int_of, last_of, str_of, Json};

verus! {

/// A chat message.
#[derive(Debug, PartialEq, Eq)]
pub struct Danmaku {
    pub uid: i64,
    pub username: String,
    pub messages: String,
    pub guard: i64,
    pub is_admin: bool,
    pub timestamp: i64,
    pub user_level: i64,
    pub is_gift: bool,
}

/// A gift, or the purchase of a guard membership.
#[derive(Debug, PartialEq, Eq)]
pub struct Gift {
    pub uid: i64,
    pub username: String,
    pub action: String,
    pub gift: String,
    pub amount: i64,
    pub value: i64,
    pub guard_type: i64,
}

/// The sender of a paid message.
#[derive(Debug, PartialEq, Eq)]
pub struct UserInfo {
    pub face: String,
    pub uname: String,
}

/// A paid, highlighted chat message.
#[derive(Debug, PartialEq, Eq)]
pub struct SuperChat {
    pub uid: i64,
    pub user_info: UserInfo,
    pub message: String,
    pub message_trans: String,
    pub price: i64,
}

/// A room command as it arrives: its name and its two optional payloads.
#[derive(Debug, PartialEq, Eq)]
pub struct BMsg {
    pub cmd: String,
    pub data: Option<Json>,
    pub info: Option<Json>,
}

/// What a room command means.
#[derive(Debug, PartialEq, Eq)]
#[non_exhaustive]
pub enum BMessage {
    DANMAKU(Danmaku),
    GIFT(Gift),
    SuperChat(SuperChat),
    /// Any other command, left whole for the caller.
    BMSG(BMsg),
}

/// What a chat message is, its texts as character sequences.
pub struct DanmakuView {
    pub uid: i64,
    pub username: Seq<char>,
    pub messages: Seq<char>,
    pub guard: i64,
    pub is_admin: bool,
    pub timestamp: i64,
    pub user_level: i64,
    pub is_gift: bool,
}

/// What a gift is, its texts as character sequences.
pub struct GiftView {
    pub uid: i64,
    pub username: Seq<char>,
    pub action: Seq<char>,
    pub gift: Seq<char>,
    pub amount: i64,
    pub value: i64,
    pub guard_type: i64,
}

/// What a paid message is, its sender's fields flattened into it.
pub struct SuperChatView {
    pub uid: i64,
    pub face: Seq<char>,
    pub uname: Seq<char>,
    pub message: Seq<char>,
    pub message_trans: Seq<char>,
    pub price: i64,
}

/// What an event is.
pub enum BMessageView {
    DANMAKU(DanmakuView),
    GIFT(GiftView),
    SuperChat(SuperChatView),
    BMSG(BMsg),
}

impl View for Danmaku {
    type V = DanmakuView;

    open spec fn view(&self) -> DanmakuView {
        DanmakuView {
            uid: self.uid,
            username: self.username@,
            messages: self.messages@,
            guard: self.guard,
            is_admin: self.is_admin,
            timestamp: self.timestamp,
            user_level: self.user_level,
            is_gift: self.is_gift,
        }
    }
}

impl View for Gift {
    type V = GiftView;

    open spec fn view(&self) -> GiftView {
        GiftView {
            uid: self.uid,
            username: self.username@,
            action: self.action@,
            gift: self.gift@,
            amount: self.amount,
            value: self.value,
            guard_type: self.guard_type,
        }
    }
}

impl View for SuperChat {
    type V = SuperChatView;

    open spec fn view(&self) -> SuperChatView {
        SuperChatView {
            uid: self.uid,
            face: self.user_info.face@,
            uname: self.user_info.uname@,
            message: self.message@,
            message_trans: self.message_trans@,
            price: self.price,
        }
    }
}

impl View for BMessage {
    type V = BMessageView;

    open spec fn view(&self) -> BMessageView {
        match self {
            BMessage::DANMAKU(d) => BMessageView::DANMAKU(d@),
            BMessage::GIFT(g) => BMessageView::GIFT(g@),
            BMessage::SuperChat(s) => BMessageView::SuperChat(s@),
            BMessage::BMSG(m) => BMessageView::BMSG(*m),
        }
    }
}

/// The economic value of `coins`: thousandths dropped, rounding toward zero
/// as integer division does.
pub open spec fn thousandths(coins: i64) -> i64 {
    if coins >= 0 {
        (coins / 1000) as i64
    } else {
        -((-coins) / 1000) as i64
    }
}

/// The admin flag: the integer one or the string "1" mean yes, any other
/// integer or string no; anything else is not a flag.
pub open spec fn admin_flag(j: Option<Json>) -> Option<bool> {
    match j {
        Some(Json::Int(i)) => Some(i == 1),
        Some(Json::Str(s)) => Some(s@ == "1"@),
        _ => None,
    }
}

/// The chat message that the `info` array of a `DANMU_MSG` command describes.
pub open spec fn danmaku_of(info: Option<Json>) -> Option<DanmakuView> {
    let user = idx(info, 2);
    let uid = int_of(idx(user, 0));
    let username = str_of(idx(user, 1));
    let admin = admin_flag(idx(user, 2));
    let text = str_of(idx(info, 1));
    let guard = int_of(idx(info, 7));
    let level = int_of(idx(idx(info, 4), 0));
    let gift = int_of(idx(idx(info, 0), 9));
    let ts = int_of(field(last_of(info), "ts"@));
    if uid is Some && username is Some && admin is Some && text is Some && guard is Some
        && level is Some && gift is Some && ts is Some {
        Some(
            DanmakuView {
                uid: uid.unwrap(),
                username: username.unwrap(),
                messages: text.unwrap(),
                guard: guard.unwrap(),
                is_admin: admin.unwrap(),
                timestamp: ts.unwrap(),
                user_level: level.unwrap(),
                is_gift: gift.unwrap() > 0,
            },
        )
    } else {
        None
    }
}

/// The gift that the `data` object of a `SEND_GIFT` command describes: its
/// value is the thousandths of `total_coin` when `coin_type` is "gold", and
/// zero for any other coin type.
pub open spec fn gift_of(data: Option<Json>) -> Option<GiftView> {
    let uid = int_of(field(data, "uid"@));
    let uname = str_of(field(data, "uname"@));
    let action = str_of(field(data, "action"@));
    let name = str_of(field(data, "giftName"@));
    let num = int_of(field(data, "num"@));
    let coins = int_of(field(data, "total_coin"@));
    let coin_type = field(data, "coin_type"@);
    if uid is Some && uname is Some && action is Some && name is Some && num is Some
        && coins is Some && coin_type is Some {
        Some(
            GiftView {
                uid: uid.unwrap(),
                username: uname.unwrap(),
                action: action.unwrap(),
                gift: name.unwrap(),
                amount: num.unwrap(),
                value: if str_of(coin_type) == Some("gold"@) {
                    thousandths(coins.unwrap())
                } else {
                    0
                },
                guard_type: 0,
            },
        )
    } else {
        None
    }
}

/// The action label of a guard purchase.
pub open spec fn purchase_label() -> Seq<char> {
    "购买"@
}

/// The purchase that the `data` object of a `GUARD_BUY` command describes.
pub open spec fn guard_of(data: Option<Json>) -> Option<GiftView> {
    let uid = int_of(field(data, "uid"@));
    let uname = str_of(field(data, "username"@));
    let name = str_of(field(data, "gift_name"@));
    let num = int_of(field(data, "num"@));
    let price = int_of(field(data, "price"@));
    let level = int_of(field(data, "guard_level"@));
    if uid is Some && uname is Some && name is Some && num is Some && price is Some
        && level is Some {
        Some(
            GiftView {
                uid: uid.unwrap(),
                username: uname.unwrap(),
                action: purchase_label(),
                gift: name.unwrap(),
                amount: num.unwrap(),
                value: thousandths(price.unwrap()),
                guard_type: level.unwrap(),
            },
        )
    } else {
        None
    }
}

/// The text of a string, or the empty text.
pub open spec fn str_or_empty(s: Option<Seq<char>>) -> Seq<char> {
    match s {
        Some(t) => t,
        None => Seq::empty(),
    }
}

/// The translation of a paid message: `message_trans`, else the older
/// `message_jpn`, else empty.
pub open spec fn translation_of(data: Option<Json>) -> Seq<char> {
    match str_of(field(data, "message_trans"@)) {
        Some(t) => t,
        None => str_or_empty(str_of(field(data, "message_jpn"@))),
    }
}

/// The paid message that the `data` object of a `SUPER_CHAT_MESSAGE` command
/// describes; the sender's avatar is empty where it is not given.
pub open spec fn super_chat_of(data: Option<Json>) -> Option<SuperChatView> {
    let uid = int_of(field(data, "uid"@));
    let user = field(data, "user_info"@);
    let uname = str_of(field(user, "uname"@));
    let message = str_of(field(data, "message"@));
    let price = int_of(field(data, "price"@));
    if uid is Some && uname is Some && message is Some && price is Some {
        Some(
            SuperChatView {
                uid: uid.unwrap(),
                face: str_or_empty(str_of(field(user, "face"@))),
                uname: uname.unwrap(),
                message: message.unwrap(),
                message_trans: translation_of(data),
                price: price.unwrap(),
            },
        )
    } else {
        None
    }
}

/// What a command means, by its name: the four recognised names give their
/// event or `MalformedCommand`; any other name gives the command itself.
pub open spec fn classify_spec(msg: BMsg) -> Result<BMessageView, DanmukuError> {
    if msg.cmd@ == "DANMU_MSG"@ {
        match danmaku_of(msg.info) {
            Some(d) => Ok(BMessageView::DANMAKU(d)),
            None => Err(DanmukuError::MalformedCommand),
        }
    } else if msg.cmd@ == "SEND_GIFT"@ {
        match gift_of(msg.data) {
            Some(g) => Ok(BMessageView::GIFT(g)),
            None => Err(DanmukuError::MalformedCommand),
        }
    } else if msg.cmd@ == "GUARD_BUY"@ {
        match guard_of(msg.data) {
            Some(g) => Ok(BMessageView::GIFT(g)),
            None => Err(DanmukuError::MalformedCommand),
        }
    } else if msg.cmd@ == "SUPER_CHAT_MESSAGE"@ {
        match super_chat_of(msg.data) {
            Some(s) => Ok(BMessageView::SuperChat(s)),
            None => Err(DanmukuError::MalformedCommand),
        }
    } else {
        Ok(BMessageView::BMSG(msg))
    }
}

/// The view of a classification result.
pub open spec fn classified_view(r: Result<BMessage, DanmukuError>) -> Result<BMessageView, DanmukuError> {
    match r {
        Ok(m) => Ok(m@),
        Err(e) => Err(e),
    }
}

/// `coins / 1000`, computed without overflow for every `i64`.
fn thousandths_of(coins: i64) -> (r: i64)
    ensures
        r == thousandths(coins),
{
    if coins >= 0 {
        coins / 1000
    } else {
        let magnitude: i128 = -(coins as i128);
        -((magnitude / 1000) as i64)
    }
}

fn admin_from(a: &Json) -> (r: Option<bool>)
    ensures
        r == admin_flag(Some(*a)),
{
    match a {
        Json::Int(i) => Some(*i == 1),
        Json::Str(s) => {
            let one = String::from_str("1");
            Some(*s == one)
        },
        _ => None,
    }
}

fn danmaku_from(info: &Json) -> (r: Option<Danmaku>)
    ensures
        r matches Some(d) ==> danmaku_of(Some(*info)) == Some(d@),
        r is None ==> danmaku_of(Some(*info)) is None,
{
    let user = match info.at(2) {
        Some(u) => u,
        None => return None,
    };
    let uid = match user.int_at(0) {
        Some(v) => v,
        None => return None,
    };
    let username = match user.str_at(1) {
        Some(v) => v,
        None => return None,
    };
    let is_admin = match user.at(2) {
        Some(a) => match admin_from(a) {
            Some(v) => v,
            None => return None,
        },
        None => return None,
    };
    let messages = match info.str_at(1) {
        Some(v) => v,
        None => return None,
    };
    let guard = match info.int_at(7) {
        Some(v) => v,
        None => return None,
    };
    let user_level = match info.at(4) {
        Some(l) => match l.int_at(0) {
            Some(v) => v,
            None => return None,
        },
        None => return None,
    };
    let gift_flag = match info.at(0) {
        Some(g) => match g.int_at(9) {
            Some(v) => v,
            None => return None,
        },
        None => return None,
    };
    let ts_key = String::from_str("ts");
    let timestamp = match info.last() {
        Some(l) => match l.int_field(&ts_key) {
            Some(v) => v,
            None => return None,
        },
        None => return None,
    };
    Some(
        Danmaku {
            uid,
            username,
            messages,
            guard,
            is_admin,
            timestamp,
            user_level,
            is_gift: gift_flag > 0,
        },
    )
}

fn gift_from(data: &Json) -> (r: Option<Gift>)
    ensures
        r matches Some(g) ==> gift_of(Some(*data)) == Some(g@),
        r is None ==> gift_of(Some(*data)) is None,
{
    let uid = match data.int_field(&String::from_str("uid")) {
        Some(v) => v,
        None => return None,
    };
    let username = match data.str_field(&String::from_str("uname")) {
        Some(v) => v,
        None => return None,
    };
    let action = match data.str_field(&String::from_str("action")) {
        Some(v) => v,
        None => return None,
    };
    let gift = match data.str_field(&String::from_str("giftName")) {
        Some(v) => v,
        None => return None,
    };
    let amount = match data.int_field(&String::from_str("num")) {
        Some(v) => v,
        None => return None,
    };
    let coins = match data.int_field(&String::from_str("total_coin")) {
        Some(v) => v,
        None => return None,
    };
    let coin_type = match data.get(&String::from_str("coin_type")) {
        Some(c) => c,
        None => return None,
    };
    let gold = String::from_str("gold");
    let is_gold = match coin_type.as_string() {
        Some(t) => t == gold,
        None => false,
    };
    let value = if is_gold {
        thousandths_of(coins)
    } else {
        0
    };
    Some(Gift { uid, username, action, gift, amount, value, guard_type: 0 })
}

fn guard_from(data: &Json) -> (r: Option<Gift>)
    ensures
        r matches Some(g) ==> guard_of(Some(*data)) == Some(g@),
        r is None ==> guard_of(Some(*data)) is None,
{
    let uid = match data.int_field(&String::from_str("uid")) {
        Some(v) => v,
        None => return None,
    };
    let username = match data.str_field(&String::from_str("username")) {
        Some(v) => v,
        None => return None,
    };
    let gift = match data.str_field(&String::from_str("gift_name")) {
        Some(v) => v,
        None => return None,
    };
    let amount = match data.int_field(&String::from_str("num")) {
        Some(v) => v,
        None => return None,
    };
    let price = match data.int_field(&String::from_str("price")) {
        Some(v) => v,
        None => return None,
    };
    let guard_type = match data.int_field(&String::from_str("guard_level")) {
        Some(v) => v,
        None => return None,
    };
    Some(
        Gift {
            uid,
            username,
            action: String::from_str("购买"),
            gift,
            amount,
            value: thousandths_of(price),
            guard_type,
        },
    )
}

fn super_chat_from(data: &Json) -> (r: Option<SuperChat>)
    ensures
        r matches Some(c) ==> super_chat_of(Some(*data)) == Some(c@),
        r is None ==> super_chat_of(Some(*data)) is None,
{
    let uid = match data.int_field(&String::from_str("uid")) {
        Some(v) => v,
        None => return None,
    };
    let user = match data.get(&String::from_str("user_info")) {
        Some(u) => u,
        None => return None,
    };
    let uname = match user.str_field(&String::from_str("uname")) {
        Some(v) => v,
        None => return None,
    };
    let message = match data.str_field(&String::from_str("message")) {
        Some(v) => v,
        None => return None,
    };
    let price = match data.int_field(&String::from_str("price")) {
        Some(v) => v,
        None => return None,
    };
    let face = match user.str_field(&String::from_str("face")) {
        Some(v) => v,
        None => String::new(),
    };
    let message_trans = match data.str_field(&String::from_str("message_trans")) {
        Some(v) => v,
        None => match data.str_field(&String::from_str("message_jpn")) {
            Some(v) => v,
            None => String::new(),
        },
    };
    Some(
        SuperChat {
            uid,
            user_info: UserInfo { face, uname },
            message,
            message_trans,
            price,
        },
    )
}

impl BMessage {
    /// Classifies a command by its name (exact, case-sensitive):
    /// `DANMU_MSG` gives a chat message read from `info`; `SEND_GIFT` and
    /// `GUARD_BUY` give a gift read from `data`; `SUPER_CHAT_MESSAGE` gives a
    /// paid message read from `data`; each fails with `MalformedCommand`
    /// where a field it needs is missing or of the wrong type. Any other
    /// name gives the command itself, never an error.
    pub fn classify(msg: BMsg) -> (r: Result<BMessage, DanmukuError>)
        ensures
            classified_view(r) == classify_spec(msg),
    {
        let malformed = DanmukuError::MalformedCommand;
        if msg.cmd == String::from_str("DANMU_MSG") {
            match &msg.info {
                Some(info) => match danmaku_from(info) {
                    Some(d) => Ok(BMessage::DANMAKU(d)),
                    None => Err(malformed),
                },
                None => Err(malformed),
            }
        } else if msg.cmd == String::from_str("SEND_GIFT") {
            match &msg.data {
                Some(data) => match gift_from(data) {
                    Some(g) => Ok(BMessage::GIFT(g)),
                    None => Err(malformed),
                },
                None => Err(malformed),
            }
        } else if msg.cmd == String::from_str("GUARD_BUY") {
            match &msg.data {
                Some(data) => match guard_from(data) {
                    Some(g) => Ok(BMessage::GIFT(g)),
                    None => Err(malformed),
                },
                None => Err(malformed),
            }
        } else if msg.cmd == String::from_str("SUPER_CHAT_MESSAGE") {
            match &msg.data {
                Some(data) => match super_chat_from(data) {
                    Some(c) => Ok(BMessage::SuperChat(c)),
                    None => Err(malformed),
                },
                None => Err(malformed),
            }
        } else {
            Ok(BMessage::BMSG(msg))
        }
    }
}

} // verus!
