use blive_danmu::{BMessage, BMsg, DanmukuError, Json};

fn s(t: &str) -> Json {
    Json::Str(t.to_string())
}

fn obj(members: Vec<(&str, Json)>) -> Json {
    Json::Object(members.into_iter().map(|(k, v)| (k.to_string(), v)).collect())
}

fn arr(items: Vec<Json>) -> Json {
    Json::Array(items)
}

fn danmu_info(admin: Json, gift_flag: i64, guard: i64) -> Json {
    let mut head: Vec<Json> = (0..9).map(|_| Json::Int(0)).collect();
    head.push(Json::Int(gift_flag));
    arr(vec![
        arr(head),
        s("hello"),
        arr(vec![Json::Int(12345), s("alice"), admin]),
        Json::Int(0),
        arr(vec![Json::Int(10)]),
        Json::Int(0),
        Json::Int(0),
        Json::Int(guard),
        obj(vec![("ts", Json::Int(1700000000))]),
    ])
}

fn cmd(name: &str, data: Option<Json>, info: Option<Json>) -> BMsg {
    BMsg { cmd: name.to_string(), data, info }
}

fn gift_data(coin_type: &str) -> Json {
    obj(vec![
        ("uid", Json::Int(1)),
        ("uname", s("bob")),
        ("action", s("赠送")),
        ("giftName", s("flower")),
        ("num", Json::Int(2)),
        ("total_coin", Json::Int(2000)),
        ("coin_type", s(coin_type)),
    ])
}

#[test]
fn classify_danmu_msg_is_chat() {
    let r = BMessage::classify(cmd("DANMU_MSG", None, Some(danmu_info(Json::Int(0), 0, 3))));
    match r {
        Ok(BMessage::DANMAKU(d)) => {
            assert_eq!(d.uid, 12345);
            assert_eq!(d.username, "alice");
            assert_eq!(d.messages, "hello");
            assert_eq!(d.guard, 3);
            assert!(!d.is_admin);
            assert_eq!(d.timestamp, 1700000000);
            assert_eq!(d.user_level, 10);
            assert!(!d.is_gift);
        }
        other => panic!("unexpected {:?}", other),
    }
}

#[test]
fn classify_danmu_admin_flag_as_integer_or_string() {
    for admin in [Json::Int(1), s("1")] {
        match BMessage::classify(cmd("DANMU_MSG", None, Some(danmu_info(admin, 0, 0)))) {
            Ok(BMessage::DANMAKU(d)) => assert!(d.is_admin),
            other => panic!("unexpected {:?}", other),
        }
    }
    match BMessage::classify(cmd("DANMU_MSG", None, Some(danmu_info(s("0"), 0, 0)))) {
        Ok(BMessage::DANMAKU(d)) => assert!(!d.is_admin),
        other => panic!("unexpected {:?}", other),
    }
}

#[test]
fn classify_danmu_gift_triggered() {
    match BMessage::classify(cmd("DANMU_MSG", None, Some(danmu_info(Json::Int(0), 2, 0)))) {
        Ok(BMessage::DANMAKU(d)) => assert!(d.is_gift),
        other => panic!("unexpected {:?}", other),
    }
}

#[test]
fn classify_danmu_missing_timestamp_is_malformed() {
    let mut info = danmu_info(Json::Int(0), 0, 0);
    if let Json::Array(items) = &mut info {
        items.pop();
        items.push(obj(vec![("other", Json::Int(1))]));
    }
    let r = BMessage::classify(cmd("DANMU_MSG", None, Some(info)));
    assert_eq!(r, Err(DanmukuError::MalformedCommand));
}

#[test]
fn classify_danmu_without_info_is_malformed() {
    let r = BMessage::classify(cmd("DANMU_MSG", Some(obj(vec![])), None));
    assert_eq!(r, Err(DanmukuError::MalformedCommand));
}

#[test]
fn classify_danmu_mistyped_text_is_malformed() {
    let mut info = danmu_info(Json::Int(0), 0, 0);
    if let Json::Array(items) = &mut info {
        items[1] = Json::Int(5);
    }
    let r = BMessage::classify(cmd("DANMU_MSG", None, Some(info)));
    assert_eq!(r, Err(DanmukuError::MalformedCommand));
}

#[test]
fn classify_send_gift_silver_has_no_value() {
    match BMessage::classify(cmd("SEND_GIFT", Some(gift_data("silver")), None)) {
        Ok(BMessage::GIFT(g)) => {
            assert_eq!(g.value, 0);
            assert_eq!(g.amount, 2);
            assert_eq!(g.uid, 1);
            assert_eq!(g.username, "bob");
            assert_eq!(g.action, "赠送");
            assert_eq!(g.gift, "flower");
            assert_eq!(g.guard_type, 0);
        }
        other => panic!("unexpected {:?}", other),
    }
}

#[test]
fn classify_send_gift_gold_value_in_thousandths() {
    match BMessage::classify(cmd("SEND_GIFT", Some(gift_data("gold")), None)) {
        Ok(BMessage::GIFT(g)) => {
            assert_eq!(g.value, 2);
            assert_eq!(g.amount, 2);
        }
        other => panic!("unexpected {:?}", other),
    }
}

#[test]
fn classify_send_gift_value_rounds_toward_zero() {
    let mut data = gift_data("gold");
    if let Json::Object(members) = &mut data {
        members[5].1 = Json::Int(-2500);
    }
    match BMessage::classify(cmd("SEND_GIFT", Some(data), None)) {
        Ok(BMessage::GIFT(g)) => assert_eq!(g.value, -2),
        other => panic!("unexpected {:?}", other),
    }
}

#[test]
fn classify_send_gift_missing_field_is_malformed() {
    let data = obj(vec![("uid", Json::Int(1)), ("uname", s("bob"))]);
    let r = BMessage::classify(cmd("SEND_GIFT", Some(data), None));
    assert_eq!(r, Err(DanmukuError::MalformedCommand));
}

#[test]
fn classify_guard_buy_is_purchase() {
    let data = obj(vec![
        ("uid", Json::Int(7)),
        ("username", s("carol")),
        ("gift_name", s("舰长")),
        ("num", Json::Int(1)),
        ("price", Json::Int(198000)),
        ("guard_level", Json::Int(3)),
    ]);
    match BMessage::classify(cmd("GUARD_BUY", Some(data), None)) {
        Ok(BMessage::GIFT(g)) => {
            assert_eq!(g.uid, 7);
            assert_eq!(g.username, "carol");
            assert_eq!(g.action, "购买");
            assert_eq!(g.gift, "舰长");
            assert_eq!(g.amount, 1);
            assert_eq!(g.value, 198);
            assert_eq!(g.guard_type, 3);
        }
        other => panic!("unexpected {:?}", other),
    }
}

fn super_chat_data(extra: Vec<(&str, Json)>) -> Json {
    let mut members = vec![
        ("uid", Json::Int(42)),
        ("user_info", obj(vec![("face", s("http://face")), ("uname", s("dave"))])),
        ("message", s("こんにちは")),
        ("price", Json::Int(30)),
    ];
    members.extend(extra);
    obj(members)
}

#[test]
fn classify_super_chat_with_translation() {
    let data = super_chat_data(vec![("message_trans", s("hello"))]);
    match BMessage::classify(cmd("SUPER_CHAT_MESSAGE", Some(data), None)) {
        Ok(BMessage::SuperChat(c)) => {
            assert_eq!(c.uid, 42);
            assert_eq!(c.user_info.uname, "dave");
            assert_eq!(c.user_info.face, "http://face");
            assert_eq!(c.message, "こんにちは");
            assert_eq!(c.message_trans, "hello");
            assert_eq!(c.price, 30);
        }
        other => panic!("unexpected {:?}", other),
    }
}

#[test]
fn classify_super_chat_older_translation_key() {
    let data = super_chat_data(vec![("message_jpn", s("hi"))]);
    match BMessage::classify(cmd("SUPER_CHAT_MESSAGE", Some(data), None)) {
        Ok(BMessage::SuperChat(c)) => assert_eq!(c.message_trans, "hi"),
        other => panic!("unexpected {:?}", other),
    }
}

#[test]
fn classify_super_chat_without_translation_is_empty() {
    match BMessage::classify(cmd("SUPER_CHAT_MESSAGE", Some(super_chat_data(vec![])), None)) {
        Ok(BMessage::SuperChat(c)) => assert_eq!(c.message_trans, ""),
        other => panic!("unexpected {:?}", other),
    }
}

#[test]
fn classify_super_chat_without_price_is_malformed() {
    let data = obj(vec![
        ("uid", Json::Int(42)),
        ("user_info", obj(vec![("uname", s("dave"))])),
        ("message", s("x")),
    ]);
    let r = BMessage::classify(cmd("SUPER_CHAT_MESSAGE", Some(data), None));
    assert_eq!(r, Err(DanmukuError::MalformedCommand));
}

#[test]
fn classify_room_rank_is_generic() {
    let data = obj(vec![("rank_desc", s("小时榜 10"))]);
    let r = BMessage::classify(cmd("ROOM_RANK", Some(data), None));
    match r {
        Ok(BMessage::BMSG(m)) => {
            assert_eq!(m.cmd, "ROOM_RANK");
            assert_eq!(m.data, Some(obj(vec![("rank_desc", s("小时榜 10"))])));
            assert_eq!(m.info, None);
        }
        other => panic!("unexpected {:?}", other),
    }
}

#[test]
fn classify_name_match_is_case_sensitive() {
    let r = BMessage::classify(cmd("danmu_msg", None, None));
    assert!(matches!(r, Ok(BMessage::BMSG(_))));
}
