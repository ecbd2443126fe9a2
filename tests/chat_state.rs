use yewchat::avatar::{avatar_for, avatar_from_parts};
use yewchat::bus::EventBus;
use yewchat::chat::{shows_as_image, Level, Report};
use yewchat::codec::{decode, encode, DecodeError, Envelope};
use yewchat::session::{SendError, WebsocketService};
use yewchat::text::trim;
use yewchat::{Chat, Msg, MsgTypes, Route, UserInner};

const ENDPOINT: &str = "ws://127.0.0.1:8080";

fn users_of(e: Envelope) -> Vec<String> {
    match e {
        Envelope::Users(v) => v,
        other => panic!("not a roster envelope: {:?}", other),
    }
}

#[test]
fn decode_wire_examples() {
    let u = decode(r#"{ "messageType": "users",    "dataArray": ["alice","bob"] }"#).unwrap();
    assert_eq!(u.kind(), MsgTypes::Users);
    assert_eq!(users_of(u), vec!["alice".to_string(), "bob".to_string()]);
    match decode(r#"{ "messageType": "register", "data": "alice" }"#).unwrap() {
        Envelope::Register(n) => assert_eq!(n, "alice"),
        other => panic!("{:?}", other),
    }
    match decode(r#"{ "messageType": "message",  "dataArray": ["alice", "hello"] }"#).unwrap() {
        Envelope::Message(f, b) => {
            assert_eq!(f, "alice");
            assert_eq!(b, "hello");
        }
        other => panic!("{:?}", other),
    }
}

#[test]
fn decode_users_without_array_is_empty() {
    assert!(users_of(decode(r#"{"messageType":"users"}"#).unwrap()).is_empty());
    assert!(users_of(decode(r#"{"messageType":"users","dataArray":null}"#).unwrap()).is_empty());
    assert!(users_of(decode(r#"{"messageType":"users","dataArray":[]}"#).unwrap()).is_empty());
}

#[test]
fn decode_errors() {
    assert_eq!(decode(r#"{"messageType":"bogus"}"#).unwrap_err(), DecodeError::UnknownType);
    assert_eq!(decode(r#"{"dataArray":["a","b"]}"#).unwrap_err(), DecodeError::UnknownType);
    assert_eq!(decode(r#"{"messageType":null}"#).unwrap_err(), DecodeError::UnknownType);
    assert_eq!(
        decode(r#"{"messageType":"message","dataArray":["onlyOne"]}"#).unwrap_err(),
        DecodeError::MalformedPayload
    );
    assert_eq!(
        decode(r#"{"messageType":"message","dataArray":["a","b","c"]}"#).unwrap_err(),
        DecodeError::MalformedPayload
    );
    assert_eq!(decode(r#"{"messageType":"message"}"#).unwrap_err(), DecodeError::MalformedPayload);
    assert_eq!(decode(r#"{"messageType":"register"}"#).unwrap_err(), DecodeError::MalformedPayload);
    assert_eq!(
        decode(r#"{"messageType":"users","data":"x"}"#).unwrap_err(),
        DecodeError::MalformedPayload
    );
    assert_eq!(
        decode(r#"{"messageType":"register","data":"x","dataArray":["y"]}"#).unwrap_err(),
        DecodeError::MalformedPayload
    );
    assert_eq!(decode("not a frame").unwrap_err(), DecodeError::SyntaxError);
    assert_eq!(decode(r#"{"messageType":"users""#).unwrap_err(), DecodeError::SyntaxError);
    assert_eq!(decode(r#"{"messageType":"users"} x"#).unwrap_err(), DecodeError::SyntaxError);
    assert_eq!(decode("").unwrap_err(), DecodeError::SyntaxError);
}

#[test]
fn decode_escapes() {
    match decode(r#"{"messageType":"register","data":"a\"b\\c\/d\né"}"#).unwrap() {
        Envelope::Register(n) => assert_eq!(n, "a\"b\\c/d\n\u{e9}"),
        other => panic!("{:?}", other),
    }
    match decode(r#"{"messageType":"register","data":"\u0041\u00e9\u00E9x"}"#).unwrap() {
        Envelope::Register(n) => assert_eq!(n, "A\u{e9}\u{e9}x"),
        other => panic!("{:?}", other),
    }
    assert_eq!(
        decode(r#"{"messageType":"register","data":"\ud800"}"#).unwrap_err(),
        DecodeError::SyntaxError
    );
}

#[test]
fn encode_exact_frames() {
    assert_eq!(
        encode(&Envelope::Register("alice".to_string())),
        r#"{"messageType":"register","data":"alice"}"#
    );
    assert_eq!(
        encode(&Envelope::Users(vec!["alice".to_string(), "bob".to_string()])),
        r#"{"messageType":"users","dataArray":["alice","bob"]}"#
    );
    assert_eq!(encode(&Envelope::Users(vec![])), r#"{"messageType":"users","dataArray":[]}"#);
    assert_eq!(
        encode(&Envelope::Message("alice".to_string(), "say \"hi\"\n".to_string())),
        r#"{"messageType":"message","dataArray":["alice","say \"hi\"\n"]}"#
    );
    assert_eq!(
        encode(&Envelope::Register("\u{1}".to_string())),
        r#"{"messageType":"register","data":"\u0001"}"#
    );
}

#[test]
fn round_trip_concrete_values() {
    let names = vec!["a\"b".to_string(), "\\".to_string(), "\u{1f}\t\u{8}\u{c}\r".to_string(), "é😀".to_string(), String::new()];
    let back = users_of(decode(&encode(&Envelope::Users(names.clone()))).unwrap());
    assert_eq!(back, names);
    match decode(&encode(&Envelope::Message("x".to_string(), "y.gif".to_string()))).unwrap() {
        Envelope::Message(f, b) => {
            assert_eq!(f, "x");
            assert_eq!(b, "y.gif");
        }
        other => panic!("{:?}", other),
    }
}

#[test]
fn trim_unicode_whitespace() {
    assert_eq!(trim("  a b \t\n"), "a b");
    assert_eq!(trim("\u{3000}x\u{a0}"), "x");
    assert_eq!(trim(" \n "), "");
}

#[test]
fn avatar_overrides_and_fallback() {
    assert_eq!(avatar_for("alice"), "https://example.com/alice.png");
    assert_eq!(avatar_for("  ALICE "), "https://example.com/alice.png");
    assert_eq!(avatar_for("Bob"), "https://example.com/bob.jpg");
    assert_eq!(avatar_for("carol"), "https://avatars.dicebear.com/api/identicon/carol.svg");
    assert_eq!(avatar_for(" John Doe "), "https://avatars.dicebear.com/api/identicon/John%20Doe.svg");
    assert_eq!(avatar_for("   "), "https://avatars.dicebear.com/api/identicon/.svg");
    assert_eq!(avatar_for("Carol"), "https://avatars.dicebear.com/api/identicon/Carol.svg");
}

#[test]
fn avatar_is_deterministic() {
    assert_eq!(avatar_for("Zed Ä"), avatar_for("Zed Ä"));
    assert_eq!(avatar_for(" aLiCe"), avatar_for("Alice\t"));
}

#[test]
fn avatar_from_parts_exact() {
    assert_eq!(avatar_from_parts("bob", "Bob"), "https://example.com/bob.jpg");
    assert_eq!(avatar_from_parts("x y", "x%20y"), "https://avatars.dicebear.com/api/identicon/x%20y.svg");
}

#[test]
fn create_sends_one_register_frame() {
    let mut chat = Chat::create("alice".to_string(), ENDPOINT.to_string());
    assert!(chat.users.is_empty());
    assert!(chat.messages.is_empty());
    assert!(chat.wss.is_open());
    assert_eq!(chat.wss.take_outbox(), vec![r#"{"messageType":"register","data":"alice"}"#.to_string()]);
    assert!(chat.wss.take_outbox().is_empty());
}

#[test]
fn blank_frames_change_nothing() {
    let mut chat = Chat::create("alice".to_string(), ENDPOINT.to_string());
    chat.handle_frame(r#"{"messageType":"message","dataArray":["bob","hi"]}"#);
    for f in ["", "   ", "\n\t\r ", "\u{2003}"] {
        let r = chat.handle_frame(f);
        assert_eq!(r, Report::Blank);
        assert_eq!(r.level(), Some(Level::Warn));
        assert!(!r.changed());
        assert!(chat.users.is_empty());
        assert_eq!(chat.messages.len(), 1);
    }
}

#[test]
fn roster_is_replaced_not_merged() {
    let mut chat = Chat::create("alice".to_string(), ENDPOINT.to_string());
    assert_eq!(chat.handle_frame(r#"{"messageType":"users","dataArray":["alice","bob"]}"#), Report::RosterReplaced);
    assert_eq!(chat.users.len(), 2);
    assert_eq!(
        chat.handle_frame(r#"{"messageType":"users","dataArray":["carol","Dave","carol"]}"#),
        Report::RosterReplaced
    );
    let names: Vec<&str> = chat.users.iter().map(|u| u.name.as_str()).collect();
    assert_eq!(names, vec!["carol", "Dave", "carol"]);
    assert_eq!(chat.users[1].avatar, "https://avatars.dicebear.com/api/identicon/Dave.svg");
    chat.handle_frame(r#"{"messageType":"users","dataArray":[]}"#);
    assert!(chat.users.is_empty());
}

#[test]
fn messages_append_in_order() {
    let mut chat = Chat::create("alice".to_string(), ENDPOINT.to_string());
    let frames = [
        r#"{"messageType":"message","dataArray":["a","1"]}"#,
        r#"{"messageType":"message","dataArray":["onlyOne"]}"#,
        r#"{"messageType":"message","dataArray":["b","2"]}"#,
        r#"{"messageType":"register","data":"z"}"#,
        r#"{"messageType":"message","dataArray":["a","1"]}"#,
    ];
    for f in frames {
        chat.handle_frame(f);
    }
    let log: Vec<(&str, &str)> = chat.messages.iter().map(|m| (m.from.as_str(), m.message.as_str())).collect();
    assert_eq!(log, vec![("a", "1"), ("b", "2"), ("a", "1")]);
}

#[test]
fn malformed_payload_is_one_error() {
    let mut chat = Chat::create("alice".to_string(), ENDPOINT.to_string());
    let r = chat.handle_frame(r#"{"messageType":"message","dataArray":["onlyOne"]}"#);
    assert_eq!(r, Report::Rejected(DecodeError::MalformedPayload));
    assert_eq!(r.level(), Some(Level::Error));
    assert!(chat.users.is_empty());
    assert!(chat.messages.is_empty());
}

#[test]
fn end_to_end_scenario() {
    let mut chat = Chat::create("alice".to_string(), ENDPOINT.to_string());
    let out = chat.wss.take_outbox();
    assert_eq!(out.len(), 1);
    match decode(&out[0]).unwrap() {
        Envelope::Register(n) => assert_eq!(n, "alice"),
        other => panic!("{:?}", other),
    }
    assert!(chat.update(Msg::HandleMsg(r#"{"messageType":"users","dataArray":["alice","bob"]}"#.to_string())));
    assert_eq!(chat.users.len(), 2);
    assert_eq!(chat.users[0].name, "alice");
    assert!(chat.update(Msg::HandleMsg(r#"{"messageType":"message","dataArray":["bob","hi.gif"]}"#.to_string())));
    assert_eq!(chat.messages.len(), 1);
    assert_eq!(chat.messages[0].from, "bob");
    assert_eq!(chat.messages[0].message, "hi.gif");
    assert!(shows_as_image(&chat.messages[0].message));
    assert!(!chat.update(Msg::HandleMsg(String::new())));
    assert_eq!(chat.users.len(), 2);
    assert_eq!(chat.messages.len(), 1);
    let r = chat.handle_frame(r#"{"messageType":"bogus"}"#);
    assert_eq!(r, Report::Rejected(DecodeError::UnknownType));
    assert_eq!(r.level(), Some(Level::Error));
    assert_eq!(chat.users.len(), 2);
    assert_eq!(chat.messages.len(), 1);
}

#[test]
fn submit_sends_bare_text() {
    let mut chat = Chat::create("alice".to_string(), ENDPOINT.to_string());
    chat.wss.take_outbox();
    assert!(!chat.update(Msg::SubmitMessage("hello there".to_string())));
    assert_eq!(chat.wss.take_outbox(), vec!["hello there".to_string()]);
    chat.wss.close();
    assert!(!chat.update(Msg::SubmitMessage("lost".to_string())));
    assert!(chat.wss.take_outbox().is_empty());
}

#[test]
fn send_on_closed_session_is_dropped() {
    let mut s = WebsocketService::open(ENDPOINT.to_string());
    assert_eq!(s.endpoint, ENDPOINT);
    assert_eq!(s.send("a".to_string()), Ok(()));
    s.close();
    assert!(!s.is_open());
    assert_eq!(s.send("b".to_string()), Err(SendError::SendDropped));
    assert_eq!(s.take_outbox(), vec!["a".to_string()]);
}

#[test]
fn sender_avatar_looks_up_current_roster() {
    let mut chat = Chat::create("alice".to_string(), ENDPOINT.to_string());
    chat.handle_frame(r#"{"messageType":"users","dataArray":["bob","carol"]}"#);
    assert_eq!(chat.sender_avatar("bob"), "https://example.com/bob.jpg");
    assert_eq!(chat.sender_avatar("carol"), "https://avatars.dicebear.com/api/identicon/carol.svg");
    assert_eq!(chat.sender_avatar("Bob"), "");
    assert_eq!(chat.sender_avatar("dave"), "");
}

#[test]
fn gif_bodies_show_as_images() {
    assert!(shows_as_image("cat.gif"));
    assert!(shows_as_image(".gif"));
    assert!(!shows_as_image("cat.GIF"));
    assert!(!shows_as_image("gif"));
    assert!(!shows_as_image("a.gifs"));
}

#[test]
fn bus_delivers_in_subscription_order() {
    let mut bus = EventBus::new();
    let a = bus.subscribe().unwrap();
    let b = bus.subscribe().unwrap();
    let c = bus.subscribe().unwrap();
    assert_eq!(bus.recipients(), vec![a, b, c]);
    bus.unsubscribe(b);
    assert_eq!(bus.recipients(), vec![a, c]);
    bus.unsubscribe(b);
    assert_eq!(bus.recipients(), vec![a, c]);
    let d = bus.subscribe().unwrap();
    assert_ne!(d, b);
    assert_eq!(bus.recipients(), vec![a, c, d]);
}

#[test]
fn routes_and_user() {
    assert_eq!(Route::Chat.path(), "/chat");
    assert_eq!(Route::recognize("/"), Route::Login);
    assert_eq!(Route::recognize("/about"), Route::About);
    assert_eq!(Route::recognize("/chat"), Route::Chat);
    assert_eq!(Route::recognize("/elsewhere"), Route::NotFound);
    let u = UserInner::new("alice".to_string());
    assert_eq!(u.username, "alice");
}

#[test]
fn wrong_payload_types_are_malformed() {
    assert_eq!(
        decode(r#"{"messageType":"message","dataArray":["a",2]}"#).unwrap_err(),
        DecodeError::MalformedPayload
    );
    assert_eq!(decode(r#"{"messageType":"register","data":5}"#).unwrap_err(), DecodeError::MalformedPayload);
    assert_eq!(decode(r#"{"messageType":"register","data":true}"#).unwrap_err(), DecodeError::MalformedPayload);
    assert_eq!(decode(r#"{"messageType":"users","dataArray":{}}"#).unwrap_err(), DecodeError::MalformedPayload);
    assert_eq!(decode(r#"{"messageType":"users","dataArray":"x"}"#).unwrap_err(), DecodeError::MalformedPayload);
    assert_eq!(
        decode(r#"{"messageType":"users","dataArray":[["a"]]}"#).unwrap_err(),
        DecodeError::MalformedPayload
    );
    assert_eq!(decode(r#"{"messageType":7}"#).unwrap_err(), DecodeError::UnknownType);
}

#[test]
fn unknown_fields_are_ignored() {
    let f = r#"{"ts":1,"messageType":"message","ok":true,"no":false,"meta":{"a":[1,{"b":null}],"c":-1.5e+3,"d":0.25,"e":2E7},"dataArray":["bob","hi"],"tags":[]}"#;
    match decode(f).unwrap() {
        Envelope::Message(a, b) => {
            assert_eq!(a, "bob");
            assert_eq!(b, "hi");
        }
        other => panic!("{:?}", other),
    }
    assert_eq!(users_of(decode(r#"{"messageType":"users","dataArray":["x"],"seq":12}"#).unwrap()), vec!["x".to_string()]);
}

#[test]
fn malformed_values_are_syntax_errors() {
    for f in [
        r#"{"messageType":"users","n":01}"#,
        r#"{"messageType":"users","n":1.}"#,
        r#"{"messageType":"users","n":-}"#,
        r#"{"messageType":"users","n":1e}"#,
        r#"{"messageType":"users","n":tru}"#,
        r#"{"messageType":"users","n":[1 2]}"#,
        r#"{"messageType":"users","n":{"a"}}"#,
        r#"{"messageType":"users","n":[1,]}"#,
    ] {
        assert_eq!(decode(f).unwrap_err(), DecodeError::SyntaxError, "{}", f);
    }
}

#[test]
fn surrogate_pairs_decode() {
    match decode(r#"{"messageType":"message","dataArray":["bob","hi 😀!"]}"#).unwrap() {
        Envelope::Message(_, b) => assert_eq!(b, "hi \u{1f600}!"),
        other => panic!("{:?}", other),
    }
    assert_eq!(
        decode(r#"{"messageType":"register","data":"\ud83dx"}"#).unwrap_err(),
        DecodeError::SyntaxError
    );
    assert_eq!(
        decode(r#"{"messageType":"register","data":"\ud83dA"}"#).unwrap_err(),
        DecodeError::SyntaxError
    );
    assert_eq!(
        decode(r#"{"messageType":"register","data":"\ude00"}"#).unwrap_err(),
        DecodeError::SyntaxError
    );
}

#[test]
fn frames_in_a_row_append_messages_in_order() {
    let mut chat = Chat::create("alice".to_string(), ENDPOINT.to_string());
    let frames: Vec<String> = vec![
        r#"{"messageType":"message","dataArray":["a","1"]}"#.to_string(),
        "  ".to_string(),
        r#"{"messageType":"message","dataArray":["onlyOne"]}"#.to_string(),
        r#"{"messageType":"users","dataArray":["a"]}"#.to_string(),
        r#"{"messageType":"message","dataArray":["b","2"]}"#.to_string(),
    ];
    let reports = chat.handle_frames(&frames);
    assert_eq!(
        reports,
        vec![
            Report::MessageAppended,
            Report::Blank,
            Report::Rejected(DecodeError::MalformedPayload),
            Report::RosterReplaced,
            Report::MessageAppended,
        ]
    );
    let log: Vec<(&str, &str)> = chat.messages.iter().map(|m| (m.from.as_str(), m.message.as_str())).collect();
    assert_eq!(log, vec![("a", "1"), ("b", "2")]);
    assert_eq!(chat.users.len(), 1);
}
