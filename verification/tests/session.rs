use aparte::client::{handle_message, handle_stanza, main_loop, reconnect_delay, Action, Packet};
use aparte::command::Command;
use aparte::event::{Event, Key};
use aparte::input::{Cursor, Input};
use aparte::iq::PendingIqs;
use aparte::jid::BareJid;
use aparte::message::Message;
use aparte::session::Aparte;
use aparte::stream::{EventStream, IterWrapper, Polled, Received, TermionEvent, TermionEventStream};
use std::convert::TryFrom;
use std::str::FromStr;
use xmpp_parsers::presence::{Presence, Show};
use xmpp_parsers::Element;

fn me() -> BareJid {
    BareJid { node: Some("me".to_string()), domain: "x".to_string() }
}

fn typed(text: &str) -> Input {
    let mut input = Input::new();
    for c in text.chars() {
        input.key(c);
    }
    input
}

fn element(xml: &str) -> Element {
    Element::from_str(xml).unwrap()
}

#[test]
fn event_ordering() {
    let mut aparte = Aparte::new();
    aparte.schedule(Event::Win("first".to_string()));
    aparte.schedule(Event::Disconnected);
    aparte.schedule(Event::Win("third".to_string()));
    assert!(matches!(aparte.next_event(), Some(Event::Win(name)) if name == "first"));
    aparte.schedule(Event::Win("fourth".to_string()));
    assert!(matches!(aparte.next_event(), Some(Event::Disconnected)));
    assert!(matches!(aparte.next_event(), Some(Event::Win(name)) if name == "third"));
    assert!(matches!(aparte.next_event(), Some(Event::Win(name)) if name == "fourth"));
    assert!(aparte.next_event().is_none());
    assert!(aparte.next_event().is_none());
}

#[test]
fn stanzas_leave_in_the_order_in_which_they_were_sent() {
    let mut aparte = Aparte::new();
    aparte.send(element("<a xmlns='x'/>"));
    aparte.send(element("<b xmlns='x'/>"));
    assert_eq!(aparte.next_stanza().unwrap().name(), "a");
    assert_eq!(aparte.next_stanza().unwrap().name(), "b");
    assert!(aparte.next_stanza().is_none());
}

#[test]
fn a_note_is_scheduled_as_a_message_of_no_account() {
    let mut aparte = Aparte::new();
    aparte.log("hello".to_string());
    match aparte.next_event() {
        Some(Event::Message(None, Message::Log(note))) => {
            assert_eq!(note.body, "hello");
            assert!(note.timestamp > 1_000_000_000);
        }
        other => panic!("unexpected {:?}", other),
    }
}

#[test]
fn the_account_and_the_commands() {
    let mut aparte = Aparte::new();
    assert_eq!(aparte.current_account(), None);
    aparte.set_account(Some(me()));
    assert_eq!(aparte.current_account(), Some(me()));
    aparte.add_command("win");
    aparte.add_command("win");
    assert!(aparte.has_command("win"));
    assert!(!aparte.has_command("Win"));
}

#[test]
fn iq_correlation() {
    let mut iqs = PendingIqs::new();
    assert!(iqs.register("a", 10));
    assert!(iqs.register("b", 11));
    assert!(!iqs.register("a", 12));
    assert!(iqs.is_pending("a"));
    assert!(iqs.resolve("a"));
    assert!(!iqs.resolve("a"));
    assert!(!iqs.is_pending("a"));
    assert!(!iqs.register("a", 13));
    assert!(!iqs.resolve("c"));
    assert!(iqs.is_pending("b"));
}

#[test]
fn what_waits_is_given_up_once() {
    let mut iqs = PendingIqs::new();
    assert!(iqs.register("a", 0));
    assert!(iqs.register("b", 0));
    assert!(iqs.resolve("a"));
    assert_eq!(iqs.cancel_all(), vec!["b".to_string()]);
    assert!(iqs.cancel_all().is_empty());
    assert!(!iqs.resolve("b"));
    assert!(!iqs.register("b", 1));
}

#[test]
fn a_request_waits_thirty_seconds() {
    let mut iqs = PendingIqs::new();
    assert!(iqs.register("a", 100));
    assert!(iqs.register("b", 105));
    assert!(iqs.register("c", 101));
    assert!(iqs.expire(129).is_empty());
    assert_eq!(iqs.expire(130), vec!["a".to_string()]);
    assert!(!iqs.is_pending("a"));
    assert!(iqs.is_pending("b") && iqs.is_pending("c"));
    assert!(iqs.resolve("b"));
    assert_eq!(iqs.expire(1000), vec!["c".to_string()]);
    assert!(iqs.expire(1000).is_empty());
    assert!(iqs.register("d", i64::MAX));
    assert!(iqs.expire(i64::MAX).is_empty());
    assert!(iqs.register("e", i64::MIN));
    assert_eq!(iqs.expire(i64::MIN + 30), vec!["e".to_string()]);
    assert!(iqs.register("f", i64::MAX - 30));
    assert_eq!(iqs.expire(i64::MAX), vec!["f".to_string()]);
    assert!(iqs.is_pending("d"));
}

#[test]
fn cursor_boundary() {
    let mut input = typed("aé漢😀b");
    assert_eq!(input.cursor, Cursor { index: 5 });
    assert_eq!(input.cursor_byte(), 11);
    let text = input.text();
    let mut boundaries = vec![11, 10, 6, 3, 1, 0, 0];
    boundaries.reverse();
    while let Some(expected) = boundaries.pop() {
        assert_eq!(input.cursor_byte(), expected);
        assert!(text.is_char_boundary(input.cursor_byte()));
        input.left();
    }
    input.right();
    input.right();
    assert_eq!(input.cursor_byte(), 3);
    input.delete();
    assert_eq!(input.text(), "aé😀b");
    assert_eq!(input.cursor_byte(), 3);
    input.backspace();
    assert_eq!(input.text(), "a😀b");
    assert_eq!(input.cursor_byte(), 1);
    input.end();
    assert_eq!(input.cursor_byte(), 6);
    input.home();
    assert_eq!(input.cursor_byte(), 0);
}

#[test]
fn the_keys_of_the_line_editor() {
    let mut input = typed("one two  ");
    input.backward_delete_word();
    assert_eq!(input.text(), "one ");
    assert_eq!(input.cursor, Cursor { index: 4 });
    input.backward_delete_word();
    assert_eq!(input.text(), "");
    input.backward_delete_word();
    assert_eq!(input.text(), "");
    let mut input = typed("abcdef");
    input.left();
    input.left();
    input.delete_from_cursor_to_start();
    assert_eq!(input.text(), "ef");
    assert_eq!(input.cursor, Cursor { index: 0 });
    input.right();
    input.delete_from_cursor_to_end();
    assert_eq!(input.text(), "e");
    input.right();
    input.right();
    assert_eq!(input.cursor, Cursor { index: 1 });
    input.delete();
    assert_eq!(input.text(), "e");
    input.home();
    input.backspace();
    input.left();
    assert_eq!(input.text(), "e");
    input.key('x');
    assert_eq!(input.text(), "xe");
    assert_eq!(input.cursor, Cursor { index: 1 });
}

#[test]
fn the_history_of_the_line_editor() {
    let mut input = typed("one");
    assert_eq!(input.validate(), ("one".to_string(), false));
    assert_eq!(input.text(), "");
    assert_eq!(input.validate(), (String::new(), false));
    for c in "two".chars() {
        input.key(c);
    }
    input.validate();
    assert_eq!(input.history, vec!["one".to_string(), "two".to_string()]);
    assert_eq!(input.history_index, 2);
    input.next();
    assert_eq!(input.text(), "");
    input.previous();
    assert_eq!(input.text(), "two");
    assert_eq!(input.cursor, Cursor { index: 3 });
    input.previous();
    assert_eq!(input.text(), "one");
    input.previous();
    assert_eq!(input.text(), "one");
    input.next();
    assert_eq!(input.text(), "two");
    input.next();
    assert_eq!(input.text(), "");
    assert_eq!(input.history_index, 2);
}

#[test]
fn a_masked_line_is_not_kept() {
    let mut input = typed("");
    input.password();
    for c in "secret".chars() {
        input.key(c);
    }
    assert_eq!(input.validate(), ("secret".to_string(), true));
    assert!(input.history.is_empty());
    assert!(!input.password);
    input.accept("/win é", Cursor { index: 6 });
    assert_eq!(input.text(), "/win é");
    assert_eq!(input.cursor_byte(), 7);
}

#[test]
fn the_editor_reacts_to_its_keys_only() {
    let mut input = typed("ab");
    let keys = [
        (Key::Ctrl('a'), 0),
        (Key::Ctrl('f'), 1),
        (Key::Ctrl('e'), 2),
        (Key::Ctrl('b'), 1),
        (Key::Home, 0),
        (Key::End, 2),
        (Key::Left, 1),
        (Key::Right, 2),
        (Key::PageUp, 2),
        (Key::Ctrl('x'), 2),
        (Key::Esc, 2),
    ];
    for (key, index) in keys {
        input.event(&Event::Key(key));
        assert_eq!(input.cursor, Cursor { index }, "{:?}", key);
    }
    input.event(&Event::Key(Key::Ctrl('h')));
    assert_eq!(input.text(), "a");
    input.event(&Event::Key(Key::Char('é')));
    input.event(&Event::Key(Key::Ctrl('u')));
    assert_eq!(input.text(), "");
    input.event(&Event::ReadPassword(Command { name: "c".to_string(), args: vec![] }));
    assert!(input.password);
    input.event(&Event::Completed("x y".to_string(), Cursor { index: 1 }));
    input.event(&Event::Key(Key::Ctrl('k')));
    assert_eq!(input.text(), "x");
    input.event(&Event::Key(Key::Char('z')));
    input.event(&Event::Key(Key::Home));
    input.event(&Event::Key(Key::Delete));
    input.event(&Event::Key(Key::End));
    input.event(&Event::Key(Key::Backspace));
    assert_eq!(input.text(), "");
    input.event(&Event::Disconnected);
    assert_eq!(input.text(), "");
}

#[test]
fn the_stream_lets_the_known_keys_through() {
    let mut stream = EventStream::new();
    let known = [
        Key::Char('a'),
        Key::Backspace,
        Key::Delete,
        Key::Home,
        Key::End,
        Key::Up,
        Key::Down,
        Key::Left,
        Key::Right,
        Key::Ctrl('w'),
        Key::Alt('a'),
    ];
    for key in known {
        match stream.poll_next(Polled::Ready(Some(TermionEvent::Key(key)))) {
            Polled::Ready(Some(Event::Key(got))) => assert_eq!(got, key),
            other => panic!("unexpected {:?}", other),
        }
    }
    let unknown =
        [Key::PageUp, Key::PageDown, Key::BackTab, Key::Insert, Key::F(1), Key::Null, Key::Esc];
    for key in unknown {
        assert!(matches!(
            stream.poll_next(Polled::Ready(Some(TermionEvent::Key(key)))),
            Polled::Pending
        ));
    }
    assert!(matches!(stream.poll_next(Polled::Ready(Some(TermionEvent::Mouse))), Polled::Pending));
    assert!(matches!(
        stream.poll_next(Polled::Ready(Some(TermionEvent::Unsupported))),
        Polled::Pending
    ));
    assert!(matches!(stream.poll_next(Polled::Ready(None)), Polled::Ready(None)));
    assert!(matches!(stream.poll_next(Polled::Pending), Polled::Pending));
}

#[test]
fn the_stream_of_the_terminal() {
    assert_eq!(TermionEventStream::first(Received::Byte(7)), Ok(7));
    assert_eq!(TermionEventStream::first(Received::Failed), Err(Polled::Ready(None)));
    assert_eq!(TermionEventStream::first(Received::Closed), Err(Polled::Ready(None)));
    assert_eq!(TermionEventStream::first(Received::Empty), Err(Polled::Pending));
    assert_eq!(
        TermionEventStream::poll_next(Some(TermionEvent::Mouse)),
        Polled::Ready(Some(TermionEvent::Mouse))
    );
    assert_eq!(TermionEventStream::poll_next(None), Polled::Pending);
}

#[test]
fn the_wrapper_hands_out_what_has_arrived() {
    let (sender, mut receiver) = std::sync::mpsc::channel();
    sender.send(1u8).unwrap();
    sender.send(2u8).unwrap();
    let mut wrapper = IterWrapper::new(&mut receiver);
    assert_eq!(wrapper.next(), Some(1));
    assert_eq!(wrapper.next(), Some(2));
    assert_eq!(wrapper.next(), None);
    sender.send(3u8).unwrap();
    assert_eq!(wrapper.next(), Some(3));
    drop(sender);
    assert_eq!(wrapper.next(), None);
}

#[test]
fn a_message_is_echoed() {
    let message = element(
        "<message xmlns='jabber:client' from='alice@x/phone' type='chat'><body>say \"hi\"</body></message>",
    );
    assert_eq!(handle_message(&message), Some("alice@x/phone: Body(\"say \\\"hi\\\"\")".to_string()));
    let bare = element("<message xmlns='jabber:client' from='x'><body>a</body></message>");
    assert_eq!(handle_stanza(bare), Some("x: Body(\"a\")".to_string()));
}

#[test]
fn what_is_not_echoed() {
    let nobody = element("<message xmlns='jabber:client'><body>a</body></message>");
    assert_eq!(handle_message(&nobody), None);
    let error =
        element("<message xmlns='jabber:client' from='a@x' type='error'><body>a</body></message>");
    assert_eq!(handle_message(&error), None);
    let empty = element("<message xmlns='jabber:client' from='a@x'/>");
    assert_eq!(handle_message(&empty), None);
    let other = element("<presence xmlns='jabber:client' from='a@x'/>");
    assert_eq!(handle_stanza(other), None);
    let french =
        element("<message xmlns='jabber:client' from='a@x'><body xml:lang='fr'>a</body></message>");
    assert_eq!(handle_message(&french), None);
}

#[test]
fn a_copy_from_another_session_is_echoed() {
    let carbon = "<received xmlns='urn:xmpp:carbons:2'><forwarded xmlns='urn:xmpp:forward:0'>\
        <message xmlns='jabber:client' from='bob@x/desk' to='me@x/phone'><body>first</body></message>\
        </forwarded></received>";
    let second = carbon.replace("first", "second");
    let message = element(&format!(
        "<message xmlns='jabber:client' from='me@x'><x xmlns='other'/>{}{}</message>",
        carbon, second
    ));
    assert_eq!(handle_message(&message), Some("bob@x/desk: Body(\"first\")".to_string()));
    let error = element(&format!(
        "<message xmlns='jabber:client' from='me@x' type='error'>{}</message>",
        carbon
    ));
    assert_eq!(handle_message(&error), None);
    let silent = carbon.replace("<body>first</body>", "");
    let message = element(&format!(
        "<message xmlns='jabber:client' from='me@x'>{}{}</message>",
        silent, second
    ));
    assert_eq!(handle_message(&message), Some("bob@x/desk: Body(\"second\")".to_string()));
    let nameless = carbon.replace(" from='bob@x/desk'", "");
    let message = element(&format!(
        "<message xmlns='jabber:client' from='me@x'>{}{}</message>",
        nameless, second
    ));
    assert_eq!(handle_message(&message), Some("bob@x/desk: Body(\"second\")".to_string()));
    let message =
        element(&format!("<message xmlns='jabber:client' from='me@x'>{}</message>", nameless));
    assert_eq!(handle_message(&message), None);
    let message = element(&format!("<message xmlns='jabber:client'>{}</message>", carbon));
    assert_eq!(handle_message(&message), None);
}

#[test]
fn the_client_announces_itself_once_it_is_online() {
    let actions = main_loop(Packet::Online);
    assert_eq!(actions.len(), 2);
    assert!(matches!(actions[0], Action::Connect));
    match &actions[1] {
        Action::Send(stanza) => {
            let presence = Presence::try_from(stanza.clone()).unwrap();
            assert_eq!(presence.show, Some(Show::Chat));
            assert_eq!(presence.statuses.get("en"), Some(&"Echoing messages.".to_string()));
            assert_eq!(presence.statuses.len(), 1);
        }
        _ => panic!("nothing sent"),
    }
    assert!(main_loop(Packet::Other).is_empty());
    let stanza = element("<message xmlns='jabber:client' from='a@x'><body>b</body></message>");
    let actions = main_loop(Packet::Stanza(stanza));
    assert_eq!(actions.len(), 1);
    assert!(matches!(&actions[0], Action::Print(line) if line == "a@x: Body(\"b\")"));
    let stanza = element("<iq xmlns='jabber:client' type='result' id='1'/>");
    assert!(main_loop(Packet::Stanza(stanza)).is_empty());
}

#[test]
fn the_wait_before_connecting_again_doubles_up_to_thirty_seconds() {
    let delays: Vec<u64> = (0..8).map(reconnect_delay).collect();
    assert_eq!(delays, vec![1, 2, 4, 8, 16, 30, 30, 30]);
    assert_eq!(reconnect_delay(u32::MAX), 30);
}
