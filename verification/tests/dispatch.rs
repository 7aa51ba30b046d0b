use aparte::command::Command;
use aparte::dispatch::{in_order, Dispatcher};
use aparte::event::{Event, Key};
use aparte::input::Cursor;
use aparte::jid::{BareJid, Jid};
use aparte::message::{Message, XmppMessage};
use aparte::window::Window;
use std::convert::TryFrom;
use std::str::FromStr;
use xmpp_parsers::iq::{Iq, IqType};
use xmpp_parsers::message::{Message as Stanza, MessageType};
use xmpp_parsers::presence::{Presence, Type as PresenceType};
use xmpp_parsers::Element;

fn me() -> BareJid {
    BareJid { node: Some("me".to_string()), domain: "x".to_string() }
}

fn element(xml: &str) -> Element {
    Element::from_str(xml).unwrap()
}

fn online() -> Dispatcher {
    let mut session = Dispatcher::new(80, 24);
    session.aparte.schedule(Event::Connected(me(), Jid::Bare(me())));
    settle(&mut session);
    let copies = Iq::try_from(session.next_stanza().unwrap()).unwrap();
    match copies.payload {
        IqType::Set(payload) => assert!(payload.is("enable", "urn:xmpp:carbons:2")),
        _ => panic!("no set"),
    }
    let request = session.next_stanza().unwrap();
    assert_eq!(request.name(), "iq");
    assert!(session.next_stanza().is_none());
    session
}

fn settle(session: &mut Dispatcher) {
    for _ in 0..100 {
        if !session.step() {
            return;
        }
    }
    panic!("the queue never empties");
}

fn type_line(session: &mut Dispatcher, line: &str) {
    for c in line.chars() {
        session.aparte.schedule(Event::Key(Key::Char(c)));
    }
    session.aparte.schedule(Event::Key(Key::Char('\n')));
    settle(session);
}

fn notes(session: &Dispatcher) -> Vec<String> {
    match &session.ui.frame.content.children[0].1 {
        Window::Console { log, .. } => log
            .history
            .iter()
            .map(|message| match message {
                Message::Log(note) => note.body.clone(),
                _ => panic!("no note"),
            })
            .collect(),
        _ => panic!("no console"),
    }
}

#[test]
fn room_join_on_user_request() {
    let mut session = online();
    type_line(&mut session, "/join room@conf.x/mynick");
    assert_eq!(notes(&session), Vec::<String>::new());
    let asked = session.next_stanza().unwrap();
    assert!(session.next_stanza().is_none());
    let presence = Presence::try_from(asked).unwrap();
    assert_eq!(presence.type_, PresenceType::None);
    assert_eq!(presence.to.map(String::from), Some("room@conf.x/mynick".to_string()));
    assert_eq!(presence.from, None);
    assert_eq!(presence.payloads.len(), 1);
    assert!(presence.payloads[0].is("x", "http://jabber.org/protocol/muc#user"));
    assert_eq!(presence.payloads[0].children().count(), 0);
    assert_eq!(session.joins.len(), 1);
    assert_eq!(session.ui.current_window, Some("console".to_string()));

    session.incoming(element("<presence xmlns='jabber:client' from='room@conf.x/other'/>"));
    settle(&mut session);
    assert_eq!(session.joins.len(), 1);
    assert_eq!(session.ui.get_windows(), vec!["console".to_string()]);

    session.incoming(element(
        "<presence xmlns='jabber:client' from='room@conf.x/mynick' to='me@x/desk'>\
         <x xmlns='http://jabber.org/protocol/muc#user'>\
         <item affiliation='member' role='participant'/><status code='110'/></x></presence>",
    ));
    assert_eq!(session.joins.len(), 0);
    settle(&mut session);
    assert_eq!(session.ui.get_windows(), vec!["console".to_string(), "room@conf.x".to_string()]);
    assert_eq!(session.ui.current_window, Some("room@conf.x".to_string()));
    assert_eq!(session.ui.title_bar.content.window_name, Some("room@conf.x".to_string()));
    assert!(matches!(session.ui.frame.content.children[1].1, Window::Group { .. }));

    session.incoming(element("<presence xmlns='jabber:client' from='room@conf.x/mynick'/>"));
    settle(&mut session);
    assert_eq!(session.ui.get_windows().len(), 2);
}

#[test]
fn a_room_that_refuses_is_not_entered() {
    let mut session = online();
    type_line(&mut session, "/join room@conf.x/mynick");
    assert!(session.next_stanza().is_some());
    session.incoming(element(
        "<presence xmlns='jabber:client' from='room@conf.x/mynick' type='error'>\
         <error type='auth'><forbidden xmlns='urn:ietf:params:xml:ns:xmpp-stanzas'/></error>\
         </presence>",
    ));
    settle(&mut session);
    assert_eq!(session.joins.len(), 0);
    assert_eq!(session.ui.get_windows(), vec!["console".to_string()]);
    assert_eq!(session.ui.current_window, Some("console".to_string()));
}

#[test]
fn what_join_needs() {
    let mut session = Dispatcher::new(80, 24);
    type_line(&mut session, "/join room@conf.x/mynick");
    assert_eq!(notes(&session), vec!["Not connected".to_string()]);
    type_line(&mut session, "/join");
    assert_eq!(notes(&session)[1], "Missing room");
    assert!(session.next_stanza().is_none());
    let mut session = online();
    type_line(&mut session, "/join");
    type_line(&mut session, "/join room@conf.x");
    type_line(&mut session, "/join @conf.x/nick");
    type_line(&mut session, "/join room@conf.x/");
    assert_eq!(
        notes(&session),
        vec![
            "Missing room".to_string(),
            "Missing nick".to_string(),
            "Invalid jid".to_string(),
            "Invalid jid".to_string()
        ]
    );
    assert!(session.next_stanza().is_none());
    assert_eq!(session.joins.len(), 0);
    type_line(&mut session, "/join room@conf.x/a b");
    assert_eq!(session.joins.len(), 1);
    assert_eq!(session.joins[0].resource, "a");
    session.aparte.schedule(Event::Disconnected);
    settle(&mut session);
    assert_eq!(session.joins.len(), 0);
}

#[test]
fn a_session_starts_with_the_console_in_front() {
    let mut session = Dispatcher::new(80, 24);
    assert!(!session.quit);
    assert!(!session.step());
    assert!(session.next_stanza().is_none());
    assert_eq!(session.ui.current_window, Some("console".to_string()));
    for command in ["quit", "win", "msg", "join", "bookmark"] {
        assert!(session.aparte.has_command(command));
    }
    assert!(session.disco.has_feature("urn:xmpp:bookmarks:1"));
    assert_eq!(
        session.disco.get_features(),
        vec!["urn:xmpp:carbons:2".to_string(), "urn:xmpp:bookmarks:1".to_string()]
    );
    assert_eq!(session.carbons.to_string(), "XEP-0280: Message Carbons");
    assert_eq!(session.aparte.current_account(), None);
}

#[test]
fn the_bookmarks_are_asked_for_and_the_answer_settles_the_request() {
    let mut session = Dispatcher::new(80, 24);
    session.aparte.schedule(Event::Connected(me(), Jid::Bare(me())));
    settle(&mut session);
    assert_eq!(session.aparte.current_account(), Some(me()));
    assert_eq!(session.ui.win_bar.content.connection, Some("me@x".to_string()));
    let copies = Iq::try_from(session.next_stanza().unwrap()).unwrap();
    assert!(session.iqs.is_pending(&copies.id));
    let request = Iq::try_from(session.next_stanza().unwrap()).unwrap();
    assert_ne!(copies.id, request.id);
    assert!(session.iqs.is_pending(&request.id));
    let answer = format!("<iq xmlns='jabber:client' type='result' id='{}'/>", request.id);
    session.incoming(element(&answer));
    assert!(!session.iqs.is_pending(&request.id));
    settle(&mut session);
    session.incoming(element(&answer));
    settle(&mut session);
    assert!(!session.iqs.is_pending(&request.id));
}

#[test]
fn disconnect_during_iq() {
    let mut session = Dispatcher::new(80, 24);
    session.aparte.schedule(Event::Connected(me(), Jid::Bare(me())));
    settle(&mut session);
    assert_eq!(session.aparte.queued(), 2);
    let request = Iq::try_from(session.aparte.peek(1).clone()).unwrap();
    assert!(session.iqs.is_pending(&request.id));
    session.aparte.schedule(Event::Disconnected);
    settle(&mut session);
    assert_eq!(session.aparte.current_account(), None);
    assert!(!session.iqs.is_pending(&request.id));
    assert_eq!(notes(&session), vec!["disconnected".to_string(), "disconnected".to_string()]);
    assert_eq!(session.aparte.queued(), 0);
    assert!(session.next_stanza().is_none());
    session.aparte.schedule(Event::Disconnected);
    settle(&mut session);
    assert_eq!(notes(&session).len(), 2);
    let late = format!("<iq xmlns='jabber:client' type='result' id='{}'/>", request.id);
    session.incoming(element(&late));
    settle(&mut session);
    assert_eq!(notes(&session).len(), 2);
}

#[test]
fn a_lost_connection_gives_up_what_was_sent_too() {
    let mut session = Dispatcher::new(80, 24);
    session.aparte.schedule(Event::Connected(me(), Jid::Bare(me())));
    settle(&mut session);
    let request = Iq::try_from(session.next_stanza().unwrap()).unwrap();
    assert!(session.iqs.is_pending(&request.id));
    let answer = format!("<iq xmlns='jabber:client' type='result' id='{}'/>", request.id);
    session.incoming(element(&answer));
    let request = Iq::try_from(session.next_stanza().unwrap()).unwrap();
    assert!(session.iqs.is_pending(&request.id));
    session.aparte.send(element("<presence xmlns='jabber:client'/>"));
    session.aparte.schedule(Event::Disconnected);
    settle(&mut session);
    assert!(!session.iqs.is_pending(&request.id));
    assert_eq!(notes(&session), vec!["disconnected".to_string()]);
    assert!(session.next_stanza().is_none());
}

#[test]
fn a_request_without_an_answer_times_out() {
    let mut session = Dispatcher::new(80, 24);
    session.tick(1000);
    assert_eq!(session.clock, 1000);
    session.aparte.schedule(Event::Connected(me(), Jid::Bare(me())));
    settle(&mut session);
    let copies = Iq::try_from(session.next_stanza().unwrap()).unwrap();
    let answer = format!(
        "<iq xmlns='jabber:client' type='error' id='{}'><error type='cancel'>\
         <service-unavailable xmlns='urn:ietf:params:xml:ns:xmpp-stanzas'/></error></iq>",
        copies.id
    );
    session.incoming(element(&answer));
    assert!(!session.iqs.is_pending(&copies.id));
    let first = Iq::try_from(session.next_stanza().unwrap()).unwrap();
    session.tick(1010);
    type_line(&mut session, "/bookmark add aparte aparte@conf.x/n");
    let second = Iq::try_from(session.next_stanza().unwrap()).unwrap();
    session.tick(1029);
    settle(&mut session);
    assert!(session.iqs.is_pending(&first.id) && session.iqs.is_pending(&second.id));
    assert_eq!(notes(&session), Vec::<String>::new());
    session.tick(1030);
    assert!(!session.iqs.is_pending(&first.id) && session.iqs.is_pending(&second.id));
    settle(&mut session);
    assert_eq!(notes(&session), vec!["timeout".to_string()]);
    let answer = format!("<iq xmlns='jabber:client' type='result' id='{}'/>", second.id);
    session.incoming(element(&answer));
    session.tick(5000);
    settle(&mut session);
    assert_eq!(notes(&session), vec!["timeout".to_string()]);
    session.turn();
    assert!(session.clock > 1_000_000_000);
}

#[test]
fn a_message_that_is_sent_is_no_request() {
    let mut session = online();
    session.aparte.schedule(Event::Chat { account: me(), contact: BareJid { node: Some("alice".to_string()), domain: "x".to_string() } });
    settle(&mut session);
    type_line(&mut session, "hello");
    assert!(session.next_stanza().is_some());
    session.tick(i64::MAX);
    settle(&mut session);
    assert_eq!(notes(&session), vec!["timeout".to_string(), "timeout".to_string()]);
}

#[test]
fn an_incoming_message_opens_its_window() {
    let mut session = online();
    session.incoming(element(
        "<message xmlns='jabber:client' from='alice@x/phone' to='me@x/desk' id='m1' type='chat'>\
         <body>hi</body></message>",
    ));
    settle(&mut session);
    assert_eq!(session.ui.get_windows(), vec!["console".to_string(), "alice@x".to_string()]);
    match &session.ui.frame.content.children[1].1 {
        Window::Chat { log, .. } => match &log.history[0] {
            Message::Incoming(XmppMessage::Chat(message)) => {
                assert_eq!(message.id, "m1");
                assert_eq!(message.body, "hi");
                assert_eq!(message.to, me());
                assert!(message.timestamp > 1_000_000_000);
            }
            _ => panic!("no chat message"),
        },
        _ => panic!("no chat"),
    }
    assert_eq!(session.ui.get_unread(), vec!["alice@x".to_string()]);
}

#[test]
fn what_another_session_received_is_shown_too() {
    let mut session = online();
    session.incoming(element(
        "<message xmlns='jabber:client' from='me@x' to='me@x/desk'>\
         <received xmlns='urn:xmpp:carbons:2'><forwarded xmlns='urn:xmpp:forward:0'>\
         <message xmlns='jabber:client' from='alice@x/phone' to='me@x/tablet' id='c1' type='chat'>\
         <body>psst</body></message></forwarded></received></message>",
    ));
    settle(&mut session);
    assert_eq!(session.ui.get_windows(), vec!["console".to_string(), "alice@x".to_string()]);
    match &session.ui.frame.content.children[1].1 {
        Window::Chat { log, .. } => match &log.history[0] {
            Message::Incoming(XmppMessage::Chat(message)) => {
                assert_eq!(message.id, "c1");
                assert_eq!(message.body, "psst");
                assert_eq!(message.from.to_string(), "alice@x");
            }
            _ => panic!("no chat message"),
        },
        _ => panic!("no chat"),
    }
    session.incoming(element(
        "<message xmlns='jabber:client' from='me@x' to='me@x/desk'>\
         <received xmlns='urn:xmpp:carbons:2'><forwarded xmlns='urn:xmpp:forward:0'>\
         <message xmlns='jabber:client' from='bob@x/phone' type='chat'/>\
         </forwarded></received></message>",
    ));
    settle(&mut session);
    assert_eq!(session.ui.get_windows().len(), 2);
}

#[test]
fn an_incoming_room_message_opens_the_room() {
    let mut session = online();
    session.incoming(element(
        "<message xmlns='jabber:client' from='room@conf.x/bob' type='groupchat'>\
         <body>hi</body></message>",
    ));
    settle(&mut session);
    match &session.ui.frame.content.children[1].1 {
        Window::Group { log, .. } => match &log.history[0] {
            Message::Incoming(XmppMessage::Groupchat(message)) => {
                assert_eq!(message.id, "");
                assert_eq!(message.from.to_string(), "room@conf.x");
                assert_eq!(message.from_full.to_string(), "room@conf.x/bob");
                assert_eq!(message.to, me());
            }
            _ => panic!("no room message"),
        },
        _ => panic!("no room"),
    }
}

#[test]
fn what_says_nothing_opens_no_window() {
    let mut session = online();
    for xml in [
        "<message xmlns='jabber:client' from='a@x' type='error'><body>x</body></message>",
        "<message xmlns='jabber:client' from='a@x'/>",
        "<message xmlns='jabber:client'><body>x</body></message>",
        "<presence xmlns='jabber:client' from='a@x'/>",
    ] {
        session.incoming(element(xml));
        settle(&mut session);
    }
    assert_eq!(session.ui.get_windows(), vec!["console".to_string()]);
    let mut offline = Dispatcher::new(80, 24);
    offline.incoming(element("<message xmlns='jabber:client' from='a@x'><body>x</body></message>"));
    settle(&mut offline);
    assert_eq!(offline.ui.get_windows(), vec!["console".to_string()]);
}

#[test]
fn a_line_goes_out_as_a_message_and_is_shown() {
    let mut session = online();
    type_line(&mut session, "/msg alice@x/phone");
    assert_eq!(session.ui.current_window, Some("alice@x".to_string()));
    type_line(&mut session, "hello");
    let stanza = Stanza::try_from(session.next_stanza().unwrap()).unwrap();
    assert_eq!(stanza.type_, MessageType::Chat);
    assert_eq!(stanza.to.unwrap().to_string(), "alice@x");
    assert_eq!(stanza.bodies.get("").unwrap().0, "hello");
    assert_eq!(stanza.id.unwrap().len(), 36);
    assert!(session.next_stanza().is_none());
    match &session.ui.frame.content.children[1].1 {
        Window::Chat { log, .. } => {
            assert_eq!(log.history.len(), 1);
            assert!(matches!(log.history[0], Message::Outgoing(XmppMessage::Chat(_))));
        }
        _ => panic!("no chat"),
    }
}

#[test]
fn a_line_goes_out_to_a_room_as_groupchat() {
    let mut session = online();
    let channel = Jid::Bare(BareJid { node: Some("room".to_string()), domain: "conf.x".to_string() });
    session.aparte.schedule(Event::Joined { account: me(), channel, user_request: true });
    settle(&mut session);
    type_line(&mut session, "hello all");
    let stanza = Stanza::try_from(session.next_stanza().unwrap()).unwrap();
    assert_eq!(stanza.type_, MessageType::Groupchat);
    assert_eq!(stanza.to.unwrap().to_string(), "room@conf.x");
    assert_eq!(stanza.bodies.get("").unwrap().0, "hello all");
}

#[test]
fn commands_are_carried_out() {
    let mut session = online();
    type_line(&mut session, "/win nowhere");
    assert_eq!(notes(&session), vec!["Unknown window nowhere".to_string()]);
    type_line(&mut session, "/win");
    type_line(&mut session, "/msg");
    type_line(&mut session, "/msg @x");
    type_line(&mut session, "/dance");
    type_line(&mut session, "/bookmark add");
    type_line(&mut session, "/bookmark del aparte");
    type_line(&mut session, "/msg \"alice");
    assert_eq!(
        notes(&session)[1..],
        [
            "Missing window".to_string(),
            "Missing contact".to_string(),
            "Invalid jid".to_string(),
            "Unknown command dance".to_string(),
            "Missing bookmark name".to_string(),
            "Missing closing quote".to_string(),
        ]
    );
    assert!(session.next_stanza().is_none());
    type_line(&mut session, "/bookmark add aparte aparte@conf.x/n autojoin=on");
    let request = Iq::try_from(session.next_stanza().unwrap()).unwrap();
    assert!(session.iqs.is_pending(&request.id));
    assert!(!session.quit);
    type_line(&mut session, "/quit");
    assert!(session.quit);
}

#[test]
fn msg_needs_an_account() {
    let mut session = Dispatcher::new(80, 24);
    session.run(&Command { name: "msg".to_string(), args: vec!["alice@x".to_string()] });
    match session.aparte.next_event() {
        Some(Event::CommandError(reason)) => assert_eq!(reason, "Missing contact"),
        other => panic!("unexpected {:?}", other),
    }
}

#[test]
fn an_event_that_is_not_in_order_is_dropped() {
    let mut session = online();
    let out_of_line = Event::Completed("ab".to_string(), Cursor { index: 3 });
    assert!(!in_order(&out_of_line));
    assert!(in_order(&Event::Completed("é".to_string(), Cursor { index: 1 })));
    assert!(in_order(&Event::Disconnected));
    session.aparte.schedule(out_of_line);
    assert!(session.step());
    assert_eq!(session.ui.input.content.text(), "");
    assert_eq!(notes(&session), Vec::<String>::new());
    assert!(session.step());
    assert!(!session.step());
    assert_eq!(session.ui.input.content.text(), "");
    assert_eq!(notes(&session), vec!["Dropped an event that is not in order".to_string()]);
    let message = Message::outgoing_chat("i".to_string(), 0, &Jid::Bare(me()), &Jid::Bare(me()), "x");
    let nobody = Event::Message(None, message);
    assert!(!in_order(&nobody));
    session.aparte.schedule(nobody);
    settle(&mut session);
    assert_eq!(session.ui.get_windows(), vec!["console".to_string()]);
}

#[test]
fn a_message_is_for_whom_it_says() {
    let mut session = online();
    session.incoming(element(
        "<message xmlns='jabber:client' from='alice@x' to='other@x/desk' type='chat'>\
         <body>hi</body></message>",
    ));
    settle(&mut session);
    match &session.ui.frame.content.children[1].1 {
        Window::Chat { log, .. } => match &log.history[0] {
            Message::Incoming(XmppMessage::Chat(message)) => {
                assert_eq!(message.to.to_string(), "other@x");
            }
            _ => panic!("no chat message"),
        },
        _ => panic!("no chat"),
    }
}

#[test]
fn a_command_without_its_arguments_gives_an_error_and_sends_nothing() {
    let mut session = online();
    for c in "/bookmark add".chars() {
        session.aparte.schedule(Event::Key(Key::Char(c)));
    }
    settle(&mut session);
    session.aparte.schedule(Event::Key(Key::Char('\n')));
    assert!(session.step());
    assert_eq!(session.ui.input.content.text(), "");
    match session.aparte.next_event() {
        Some(Event::Command(command)) => {
            assert_eq!(command.name, "bookmark");
            assert_eq!(command.args, vec!["add".to_string()]);
            session.aparte.schedule(Event::Command(command));
        }
        other => panic!("unexpected {:?}", other),
    }
    assert!(session.step());
    match session.aparte.next_event() {
        Some(Event::CommandError(reason)) => assert_eq!(reason, "Missing bookmark name"),
        other => panic!("unexpected {:?}", other),
    }
    assert!(session.aparte.next_event().is_none());
    assert!(session.next_stanza().is_none());
    assert_eq!(session.ui.get_windows(), vec!["console".to_string()]);
    assert_eq!(session.ui.current_window, Some("console".to_string()));
}
