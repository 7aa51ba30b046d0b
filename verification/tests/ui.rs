use aparte::command::Command;
use aparte::conversation::{Affiliation, Conversation, ConversationKind, Occupant, Role};
use aparte::event::{Event, Key};
use aparte::input::Cursor;
use aparte::jid::{BareJid, FullJid, Jid};
use aparte::message::{ChatMessage, GroupchatMessage, Message, XmppMessage};
use aparte::session::Aparte;
use aparte::stream::{Polled, TermionEvent};
use aparte::ui::UIPlugin;
use aparte::window::Window;

fn bare(node: &str, domain: &str) -> BareJid {
    BareJid { node: Some(node.to_string()), domain: domain.to_string() }
}

fn me() -> BareJid {
    bare("me", "x")
}

fn chat_from(from: &str, body: &str) -> Event {
    Event::Message(
        Some(me()),
        Message::Incoming(XmppMessage::Chat(ChatMessage {
            id: "1".to_string(),
            timestamp: 0,
            from: bare(from, "x"),
            to: me(),
            body: body.to_string(),
        })),
    )
}

fn started() -> (UIPlugin, Aparte) {
    let mut ui = UIPlugin::new(80, 24);
    let mut aparte = Aparte::new();
    assert!(ui.init(&mut aparte).is_ok());
    (ui, aparte)
}

fn type_line(ui: &mut UIPlugin, aparte: &mut Aparte, line: &str) {
    for c in line.chars() {
        ui.on_event(aparte, &Event::Key(Key::Char(c)));
    }
    while aparte.next_event().is_some() {}
}

fn backlog(ui: &UIPlugin, name: &str) -> usize {
    for (child, window) in &ui.frame.content.children {
        if child == name {
            return match window {
                Window::Console { log, .. } => log.history.len(),
                Window::Chat { log, .. } => log.history.len(),
                Window::Group { log, .. } => log.history.len(),
            };
        }
    }
    panic!("no window {}", name);
}

#[test]
fn init_opens_the_console() {
    let (mut ui, _) = started();
    assert_eq!(ui.get_windows(), vec!["console".to_string()]);
    assert_eq!(ui.current_window, Some("console".to_string()));
    assert_eq!(ui.title_bar.content.window_name, Some("console".to_string()));
    assert_eq!(ui.win_bar.content.current_window, Some("console".to_string()));
    assert_eq!(ui.win_bar.content.windows, vec!["console".to_string()]);
    assert_eq!(ui.frame.content.current, Some("console".to_string()));
    let out = ui.take_output();
    assert!(out.starts_with("\x1b[2J"));
    assert_eq!(ui.take_output(), "");
}

#[test]
fn init_lays_the_views_out_from_the_top_down() {
    let (ui, _) = started();
    assert_eq!((ui.title_bar.x, ui.title_bar.y), (1, 1));
    assert_eq!((ui.title_bar.w, ui.title_bar.h), (Some(80), Some(1)));
    assert_eq!((ui.frame.x, ui.frame.y), (1, 2));
    assert_eq!((ui.frame.w, ui.frame.h), (Some(80), Some(21)));
    assert_eq!((ui.win_bar.x, ui.win_bar.y), (1, 23));
    assert_eq!((ui.win_bar.w, ui.win_bar.h), (Some(80), Some(1)));
    assert_eq!((ui.input.x, ui.input.y), (1, 24));
    assert_eq!((ui.input.w, ui.input.h), (Some(80), Some(1)));
}

#[test]
fn a_terminal_of_the_largest_size_counts_as_one_cell_less() {
    let ui = UIPlugin::new(65535, 10);
    assert_eq!(ui.size, (65534, 10));
}

#[test]
fn chat_echo() {
    let (mut ui, mut aparte) = started();
    let full = Jid::Full(FullJid {
        node: Some("me".to_string()),
        domain: "x".to_string(),
        resource: "res".to_string(),
    });
    ui.on_event(&mut aparte, &Event::Connected(me(), full));
    assert_eq!(ui.win_bar.content.connection, Some("me@x".to_string()));
    ui.on_event(&mut aparte, &chat_from("alice", "hi"));
    assert_eq!(ui.get_windows(), vec!["console".to_string(), "alice@x".to_string()]);
    assert_eq!(backlog(&ui, "alice@x"), 1);
    assert_eq!(backlog(&ui, "console"), 0);
    assert_eq!(ui.win_bar.content.highlighted, vec!["alice@x".to_string()]);
    assert_eq!(ui.get_unread(), vec!["alice@x".to_string()]);
    assert_eq!(ui.conversations.len(), 1);
    assert_eq!(ui.current_window, Some("console".to_string()));
    assert!(ui.take_output().contains("\x07"));
    assert!(aparte.next_event().is_none());
}

#[test]
fn a_message_in_the_window_in_front_does_not_make_it_wait() {
    let (mut ui, mut aparte) = started();
    ui.on_event(&mut aparte, &Event::Chat { account: me(), contact: bare("alice", "x") });
    assert_eq!(ui.current_window, Some("alice@x".to_string()));
    ui.on_event(&mut aparte, &chat_from("alice", "hi"));
    assert_eq!(backlog(&ui, "alice@x"), 1);
    assert!(ui.get_unread().is_empty());
    assert!(ui.win_bar.content.highlighted.is_empty());
}

#[test]
fn a_window_that_waits_keeps_its_place_at_a_second_message() {
    let (mut ui, mut aparte) = started();
    ui.on_event(&mut aparte, &chat_from("a", "1"));
    ui.on_event(&mut aparte, &chat_from("b", "2"));
    ui.on_event(&mut aparte, &chat_from("a", "3"));
    assert_eq!(ui.get_unread(), vec!["a@x".to_string(), "b@x".to_string()]);
    assert_eq!(ui.win_bar.content.highlighted, vec!["a@x".to_string(), "b@x".to_string()]);
    assert_eq!(backlog(&ui, "a@x"), 2);
    assert_eq!(ui.current_window, Some("console".to_string()));
    ui.on_event(&mut aparte, &Event::Key(Key::Alt('a')));
    assert_eq!(ui.current_window, Some("a@x".to_string()));
    assert_eq!(ui.get_unread(), vec!["b@x".to_string()]);
}

#[test]
fn a_room_entered_at_the_request_of_the_user_comes_to_the_front() {
    let (mut ui, mut aparte) = started();
    let channel = Jid::Full(FullJid {
        node: Some("room".to_string()),
        domain: "conf.x".to_string(),
        resource: "mynick".to_string(),
    });
    ui.on_event(
        &mut aparte,
        &Event::Joined { account: me(), channel: channel.clone(), user_request: true },
    );
    assert_eq!(ui.get_windows(), vec!["console".to_string(), "room@conf.x".to_string()]);
    assert_eq!(ui.current_window, Some("room@conf.x".to_string()));
    assert_eq!(ui.title_bar.content.window_name, Some("room@conf.x".to_string()));
    assert!(matches!(ui.frame.content.children[1].1, Window::Group { .. }));
}

#[test]
fn a_room_joined_without_request_stays_behind() {
    let (mut ui, mut aparte) = started();
    let channel = Jid::Bare(bare("room", "conf.x"));
    ui.on_event(&mut aparte, &Event::Joined { account: me(), channel, user_request: false });
    assert_eq!(ui.get_windows().len(), 2);
    assert_eq!(ui.current_window, Some("console".to_string()));
}

#[test]
fn unread_cycling() {
    let (mut ui, mut aparte) = started();
    ui.on_event(&mut aparte, &chat_from("a", "1"));
    ui.on_event(&mut aparte, &chat_from("b", "2"));
    ui.on_event(&mut aparte, &chat_from("c", "3"));
    assert_eq!(
        ui.get_unread(),
        vec!["a@x".to_string(), "b@x".to_string(), "c@x".to_string()]
    );
    let mut visited = Vec::new();
    for _ in 0..3 {
        ui.on_event(&mut aparte, &Event::Key(Key::Alt('a')));
        visited.push(ui.current_window.clone().unwrap());
    }
    assert_eq!(visited, vec!["a@x".to_string(), "b@x".to_string(), "c@x".to_string()]);
    assert!(ui.get_unread().is_empty());
    assert!(ui.win_bar.content.highlighted.is_empty());
    ui.on_event(&mut aparte, &Event::Key(Key::Alt('a')));
    assert_eq!(ui.current_window, Some("c@x".to_string()));
}

#[test]
fn change_window_ends_the_waiting() {
    let (mut ui, mut aparte) = started();
    ui.on_event(&mut aparte, &chat_from("a", "1"));
    ui.on_event(&mut aparte, &chat_from("b", "2"));
    ui.change_window("a@x");
    assert_eq!(ui.get_unread(), vec!["b@x".to_string()]);
    assert_eq!(ui.win_bar.content.highlighted, vec!["b@x".to_string()]);
}

#[test]
fn next_and_prev_window() {
    let (mut ui, mut aparte) = started();
    ui.on_event(&mut aparte, &chat_from("a", "1"));
    ui.on_event(&mut aparte, &chat_from("b", "2"));
    ui.next_window();
    assert_eq!(ui.current_window, Some("a@x".to_string()));
    ui.next_window();
    assert_eq!(ui.current_window, Some("b@x".to_string()));
    ui.next_window();
    assert_eq!(ui.current_window, Some("b@x".to_string()));
    ui.prev_window();
    assert_eq!(ui.current_window, Some("a@x".to_string()));
    ui.prev_window();
    ui.prev_window();
    assert_eq!(ui.current_window, Some("console".to_string()));
}

#[test]
fn win_switches_to_a_known_window_only() {
    let (mut ui, mut aparte) = started();
    ui.on_event(&mut aparte, &chat_from("a", "1"));
    ui.on_event(&mut aparte, &Event::Win("a@x".to_string()));
    assert_eq!(ui.current_window, Some("a@x".to_string()));
    assert!(aparte.next_event().is_none());
    ui.on_event(&mut aparte, &Event::Win("nowhere".to_string()));
    assert_eq!(ui.current_window, Some("a@x".to_string()));
    match aparte.next_event() {
        Some(Event::Message(None, Message::Log(note))) => {
            assert_eq!(note.body, "Unknown window nowhere");
            assert!(note.timestamp > 1_000_000_000);
        }
        other => panic!("unexpected {:?}", other),
    }
}

#[test]
fn enter_schedules_the_command() {
    let (mut ui, mut aparte) = started();
    type_line(&mut ui, &mut aparte, "/join room@conf.x/mynick");
    assert_eq!(ui.input.content.text(), "/join room@conf.x/mynick");
    ui.on_event(&mut aparte, &Event::Key(Key::Char('\n')));
    assert_eq!(ui.input.content.text(), "");
    assert_eq!(ui.input.content.history, vec!["/join room@conf.x/mynick".to_string()]);
    match aparte.next_event() {
        Some(Event::Command(command)) => {
            assert_eq!(command.name, "join");
            assert_eq!(command.args, vec!["room@conf.x/mynick".to_string()]);
        }
        other => panic!("unexpected {:?}", other),
    }
    assert!(aparte.next_event().is_none());
}

#[test]
fn enter_reports_a_line_that_is_no_command() {
    let (mut ui, mut aparte) = started();
    type_line(&mut ui, &mut aparte, "/msg \"alice");
    ui.on_event(&mut aparte, &Event::Key(Key::Char('\n')));
    match aparte.next_event() {
        Some(Event::CommandError(reason)) => assert_eq!(reason, "Missing closing quote"),
        other => panic!("unexpected {:?}", other),
    }
}

#[test]
fn enter_sends_the_line_to_the_conversation_in_front() {
    let (mut ui, mut aparte) = started();
    aparte.set_account(Some(me()));
    ui.on_event(&mut aparte, &Event::Chat { account: me(), contact: bare("alice", "x") });
    type_line(&mut ui, &mut aparte, "hello");
    ui.on_event(&mut aparte, &Event::Key(Key::Char('\n')));
    match aparte.next_event() {
        Some(Event::SendMessage(account, Message::Outgoing(XmppMessage::Chat(message)))) => {
            assert_eq!(account, me());
            assert_eq!(message.from, me());
            assert_eq!(message.to, bare("alice", "x"));
            assert_eq!(message.body, "hello");
            assert_eq!(message.id.len(), 36);
            assert_eq!(message.id.matches('-').count(), 4);
            assert!(message.timestamp > 1_000_000_000);
        }
        other => panic!("unexpected {:?}", other),
    }
}

#[test]
fn enter_sends_to_a_room_as_groupchat() {
    let (mut ui, mut aparte) = started();
    aparte.set_account(Some(me()));
    let channel = Jid::Bare(bare("room", "conf.x"));
    ui.on_event(&mut aparte, &Event::Joined { account: me(), channel, user_request: true });
    type_line(&mut ui, &mut aparte, "hello all");
    ui.on_event(&mut aparte, &Event::Key(Key::Char('\n')));
    match aparte.next_event() {
        Some(Event::SendMessage(_, Message::Outgoing(XmppMessage::Groupchat(message)))) => {
            assert_eq!(message.to, bare("room", "conf.x"));
            assert_eq!(message.from_full, Jid::Bare(me()));
            assert_eq!(message.body, "hello all");
        }
        other => panic!("unexpected {:?}", other),
    }
}

#[test]
fn enter_in_the_console_sends_nothing() {
    let (mut ui, mut aparte) = started();
    aparte.set_account(Some(me()));
    type_line(&mut ui, &mut aparte, "hello");
    ui.on_event(&mut aparte, &Event::Key(Key::Char('\n')));
    assert!(aparte.next_event().is_none());
    ui.on_event(&mut aparte, &Event::Key(Key::Char('\n')));
    assert!(aparte.next_event().is_none());
}

#[test]
fn a_password_goes_to_the_command_that_waits() {
    let (mut ui, mut aparte) = started();
    let command = Command { name: "connect".to_string(), args: vec!["me@x".to_string()] };
    ui.on_event(&mut aparte, &Event::ReadPassword(command));
    assert!(ui.input.content.password);
    type_line(&mut ui, &mut aparte, "secret");
    ui.on_event(&mut aparte, &Event::Key(Key::Char('\n')));
    assert!(!ui.input.content.password);
    assert!(ui.password_command.is_none());
    assert!(ui.input.content.history.is_empty());
    match aparte.next_event() {
        Some(Event::Command(command)) => {
            assert_eq!(command.name, "connect");
            assert_eq!(command.args, vec!["me@x".to_string(), "secret".to_string()]);
        }
        other => panic!("unexpected {:?}", other),
    }
}

#[test]
fn tab_asks_for_a_completion() {
    let (mut ui, mut aparte) = started();
    ui.on_event(&mut aparte, &Event::Chat { account: me(), contact: bare("alice", "x") });
    type_line(&mut ui, &mut aparte, "/wi");
    ui.on_event(&mut aparte, &Event::Key(Key::Char('\t')));
    match aparte.next_event() {
        Some(Event::AutoComplete { account, conversation, raw_buf, cursor }) => {
            assert_eq!(account, Some(me()));
            assert_eq!(conversation, Some(bare("alice", "x")));
            assert_eq!(raw_buf, "/wi");
            assert_eq!(cursor, Cursor { index: 3 });
        }
        other => panic!("unexpected {:?}", other),
    }
    assert_eq!(ui.input.content.text(), "/wi");
}

#[test]
fn any_other_key_ends_the_completion() {
    let (mut ui, mut aparte) = started();
    ui.on_event(&mut aparte, &Event::Key(Key::Char('a')));
    assert!(matches!(aparte.next_event(), Some(Event::ResetCompletion)));
    ui.on_event(&mut aparte, &Event::Key(Key::Left));
    assert!(matches!(aparte.next_event(), Some(Event::ResetCompletion)));
    assert_eq!(ui.input.content.cursor, Cursor { index: 0 });
}

#[test]
fn a_completion_is_taken_as_it_is() {
    let (mut ui, mut aparte) = started();
    ui.on_event(&mut aparte, &Event::Completed("/win ".to_string(), Cursor { index: 5 }));
    assert_eq!(ui.input.content.text(), "/win ");
    assert_eq!(ui.input.content.cursor, Cursor { index: 5 });
}

#[test]
fn window_change_lays_out_anew() {
    let (mut ui, mut aparte) = started();
    ui.set_size(100, 40);
    ui.on_event(&mut aparte, &Event::WindowChange);
    assert_eq!((ui.frame.w, ui.frame.h), (Some(100), Some(37)));
    assert_eq!((ui.input.x, ui.input.y), (1, 40));
    assert_eq!(ui.win_bar.w, Some(100));
}

#[test]
fn occupants_are_listed_by_role() {
    let (mut ui, mut aparte) = started();
    let room = bare("room", "conf.x");
    let channel = Jid::Bare(room.clone());
    ui.on_event(&mut aparte, &Event::Joined { account: me(), channel, user_request: false });
    for (nick, role) in [("zoe", Role::Participant), ("bob", Role::Participant), ("amy", Role::Moderator)] {
        ui.on_event(
            &mut aparte,
            &Event::Occupant {
                account: me(),
                conversation: room.clone(),
                occupant: Occupant {
                    nick: nick.to_string(),
                    jid: None,
                    affiliation: Affiliation::Member,
                    role,
                },
            },
        );
    }
    ui.on_event(
        &mut aparte,
        &Event::Occupant {
            account: me(),
            conversation: room.clone(),
            occupant: Occupant {
                nick: "zoe".to_string(),
                jid: None,
                affiliation: Affiliation::Member,
                role: Role::Moderator,
            },
        },
    );
    match &ui.frame.content.children[1].1 {
        Window::Group { roster, .. } => {
            assert_eq!(roster.groups, vec![Role::Participant, Role::Moderator]);
            let nicks: Vec<Vec<&str>> = roster
                .rows
                .iter()
                .map(|row| row.iter().map(|o| o.nick.as_str()).collect())
                .collect();
            assert_eq!(nicks, vec![vec!["bob"], vec!["amy", "zoe"]]);
        }
        _ => panic!("no room"),
    }
}

#[test]
fn groupchat_goes_to_the_room() {
    let (mut ui, mut aparte) = started();
    let room = bare("room", "conf.x");
    let message = GroupchatMessage {
        id: "1".to_string(),
        timestamp: 0,
        from: room.clone(),
        from_full: Jid::Full(FullJid {
            node: Some("room".to_string()),
            domain: "conf.x".to_string(),
            resource: "bob".to_string(),
        }),
        to: me(),
        body: "hi".to_string(),
    };
    ui.on_event(
        &mut aparte,
        &Event::Message(Some(me()), Message::Incoming(XmppMessage::Groupchat(message))),
    );
    assert_eq!(backlog(&ui, "room@conf.x"), 1);
    assert!(matches!(ui.frame.content.children[1].1, Window::Group { .. }));
    assert_eq!(ui.get_unread(), vec!["room@conf.x".to_string()]);
}

#[test]
fn the_plugin_hands_out_its_stream_of_keys() {
    let ui = UIPlugin::new(80, 24);
    let mut stream = ui.event_stream();
    match stream.poll_next(Polled::Ready(Some(TermionEvent::Key(Key::Char('\n'))))) {
        Polled::Ready(Some(Event::Key(key))) => assert_eq!(key, Key::Char('\n')),
        other => panic!("unexpected {:?}", other),
    }
    assert!(matches!(stream.poll_next(Polled::Ready(None)), Polled::Ready(None)));
}

#[test]
fn the_plugin_has_a_name() {
    let ui = UIPlugin::new(80, 24);
    assert_eq!(ui.to_string(), "Aparté UI");
}

#[test]
fn no_two_windows_have_one_name() {
    let (mut ui, mut aparte) = started();
    let console = BareJid { node: None, domain: "console".to_string() };
    let clash = Conversation { account: me(), jid: console.clone(), kind: ConversationKind::Chat };
    ui.add_conversation(&mut aparte, clash);
    assert_eq!(ui.get_windows(), vec!["console".to_string()]);
    assert_eq!(ui.conversations.len(), 0);
    assert!(matches!(ui.frame.content.children[0].1, Window::Console { .. }));
    ui.on_event(&mut aparte, &Event::Chat { account: me(), contact: console });
    assert_eq!(ui.get_windows(), vec!["console".to_string()]);
    assert_eq!(ui.current_window, Some("console".to_string()));
    ui.on_event(&mut aparte, &chat_from("a", "1"));
    ui.on_event(&mut aparte, &chat_from("a", "2"));
    ui.on_event(&mut aparte, &Event::Chat { account: me(), contact: bare("a", "x") });
    ui.on_event(&mut aparte, &chat_from("b", "3"));
    let again = Conversation { account: me(), jid: bare("a", "x"), kind: ConversationKind::Group };
    ui.add_conversation(&mut aparte, again);
    let windows = ui.get_windows();
    assert_eq!(windows, vec!["console".to_string(), "a@x".to_string(), "b@x".to_string()]);
    assert_eq!(ui.conversations.len(), 2);
    let held: Vec<String> = ui.frame.content.children.iter().map(|(name, _)| name.clone()).collect();
    assert_eq!(held, windows);
    assert!(windows.contains(ui.current_window.as_ref().unwrap()));
    for name in ui.get_unread() {
        assert!(windows.contains(&name));
    }
    assert!(matches!(ui.frame.content.children[1].1, Window::Chat { .. }));
}
