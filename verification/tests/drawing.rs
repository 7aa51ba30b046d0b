use aparte::color::id_to_rgb;
use aparte::dispatch::Dispatcher;
use aparte::event::{Event, Key};
use aparte::input::Input;
use aparte::jid::BareJid;
use aparte::layout::Rect;
use aparte::message::{ChatMessage, LogMessage, Message, XmppMessage};
use aparte::paint::{clip, paint, split, widest};
use aparte::session::Aparte;
use aparte::ui::UIPlugin;
use aparte::view::View;
use aparte::window::Window;

const SAVE: &str = "\x1b[s";
const RESTORE: &str = "\x1b[u";
const WHITE: &str = "\x1b[38;5;7m";
const YELLOW: &str = "\x1b[38;5;3m";

fn strings(texts: &[&str]) -> Vec<String> {
    texts.iter().map(|text| text.to_string()).collect()
}

fn row(x: u16, y: u16, w: usize, text: &str) -> String {
    format!("\x1b[{y};{x}H{blank}\x1b[{y};{x}H{text}", x = x, y = y, blank = " ".repeat(w), text = text)
}

fn bare(node: &str, domain: &str) -> BareJid {
    BareJid { node: Some(node.to_string()), domain: domain.to_string() }
}

fn note(timestamp: i64, body: &str) -> Message {
    Message::Log(LogMessage { timestamp, body: body.to_string() })
}

#[test]
fn the_colour_of_a_name() {
    assert_eq!(id_to_rgb("alice@x"), (144, 233, 157));
    assert_eq!(id_to_rgb("bob"), (196, 177, 188));
    assert_eq!(id_to_rgb(""), (128, 138, 130));
    assert_eq!(id_to_rgb("a"), (129, 219, 131));
    assert_eq!(id_to_rgb("é"), (172, 194, 136));
    assert_eq!(id_to_rgb("room@conf.x"), id_to_rgb("room@conf.x"));
}

#[test]
fn a_backlog_stands_on_the_bottom_of_its_rectangle() {
    let rect = Rect { x: 2, y: 3, w: 4, h: 3 };
    assert_eq!(
        paint(rect, &strings(&["a", "b"]), true),
        format!("{}{}{}{}{}", SAVE, row(2, 3, 4, ""), row(2, 4, 4, "a"), row(2, 5, 4, "b"), RESTORE)
    );
    assert_eq!(
        paint(rect, &strings(&["a", "b", "c", "d"]), true),
        format!("{}{}{}{}{}", SAVE, row(2, 3, 4, "b"), row(2, 4, 4, "c"), row(2, 5, 4, "d"), RESTORE)
    );
    assert_eq!(
        paint(rect, &strings(&[]), true),
        format!("{}{}{}{}{}", SAVE, row(2, 3, 4, ""), row(2, 4, 4, ""), row(2, 5, 4, ""), RESTORE)
    );
}

#[test]
fn a_list_hangs_from_the_top_of_its_rectangle() {
    let rect = Rect { x: 7, y: 1, w: 2, h: 2 };
    assert_eq!(
        paint(rect, &strings(&["a"]), false),
        format!("{}{}{}{}", SAVE, row(7, 1, 2, "a"), row(7, 2, 2, ""), RESTORE)
    );
    assert_eq!(
        paint(rect, &strings(&["a", "b", "c"]), false),
        format!("{}{}{}{}", SAVE, row(7, 1, 2, "a"), row(7, 2, 2, "b"), RESTORE)
    );
    let flat = Rect { x: 7, y: 1, w: 2, h: 0 };
    assert_eq!(paint(flat, &strings(&["a"]), false), format!("{}{}", SAVE, RESTORE));
    let last = Rect { x: 65534, y: 65534, w: 1, h: 1 };
    assert_eq!(
        paint(last, &strings(&["z"]), true),
        format!("{}{}{}", SAVE, row(65534, 65534, 1, "z"), RESTORE)
    );
}

#[test]
fn a_line_is_cut_to_the_cells_of_its_row() {
    assert_eq!(clip("hello", 3), "hel");
    assert_eq!(clip("hello", 5), "hello");
    assert_eq!(clip("hello", 9), "hello");
    assert_eq!(clip("hello", 0), "");
    assert_eq!(clip("", 4), "");
    assert_eq!(clip("\x1b[38;5;7mhello\x1b[39m", 2), "\x1b[38;5;7mhe\x1b[39m");
    assert_eq!(clip("\x1b[38;2;1;2;3mab\x1b[38;5;7mcd", 3), "\x1b[38;2;1;2;3mab\x1b[38;5;7mc");
    assert_eq!(clip("a\x1b7bc", 2), "a\x1b7b");
    assert_eq!(clip("a\x1b", 1), "a\x1b");
    assert_eq!(clip("é漢字", 2), "é漢");
    let rect = Rect { x: 1, y: 1, w: 2, h: 1 };
    assert_eq!(
        paint(rect, &strings(&["\x1b[1mabcdef\x1b[21m"]), true),
        format!("{}{}{}", SAVE, row(1, 1, 2, "\x1b[1mab\x1b[21m"), RESTORE)
    );
}

#[test]
fn the_longest_label_gives_the_width() {
    assert_eq!(widest(&strings(&[])), 0);
    assert_eq!(widest(&strings(&["a", "héé", "bb"])), 3);
    assert_eq!(widest(&strings(&["", ""])), 0);
    assert_eq!(widest(&vec!["x".repeat(70000)]), 65535);
}

#[test]
fn texts_are_split_into_their_lines() {
    assert_eq!(split(&strings(&["a\nb", "", "c\r\nd\n"])), strings(&["a", "b", "c", "d"]));
    assert_eq!(split(&strings(&[])), Vec::<String>::new());
    assert_eq!(split(&strings(&["\n"])), strings(&[""]));
}

#[test]
fn a_message_is_rendered_with_its_time_of_day() {
    let shown = note(86_399, "hello").render();
    let clock = shown.strip_prefix(WHITE).unwrap().strip_suffix(" - hello\n").unwrap();
    assert_eq!(clock.len(), 8);
    for (i, c) in clock.chars().enumerate() {
        if i == 2 || i == 5 {
            assert_eq!(c, ':');
        } else {
            assert!(c.is_ascii_digit());
        }
    }
    let early = note(-1, "x").render();
    assert_eq!(early.len(), format!("{}00:00:00 - x\n", WHITE).len());
    assert!(!early.contains("--"));
    assert_eq!(note(-62_167_219_201, "x").render(), format!("{}--:--:-- - x\n", WHITE));
    assert_eq!(note(i64::MIN, "x").render(), format!("{}--:--:-- - x\n", WHITE));
    assert_eq!(note(i64::MAX, "x").render(), format!("{}--:--:-- - x\n", WHITE));
    assert_eq!(note(253_402_300_800, "x").render(), format!("{}--:--:-- - x\n", WHITE));
    let said = Message::Incoming(XmppMessage::Chat(ChatMessage {
        id: "1".to_string(),
        timestamp: i64::MIN,
        from: bare("alice", "x"),
        to: bare("me", "x"),
        body: "hi".to_string(),
    }));
    assert_eq!(said.render(), said.to_string("--:--:--"));
    assert_eq!(
        said.render(),
        format!("{w}--:--:-- - \x1b[38;2;144;233;157malice@x:{w} hi", w = WHITE)
    );
}

#[test]
fn a_chat_is_drawn_over_its_whole_window() {
    let mut window = Window::chat(bare("alice", "x"));
    let rect = Rect { x: 1, y: 2, w: 10, h: 4 };
    assert_eq!(
        window.draw_with(rect, &strings(&["one", "two\nthree"])),
        paint(rect, &strings(&["one", "two", "three"]), true)
    );
    assert_eq!(window.draw(rect), paint(rect, &strings(&[]), true));
    let message = ChatMessage {
        id: "1".to_string(),
        timestamp: i64::MIN,
        from: bare("alice", "x"),
        to: bare("me", "x"),
        body: "hi\nthere".to_string(),
    };
    let event = Event::Message(Some(bare("me", "x")), Message::Incoming(XmppMessage::Chat(message.clone())));
    assert!(window.event(&event, 4));
    assert!(window.event(&event, 4));
    let shown = Message::Incoming(XmppMessage::Chat(message)).to_string("--:--:--");
    assert_eq!(window.draw(rect), window.draw_with(rect, &vec![shown.clone(), shown.clone()]));
    assert_eq!(window.draw(rect), paint(rect, &split(&vec![shown.clone(), shown.clone()]), true));
    let lines = split(&vec![shown.clone(), shown]);
    assert_eq!(lines.len(), 4);
    match &mut window {
        Window::Chat { log, .. } => log.view = 1,
        _ => panic!("no chat"),
    }
    assert_eq!(window.draw(rect), paint(rect, &lines[..3].to_vec(), true));
    match &mut window {
        Window::Chat { log, .. } => log.view = 4,
        _ => panic!("no chat"),
    }
    assert_eq!(window.draw(rect), paint(rect, &strings(&[]), true));
    match &mut window {
        Window::Chat { log, .. } => log.view = 7,
        _ => panic!("no chat"),
    }
    assert_eq!(window.draw(rect), paint(rect, &strings(&[]), true));
    let small = Rect { x: 1, y: 2, w: 10, h: 3 };
    match &mut window {
        Window::Chat { log, .. } => log.view = 0,
        _ => panic!("no chat"),
    }
    assert!(!window.event(&Event::Key(Key::PageUp), 3));
    match &window {
        Window::Chat { log, .. } => assert_eq!(log.view, 1),
        _ => panic!("no chat"),
    }
    assert_eq!(window.draw(small), paint(small, &lines[..3].to_vec(), true));
    assert!(!window.event(&Event::Key(Key::PageUp), 3));
    assert!(!window.event(&Event::Key(Key::PageDown), 3));
    match &window {
        Window::Chat { log, .. } => assert_eq!(log.view, 0),
        _ => panic!("no chat"),
    }
}

#[test]
fn the_lines_that_a_message_takes() {
    let from = aparte::jid::Jid::Bare(bare("me", "x"));
    let to = aparte::jid::Jid::Bare(bare("alice", "x"));
    let said = |body: &str| {
        Message::Incoming(XmppMessage::Chat(ChatMessage {
            id: "1".to_string(),
            timestamp: 5,
            from: bare("alice", "x"),
            to: bare("me", "x"),
            body: body.to_string(),
        }))
    };
    let all = vec![
        (note(5, ""), 0),
        (note(5, "a"), 1),
        (note(5, "a\nb\n"), 2),
        (note(5, "\n\n"), 2),
        (said(""), 1),
        (said("a"), 1),
        (said("a\r\nb\nc"), 3),
        (said("\n"), 1),
        (Message::outgoing_chat("i".to_string(), 5, &from, &to, ""), 1),
        (Message::outgoing_chat("i".to_string(), 5, &from, &to, "a\nb"), 2),
        (Message::outgoing_groupchat("i".to_string(), 5, &from, &to, "a\n\n"), 2),
        (Message::outgoing_groupchat("i".to_string(), 5, &from, &to, "\n"), 1),
    ];
    let mut win = aparte::buffered::BufferedWin::new();
    let mut total = 0;
    for (message, rows) in &all {
        assert_eq!(message.rows(), *rows);
        assert_eq!(message.render().lines().count(), *rows);
        win.recv_message(message);
        total += *rows as u128;
        assert_eq!(win.lines(), total);
    }
    assert_eq!(total, 17);
    assert_eq!(split(&win.render()).len(), 17);
    win.page_up(6);
    assert_eq!(win.view, 5);
    win.page_up(6);
    assert_eq!(win.view, 10);
    win.page_up(6);
    assert_eq!(win.view, 11);
    win.page_down(6);
    assert_eq!(win.view, 6);
    win.page_up(20);
    assert_eq!(win.view, 0);
}

#[test]
fn the_console_is_split_between_its_backlog_and_its_roster() {
    let mut console = Window::console();
    let me = bare("me", "x");
    console.event(&Event::Connected(me.clone(), aparte::jid::Jid::Bare(me)), 5);
    console.add_window("console");
    let rect = Rect { x: 1, y: 2, w: 40, h: 5 };
    let left = Rect { x: 1, y: 2, w: 31, h: 5 };
    let right = Rect { x: 32, y: 2, w: 9, h: 5 };
    let list = vec![
        format!("{}Windows{}", YELLOW, WHITE),
        "console".to_string(),
        format!("{}Contacts{}", YELLOW, WHITE),
        format!("{}Bookmarks{}", YELLOW, WHITE),
    ];
    assert_eq!(
        console.draw_with(rect, &strings(&["x"])),
        format!("{}{}", paint(left, &strings(&["x"]), true), paint(right, &list, false))
    );
    let narrow = Rect { x: 1, y: 2, w: 4, h: 1 };
    assert_eq!(
        console.draw_with(narrow, &strings(&["x"])),
        format!(
            "{}{}",
            paint(Rect { x: 1, y: 2, w: 0, h: 1 }, &strings(&["x"]), true),
            paint(Rect { x: 1, y: 2, w: 4, h: 1 }, &list, false)
        )
    );
}

#[test]
fn the_input_line_is_drawn_with_its_cursor() {
    let mut input = View::<Input>::new();
    input.place(1, 24, 10, 1);
    assert!(input.is_dirty());
    assert_eq!(input.redraw(), format!("{}\x1b[24;1H", row(1, 24, 10, "")));
    assert!(!input.is_dirty());
    input.content.key('a');
    input.content.key('é');
    input.content.left();
    assert_eq!(input.redraw(), format!("{}\x1b[24;2H", row(1, 24, 10, "aé")));
    input.content.password();
    assert_eq!(input.redraw(), format!("{}\x1b[24;1H", row(1, 24, 10, "")));
    let mut far = View::<Input>::new();
    far.place(65534, 3, 5, 1);
    far.content.key('a');
    far.content.key('b');
    assert_eq!(far.redraw(), format!("{}\x1b[3;65535H", row(65534, 3, 5, "ab")));
}

#[test]
fn the_interface_draws_what_has_changed() {
    let mut ui = UIPlugin::new(20, 6);
    let mut aparte = Aparte::new();
    assert_eq!(ui.init(&mut aparte), Ok(()));
    let frame = Rect { x: 1, y: 2, w: 20, h: 3 };
    let window = ui.frame.content.children[0].1.draw_with(frame, &Vec::new());
    let bars = ui.out.clone();
    assert!(bars.starts_with("\x1b[2J"));
    assert_eq!(ui.draw(), format!("{}{}{}\x1b[6;1H", window, bars, row(1, 6, 20, "")));
    assert_eq!(ui.out, "");
    assert_eq!(ui.draw(), "");
    ui.on_event(&mut aparte, &Event::Key(Key::Char('a')));
    assert_eq!(ui.draw(), format!("{}{}\x1b[6;2H", window, row(1, 6, 20, "a")));
    ui.frame.dirty = true;
    assert_eq!(ui.draw(), window);
    ui.change_window("nowhere");
    let bars = ui.out.clone();
    assert!(!bars.is_empty());
    assert_eq!(ui.draw(), bars);
}

#[test]
fn the_size_of_the_terminal_is_followed() {
    let mut session = Dispatcher::new(80, 24);
    assert!(!session.resize(80, 24));
    assert!(session.aparte.next_event().is_none());
    assert!(session.resize(100, 30));
    assert_eq!(session.ui.size, (100, 30));
    assert_eq!(session.ui.input.y, 24);
    assert!(session.step());
    assert!(!session.step());
    assert_eq!((session.ui.input.y, session.ui.input.w), (30, Some(100)));
    assert_eq!((session.ui.frame.y, session.ui.frame.h), (2, Some(27)));
    assert!(session.resize(65535, 65535));
    assert_eq!(session.ui.size, (65534, 65534));
    assert!(!session.resize(65534, 65535));
}

#[test]
fn the_input_line_stays_in_its_row() {
    let mut input = View::<Input>::new();
    input.place(3, 9, 4, 1);
    for c in "abcdef".chars() {
        input.content.key(c);
    }
    assert_eq!(input.redraw(), format!("{}\x1b[9;6H", row(3, 9, 4, "abcd")));
    input.content.home();
    input.content.right();
    assert_eq!(input.redraw(), format!("{}\x1b[9;4H", row(3, 9, 4, "abcd")));
    input.place(3, 9, 0, 1);
    assert_eq!(input.redraw(), format!("{}\x1b[9;3H", row(3, 9, 0, "")));
}
