use aparte::buffered::BufferedWin;
use aparte::contact::{Bookmark, Contact, Group, Presence};
use aparte::conversation::{Affiliation, Occupant, Role};
use aparte::event::Event;
use aparte::jid::{BareJid, FullJid, Jid};
use aparte::layout::{arrange, measure, Ask, Orientation, Rect, Wish};
use aparte::listview::ListView;
use aparte::message::{ChatMessage, GroupchatMessage, LogMessage, Message, XmppMessage};
use aparte::roster::RosterItem;
use aparte::titlebar::TitleBar;
use aparte::view::{Dimension, View};
use aparte::winbar::WinBar;

const SAVE: &str = "\x1b[s";
const RESTORE: &str = "\x1b[u";
const BLUE: &str = "\x1b[48;5;4m";
const WHITE: &str = "\x1b[38;5;7m";
const YELLOW: &str = "\x1b[38;5;3m";
const GREEN: &str = "\x1b[38;5;2m";
const RESET: &str = "\x1b[49m\x1b[39m";
const BOLD: &str = "\x1b[1m";
const PLAIN: &str = "\x1b[21m";

fn bare(node: &str, domain: &str) -> BareJid {
    BareJid { node: Some(node.to_string()), domain: domain.to_string() }
}

fn title_bar(width: u16) -> View<TitleBar> {
    let mut bar = View::<TitleBar>::new();
    bar.place(1, 1, width, 1);
    bar
}

fn win_bar(width: u16) -> View<WinBar> {
    let mut bar = View::<WinBar>::new();
    bar.place(1, 23, width, 1);
    bar
}

fn wish(width: Dimension, height: Dimension) -> Wish {
    Wish { width, height, content_w: 0, content_h: 0 }
}

#[test]
fn the_title_bar_draws_the_name() {
    let mut bar = title_bar(9);
    assert!(bar.is_dirty());
    let out = bar.set_name("console");
    assert_eq!(
        out,
        format!("{}\x1b[1;1H{}{}         \x1b[1;1H console{}{}", SAVE, BLUE, WHITE, RESET, RESTORE)
    );
    assert!(!bar.is_dirty());
    assert_eq!(bar.content.window_name, Some("console".to_string()));
    assert_eq!(bar.redraw(), out);
    bar.place(1, 1, 8, 1);
    assert!(bar.redraw().contains("H console\x1b"));
}

#[test]
fn the_title_bar_stays_in_its_strip() {
    let mut bar = title_bar(5);
    assert_eq!(
        bar.set_name("console"),
        format!("{}\x1b[1;1H{}{}     \x1b[1;1H cons{}{}", SAVE, BLUE, WHITE, RESET, RESTORE)
    );
    bar.place(1, 1, 1, 1);
    assert_eq!(
        bar.redraw(),
        format!("{}\x1b[1;1H{}{} \x1b[1;1H {}{}", SAVE, BLUE, WHITE, RESET, RESTORE)
    );
    bar.place(1, 1, 0, 1);
    assert_eq!(
        bar.redraw(),
        format!("{}\x1b[1;1H{}{}\x1b[1;1H{}{}", SAVE, BLUE, WHITE, RESET, RESTORE)
    );
}

#[test]
fn the_window_bar_stays_in_its_strip() {
    let mut bar = win_bar(1);
    bar.content.connection = Some("abc".to_string());
    assert_eq!(
        bar.redraw(),
        format!("{}\x1b[23;1H{}{} \x1b[23;1H {}{}", SAVE, BLUE, WHITE, RESET, RESTORE)
    );
    bar.place(1, 23, 7, 1);
    bar.content.current_window = Some("console".to_string());
    assert_eq!(
        bar.redraw(),
        format!(
            "{}\x1b[23;1H{}{}       \x1b[23;1H abc [{}c{}{}{}",
            SAVE, BLUE, WHITE, BOLD, PLAIN, RESET, RESTORE
        )
    );
}

#[test]
fn the_title_bar_without_a_name() {
    let mut bar = View::<TitleBar>::new();
    bar.place(3, 12, 2, 1);
    assert_eq!(
        bar.redraw(),
        format!("{}\x1b[12;3H{}{}  \x1b[12;3H{}{}", SAVE, BLUE, WHITE, RESET, RESTORE)
    );
}

#[test]
fn the_title_bar_follows_the_window_in_front() {
    let mut bar = title_bar(30);
    assert_eq!(bar.event(&Event::Disconnected), "");
    assert_eq!(bar.content.window_name, None);
    let out = bar.event(&Event::ChangeWindow("a@x".to_string()));
    assert!(out.contains(" a@x"));
    assert_eq!(bar.content.window_name, Some("a@x".to_string()));
}

#[test]
fn set_name() {
    let mut bar = title_bar(1);
    bar.set_name("one");
    bar.set_name("two");
    assert_eq!(bar.content.window_name, Some("two".to_string()));
}

#[test]
fn add_window() {
    let mut bar = win_bar(10);
    let out = bar.add_window("console");
    assert_eq!(bar.content.windows, vec!["console".to_string()]);
    assert_eq!(
        out,
        format!(
            "{}\x1b[23;1H{}{}          \x1b[23;1H []{}{}",
            SAVE, BLUE, WHITE, RESET, RESTORE
        )
    );
    bar.add_window("a@x");
    assert_eq!(bar.content.windows, vec!["console".to_string(), "a@x".to_string()]);
}

#[test]
fn set_current_window() {
    let mut bar = win_bar(40);
    bar.add_window("a");
    bar.add_window("b");
    bar.highlight_window("a");
    bar.highlight_window("b");
    let out = bar.set_current_window("a");
    assert_eq!(bar.content.current_window, Some("a".to_string()));
    assert_eq!(bar.content.highlighted, vec!["b".to_string()]);
    assert_eq!(
        out,
        format!(
            "{}\x1b[23;1H{}{}{}\x1b[23;1H [{}a{}] [{}b{}]{}{}",
            SAVE,
            BLUE,
            WHITE,
            " ".repeat(40),
            BOLD,
            PLAIN,
            BOLD,
            PLAIN,
            RESET,
            RESTORE
        )
    );
}

#[test]
fn highlight_window() {
    let mut bar = win_bar(40);
    assert!(bar.highlight_window("a").is_some());
    assert!(bar.highlight_window("b").is_some());
    assert!(bar.highlight_window("a").is_none());
    assert_eq!(bar.content.highlighted, vec!["a".to_string(), "b".to_string()]);
    let out = bar.redraw();
    assert!(out.contains(&format!(" [] [{}a{}, {}b{}]", BOLD, PLAIN, BOLD, PLAIN)));
}

#[test]
fn the_window_bar_shows_the_account() {
    let mut bar = win_bar(40);
    let me = bare("me", "x");
    let out = bar.event(&Event::Connected(me.clone(), Jid::Bare(me)));
    assert_eq!(bar.content.connection, Some("me@x".to_string()));
    assert!(out.contains("\x1b[23;1H me@x []"));
}

#[test]
fn the_window_bar_lists_what_fits() {
    let mut bar = win_bar(20);
    bar.content.current_window = Some("cur".to_string());
    bar.content.highlighted =
        vec!["ab".to_string(), "cde".to_string(), "fghijk".to_string(), "l".to_string()];
    let out = bar.redraw();
    let listed = format!(
        " [{}cur{}] [{}ab{}, {}cde{}, …]",
        BOLD, PLAIN, BOLD, PLAIN, BOLD, PLAIN
    );
    assert!(out.contains(&listed), "{:?}", out);
    assert!(!out.contains("fghijk"));
    assert!(!out.contains("l\x1b"));
}

#[test]
fn the_window_bar_lists_nothing_where_nothing_fits() {
    let mut bar = win_bar(10);
    bar.content.current_window = Some("cur".to_string());
    bar.content.highlighted = vec!["abc".to_string()];
    let out = bar.redraw();
    assert!(out.ends_with(&format!(" [{}cur{}]{}{}", BOLD, PLAIN, RESET, RESTORE)), "{:?}", out);
    bar.content.highlighted = vec!["ab".to_string(), "c".to_string()];
    bar.place(1, 23, 14, 1);
    let out = bar.redraw();
    assert!(
        out.ends_with(&format!(
            " [{}cur{}] [{}ab{}, …]{}{}",
            BOLD, PLAIN, BOLD, PLAIN, RESET, RESTORE
        )),
        "{:?}",
        out
    );
    bar.place(1, 23, 12, 1);
    let out = bar.redraw();
    assert!(
        out.ends_with(&format!(
            "H [{}cur{}] [{}ab{}, {}{}",
            BOLD, PLAIN, BOLD, PLAIN, RESET, RESTORE
        )),
        "{:?}",
        out
    );
}

#[test]
fn the_window_bar_counts_bytes() {
    let mut bar = win_bar(10);
    bar.content.highlighted = vec!["éé".to_string()];
    let out = bar.redraw();
    assert!(!out.contains("éé"));
    bar.place(1, 23, 11, 1);
    let out = bar.redraw();
    assert!(out.contains("éé"));
}

#[test]
fn the_window_bar_marks_the_window_of_a_message() {
    let mut bar = win_bar(40);
    bar.add_window("console");
    bar.add_window("a@x");
    bar.set_current_window("console");
    let message = |from: &str| {
        Event::Message(
            Some(bare("me", "x")),
            Message::Incoming(XmppMessage::Chat(ChatMessage {
                id: "1".to_string(),
                timestamp: 0,
                from: bare(from, "x"),
                to: bare("me", "x"),
                body: "hi".to_string(),
            })),
        )
    };
    let once = bar.redraw();
    assert_eq!(bar.event(&message("b")), "");
    let out = bar.event(&message("a"));
    assert_eq!(bar.content.highlighted, vec!["a@x".to_string()]);
    let marked = bar.redraw();
    assert_ne!(once, marked);
    assert_eq!(out, format!("{}{}", marked, marked));
    assert_eq!(bar.event(&message("a")), marked);
    bar.set_current_window("a@x");
    assert_eq!(bar.event(&message("a")), "");
}

#[test]
fn a_note_is_shown_line_by_line() {
    let note = Message::Log(LogMessage { timestamp: 7, body: "one\ntwo\r\nthree\n".to_string() });
    assert_eq!(note.timestamp(), 7);
    assert_eq!(note.speaker_name(), None);
    assert_eq!(
        note.to_string("12:00:00"),
        format!("{w}12:00:00 - one\n{w}12:00:00 - two\n{w}12:00:00 - three\n", w = WHITE)
    );
    let empty = Message::Log(LogMessage { timestamp: 0, body: String::new() });
    assert_eq!(empty.to_string("12:00:00"), "");
}

#[test]
fn where_the_lines_of_a_note_end() {
    let shown = |body: &str| -> String {
        Message::Log(LogMessage { timestamp: 0, body: body.to_string() }).to_string("t")
    };
    let line = |text: &str| format!("{}t - {}\n", WHITE, text);
    assert_eq!(shown("\n"), line(""));
    assert_eq!(shown("a\n\nb"), format!("{}{}{}", line("a"), line(""), line("b")));
    assert_eq!(shown("a\r"), line("a\r"));
    assert_eq!(shown("a\r\r\nb\r"), format!("{}{}", line("a\r"), line("b\r")));
    assert_eq!(shown("\r\n"), line(""));
    assert_eq!(shown("a\rb"), line("a\rb"));
}

#[test]
fn what_a_contact_says_hangs_under_its_first_line() {
    let message = Message::Incoming(XmppMessage::Chat(ChatMessage {
        id: "1".to_string(),
        timestamp: 0,
        from: bare("alice", "x"),
        to: bare("me", "x"),
        body: "hi\nthere".to_string(),
    }));
    assert_eq!(message.speaker_name(), Some("alice@x".to_string()));
    assert_eq!(
        message.to_string("12:00:00"),
        format!(
            "{w}12:00:00 - \x1b[38;2;144;233;157malice@x:{w} hi\n{pad}there",
            w = WHITE,
            pad = " ".repeat("12:00:00 - alice@x: ".len())
        )
    );
}

#[test]
fn what_is_said_in_a_room_is_shown_with_the_nick() {
    let mut message = GroupchatMessage {
        id: "1".to_string(),
        timestamp: 0,
        from: bare("room", "conf.x"),
        from_full: Jid::Full(FullJid {
            node: Some("room".to_string()),
            domain: "conf.x".to_string(),
            resource: "bob".to_string(),
        }),
        to: bare("me", "x"),
        body: "hi".to_string(),
    };
    let shown = Message::Incoming(XmppMessage::Groupchat(message.clone()));
    assert_eq!(shown.speaker_name(), Some("bob".to_string()));
    assert_eq!(
        shown.to_string("01:02:03"),
        format!("{w}01:02:03 - \x1b[38;2;196;177;188mbob:{w} hi", w = WHITE)
    );
    message.from_full = Jid::Bare(bare("room", "conf.x"));
    let silent = Message::Incoming(XmppMessage::Groupchat(message));
    assert_eq!(silent.to_string("01:02:03"), "");
}

#[test]
fn what_the_user_says_is_shown_as_it_is() {
    let from = Jid::Bare(bare("me", "x"));
    let to = Jid::Full(FullJid {
        node: Some("alice".to_string()),
        domain: "x".to_string(),
        resource: "phone".to_string(),
    });
    let chat = Message::outgoing_chat("id".to_string(), 5, &from, &to, "a\nb");
    assert_eq!(
        chat.to_string("01:02:03"),
        format!("{w}01:02:03 - {y}me:{w} a\nb", w = WHITE, y = YELLOW)
    );
    match &chat {
        Message::Outgoing(XmppMessage::Chat(message)) => {
            assert_eq!(message.to, bare("alice", "x"));
            assert_eq!(message.timestamp, 5);
        }
        _ => panic!("no chat"),
    }
    let group = Message::outgoing_groupchat("id".to_string(), 5, &from, &to, "c");
    assert_eq!(
        group.to_string("01:02:03"),
        format!("{w}01:02:03 - {y}me:{w} c", w = WHITE, y = YELLOW)
    );
    assert_eq!(group.clone(), group);
}

#[test]
fn the_entries_of_the_roster() {
    let mut contact = Contact {
        jid: bare("alice", "x"),
        name: Some("Alice".to_string()),
        groups: vec![Group("friends".to_string())],
        presence: Presence::Available,
    };
    assert_eq!(contact.to_string(), format!("{}Alice (alice@x){}", GREEN, WHITE));
    contact.presence = Presence::Chat;
    assert!(contact.to_string().starts_with(GREEN));
    for presence in [Presence::Away, Presence::Dnd, Presence::Xa, Presence::Unavailable] {
        contact.presence = presence;
        contact.name = None;
        assert_eq!(contact.to_string(), format!("{}alice@x{}", WHITE, WHITE));
    }
    let mut bookmark = Bookmark {
        jid: bare("room", "conf.x"),
        name: Some("Room".to_string()),
        nick: None,
        password: None,
        autojoin: false,
    };
    assert_eq!(bookmark.to_string(), format!("Room{}", WHITE));
    bookmark.name = None;
    assert_eq!(bookmark.to_string(), format!("room@conf.x{}", WHITE));
    assert_eq!(Group("friends".to_string()).to_string(), format!("{}friends{}", YELLOW, WHITE));
    assert_eq!(RosterItem::Window("console".to_string()).to_string(), "console");
    assert_eq!(RosterItem::Bookmark(bookmark.clone()).to_string(), bookmark.to_string());
    assert_eq!(RosterItem::Contact(contact.clone()).to_string(), contact.to_string());
    assert_eq!(contact.clone(), contact);
}

#[test]
fn roster_entries_are_told_apart_by_what_they_stand_for() {
    let contact = |name: Option<&str>| {
        RosterItem::Contact(Contact {
            jid: bare("alice", "x"),
            name: name.map(|n| n.to_string()),
            groups: vec![],
            presence: Presence::Away,
        })
    };
    let bookmark = RosterItem::Bookmark(Bookmark {
        jid: bare("alice", "x"),
        name: None,
        nick: None,
        password: None,
        autojoin: true,
    });
    assert!(contact(None).eq(&contact(Some("Alice"))));
    assert!(!contact(None).eq(&bookmark));
    assert!(bookmark.eq(&bookmark.clone()));
    assert!(RosterItem::Window("a".to_string()).eq(&RosterItem::Window("a".to_string())));
    assert!(!RosterItem::Window("a".to_string()).eq(&RosterItem::Window("b".to_string())));
    assert!(!RosterItem::Window("alice@x".to_string()).eq(&contact(None)));
}

#[test]
fn occupants_and_roles() {
    let occupant = Occupant {
        nick: "bob".to_string(),
        jid: None,
        affiliation: Affiliation::NoAffiliation,
        role: Role::Visitor,
    };
    assert_eq!(occupant.to_string(), format!("\x1b[38;2;196;177;188mbob{}", WHITE));
    assert_eq!(occupant.clone(), occupant);
    assert_eq!(Role::Moderator.to_string(), format!("{y}Moderators{y}", y = YELLOW));
    assert_eq!(Role::Participant.to_string(), format!("{y}Participants{y}", y = YELLOW));
    assert_eq!(Role::Visitor.to_string(), format!("{y}Visitors{y}", y = YELLOW));
    assert_eq!(Role::NoRole.to_string(), format!("{y}Others{y}", y = YELLOW));
}

#[test]
fn addresses_as_they_are_written() {
    let full = FullJid {
        node: Some("a".to_string()),
        domain: "b".to_string(),
        resource: "c".to_string(),
    };
    assert_eq!(full.to_string(), "a@b/c");
    assert_eq!(full.to_bare(), bare("a", "b"));
    assert_eq!(Jid::Full(full.clone()).to_bare(), bare("a", "b"));
    assert_eq!(Jid::Full(full.clone()).resource(), Some("c".to_string()));
    assert_eq!(Jid::Full(full).to_string(), "a@b/c");
    let domain = BareJid { node: None, domain: "b".to_string() };
    assert_eq!(domain.to_string(), "b");
    assert_eq!(Jid::Bare(domain.clone()).resource(), None);
    assert_eq!(Jid::Bare(domain.clone()).to_string(), "b");
    assert!(domain.same(&domain.clone()));
    assert!(!domain.same(&bare("a", "b")));
    assert!(!bare("a", "b").same(&bare("a", "c")));
}

#[test]
fn a_backlog_scrolls_by_pages() {
    let mut win = BufferedWin::new();
    assert_eq!(win.bell(), "\x07");
    for i in 0..30 {
        win.recv_message(&Message::Log(LogMessage { timestamp: i, body: "x".to_string() }));
    }
    assert_eq!(win.history.len(), 30);
    assert_eq!(win.history[29].timestamp(), 29);
    assert_eq!(win.view, 0);
    win.page_up(10);
    assert_eq!(win.view, 9);
    win.page_up(10);
    assert_eq!(win.view, 18);
    win.page_up(10);
    assert_eq!(win.view, 20);
    win.page_up(10);
    assert_eq!(win.view, 20);
    win.page_down(10);
    assert_eq!(win.view, 11);
    win.page_down(10);
    win.page_down(10);
    assert_eq!(win.view, 0);
    win.page_down(10);
    assert_eq!(win.view, 0);
    win.page_up(0);
    assert_eq!(win.view, 0);
    win.page_up(40);
    assert_eq!(win.view, 0);
}

#[test]
fn a_linear_layout_shares_its_room() {
    let asks = vec![
        Ask { size: Dimension::MatchParent, content: 0 },
        Ask { size: Dimension::Absolute(5), content: 0 },
        Ask { size: Dimension::WrapContent, content: 7 },
        Ask { size: Dimension::MatchParent, content: 0 },
        Ask { size: Dimension::Absolute(4), content: 0 },
    ];
    assert_eq!(measure(&asks, 30), vec![7, 5, 7, 7, 4]);
    assert_eq!(measure(&asks, 12), vec![0, 5, 3, 0, 4]);
    assert_eq!(measure(&asks, 7), vec![0, 5, 0, 0, 2]);
    assert_eq!(measure(&asks, 0), vec![0, 0, 0, 0, 0]);
    assert_eq!(measure(&asks, 31), vec![7, 5, 7, 7, 4]);
    assert_eq!(measure(&Vec::new(), 31), Vec::<u16>::new());
}

#[test]
fn view_tree_geometry() {
    let wishes = vec![
        wish(Dimension::MatchParent, Dimension::Absolute(1)),
        wish(Dimension::MatchParent, Dimension::MatchParent),
        wish(Dimension::MatchParent, Dimension::Absolute(1)),
        wish(Dimension::Absolute(200), Dimension::Absolute(1)),
    ];
    let bounds = Rect { x: 1, y: 1, w: 80, h: 24 };
    let rects = arrange(Orientation::Vertical, &wishes, bounds);
    assert_eq!(
        rects,
        vec![
            Rect { x: 1, y: 1, w: 80, h: 1 },
            Rect { x: 1, y: 2, w: 80, h: 21 },
            Rect { x: 1, y: 23, w: 80, h: 1 },
            Rect { x: 1, y: 24, w: 80, h: 1 },
        ]
    );
    let sides = vec![
        wish(Dimension::MatchParent, Dimension::MatchParent),
        Wish {
            width: Dimension::WrapContent,
            height: Dimension::WrapContent,
            content_w: 20,
            content_h: 5,
        },
    ];
    let rects = arrange(Orientation::Horizontal, &sides, Rect { x: 1, y: 2, w: 80, h: 21 });
    assert_eq!(
        rects,
        vec![Rect { x: 1, y: 2, w: 60, h: 21 }, Rect { x: 61, y: 2, w: 20, h: 5 }]
    );
    for (i, a) in rects.iter().enumerate() {
        assert!(a.x >= 1 && a.x + a.w <= 81 && a.y >= 2 && a.y + a.h <= 23);
        for b in rects.iter().skip(i + 1) {
            assert!(a.x + a.w <= b.x || b.x + b.w <= a.x || a.y + a.h <= b.y || b.y + b.h <= a.y);
        }
    }
}

#[test]
fn a_list_keeps_its_groups_and_entries() {
    let mut list: ListView<Group, RosterItem> = ListView::new().with_none_group().with_sort_item();
    let group = |name: &str| Group(name.to_string());
    let window = |name: &str| RosterItem::Window(name.to_string());
    list.add_group(group("Windows"));
    list.add_group(group("Contacts"));
    list.add_group(group("Windows"));
    assert_eq!(list.groups, vec![group("Windows"), group("Contacts")]);
    list.insert(window("b"), Some(group("Windows")));
    list.insert(window("a"), Some(group("Windows")));
    list.insert(window("c"), Some(group("Windows")));
    list.insert(window("b"), Some(group("Windows")));
    list.insert(window("b"), Some(group("Other")));
    list.insert(window("z"), None);
    let names = |row: &Vec<RosterItem>| -> Vec<String> {
        row.iter().map(|item| item.to_string()).collect()
    };
    assert_eq!(names(&list.rows[0]), vec!["a", "b", "c"]);
    assert!(list.rows[1].is_empty());
    assert_eq!(names(&list.rows[2]), vec!["b"]);
    assert_eq!(names(&list.loose), vec!["z"]);
    assert_eq!(list.groups.len(), 3);
    assert_eq!(list.remove(&window("b"), Some(group("Windows"))), Ok(()));
    assert_eq!(list.remove(&window("b"), Some(group("Windows"))), Err(()));
    assert_eq!(list.remove(&window("b"), Some(group("Nowhere"))), Err(()));
    assert_eq!(list.remove(&window("z"), None), Ok(()));
    assert_eq!(list.remove(&window("z"), None), Err(()));
    assert_eq!(names(&list.rows[0]), vec!["a", "c"]);
    assert_eq!(names(&list.rows[2]), vec!["b"]);
}

#[test]
fn a_list_without_order_or_loose_entries() {
    let mut list: ListView<Group, RosterItem> = ListView::new();
    let window = |name: &str| RosterItem::Window(name.to_string());
    list.insert(window("z"), None);
    assert!(list.loose.is_empty());
    list.insert(window("b"), Some(Group("g".to_string())));
    list.insert(window("a"), Some(Group("g".to_string())));
    list.insert(window("b"), Some(Group("g".to_string())));
    let names: Vec<String> = list.rows[0].iter().map(|item| item.to_string()).collect();
    assert_eq!(names, vec!["a", "b"]);
}

#[test]
fn a_list_of_unique_entries_holds_an_entry_once() {
    let mut list: ListView<Role, Occupant> = ListView::new().with_unique_item();
    let occupant = |nick: &str, role: Role| Occupant {
        nick: nick.to_string(),
        jid: None,
        affiliation: Affiliation::Member,
        role,
    };
    list.insert(occupant("a", Role::Visitor), Some(Role::Visitor));
    list.insert(occupant("b", Role::Visitor), Some(Role::Visitor));
    list.insert(occupant("a", Role::Moderator), Some(Role::Moderator));
    assert_eq!(list.groups, vec![Role::Visitor, Role::Moderator]);
    assert_eq!(list.rows[0], vec![occupant("b", Role::Visitor)]);
    assert_eq!(list.rows[1], vec![occupant("a", Role::Moderator)]);
}
