use aparte::bookmarks::{BookmarkAction, BookmarkError, BookmarksPlugin};
use aparte::carbons::CarbonsPlugin;
use aparte::command::Command;
use aparte::disco::Disco;
use aparte::event::Event;
use aparte::jid::{BareJid, FullJid, Jid};
use aparte::session::Aparte;
use std::convert::TryFrom;
use xmpp_parsers::bookmarks2::{Autojoin, Conference};
use xmpp_parsers::data_forms::{DataFormType, FieldType};
use xmpp_parsers::iq::{Iq, IqType};
use xmpp_parsers::pubsub::pubsub::PubSub;
use xmpp_parsers::pubsub::ItemId;

fn line(text: &str) -> Command {
    Command::try_from(text).unwrap()
}

fn room() -> BareJid {
    BareJid { node: Some("aparte".to_string()), domain: "conf.x".to_string() }
}

#[test]
fn bookmark_add() {
    let plugin = BookmarksPlugin::new();
    let mut aparte = Aparte::new();
    let done = plugin.execute(&mut aparte, &line("/bookmark add aparte aparte@conf.x/n autojoin=on"));
    assert_eq!(done, Ok(()));
    let element = aparte.next_stanza().unwrap();
    assert!(aparte.next_stanza().is_none());
    let iq = Iq::try_from(element).unwrap();
    assert_eq!(iq.id.len(), 36);
    let payload = match iq.payload {
        IqType::Set(payload) => payload,
        _ => panic!("no set"),
    };
    match PubSub::try_from(payload).unwrap() {
        PubSub::Publish { publish, publish_options } => {
            assert_eq!(publish.node.0, "urn:xmpp:bookmarks:1");
            assert_eq!(publish.items.len(), 1);
            let item = publish.items[0].0.clone();
            assert_eq!(item.id, Some(ItemId("aparte@conf.x".to_string())));
            assert!(item.publisher.is_none());
            let conference = Conference::try_from(item.payload.unwrap()).unwrap();
            assert_eq!(conference.autojoin, Autojoin::True);
            assert_eq!(conference.nick, Some("n".to_string()));
            assert_eq!(conference.name, Some("aparte".to_string()));
            assert_eq!(conference.password, None);
            let form = publish_options.unwrap().form.unwrap();
            assert_eq!(form.type_, DataFormType::Submit);
            assert_eq!(
                form.form_type,
                Some("http://jabber.org/protocol/pubsub#publish-options".to_string())
            );
            assert_eq!(form.fields.len(), 2);
            assert_eq!(form.fields[0].var, "pubsub#persist_items");
            assert_eq!(form.fields[0].type_, FieldType::Boolean);
            assert_eq!(form.fields[0].values, vec!["true".to_string()]);
            assert_eq!(form.fields[1].var, "pubsub#access_model");
            assert_eq!(form.fields[1].type_, FieldType::ListSingle);
            assert_eq!(form.fields[1].values, vec!["whitelist".to_string()]);
        }
        _ => panic!("no publish"),
    }
}

#[test]
fn a_bookmark_is_not_joined_by_itself_unless_asked() {
    let plugin = BookmarksPlugin::new();
    let request = plugin.add_as("id-1".to_string(), "aparte".to_string(), room(), None, false);
    let iq = Iq::try_from(request).unwrap();
    assert_eq!(iq.id, "id-1");
    let payload = match iq.payload {
        IqType::Set(payload) => payload,
        _ => panic!("no set"),
    };
    match PubSub::try_from(payload).unwrap() {
        PubSub::Publish { publish, .. } => {
            let item = publish.items[0].0.clone();
            let conference = Conference::try_from(item.payload.unwrap()).unwrap();
            assert_eq!(conference.autojoin, Autojoin::False);
            assert_eq!(conference.nick, None);
        }
        _ => panic!("no publish"),
    }
}

#[test]
fn every_request_has_an_identifier_of_its_own() {
    let plugin = BookmarksPlugin::new();
    let one = Iq::try_from(plugin.add("a".to_string(), room(), None, false)).unwrap();
    let two = Iq::try_from(plugin.add("a".to_string(), room(), None, false)).unwrap();
    assert_ne!(one.id, two.id);
    for id in [one.id, two.id] {
        assert_eq!(id.len(), 36);
        for (i, c) in id.chars().enumerate() {
            if i == 8 || i == 13 || i == 18 || i == 23 {
                assert_eq!(c, '-');
            } else {
                assert!(c.is_ascii_digit() || ('a'..='f').contains(&c));
            }
        }
    }
}

#[test]
fn command_parse_error() {
    let plugin = BookmarksPlugin::new();
    let mut aparte = Aparte::new();
    let done = plugin.execute(&mut aparte, &line("/bookmark add"));
    assert_eq!(done, Err("Missing bookmark name".to_string()));
    assert!(aparte.next_stanza().is_none());
    assert!(aparte.next_event().is_none());
}

#[test]
fn del_and_edit_send_nothing() {
    let plugin = BookmarksPlugin::new();
    let mut aparte = Aparte::new();
    assert_eq!(plugin.execute(&mut aparte, &line("/bookmark del aparte")), Ok(()));
    assert_eq!(plugin.execute(&mut aparte, &line("/bookmark edit aparte")), Ok(()));
    assert!(aparte.next_stanza().is_none());
}

#[test]
fn the_arguments_are_read() {
    assert_eq!(
        BookmarksPlugin::parse(&line("/bookmark add aparte aparte@conf.x")),
        Ok(BookmarkAction::Add {
            name: "aparte".to_string(),
            conference: Jid::Bare(room()),
            autojoin: None,
        })
    );
    assert_eq!(
        BookmarksPlugin::parse(&line("/bookmark add \"my room\" aparte@conf.x/nick autojoin=off")),
        Ok(BookmarkAction::Add {
            name: "my room".to_string(),
            conference: Jid::Full(FullJid {
                node: Some("aparte".to_string()),
                domain: "conf.x".to_string(),
                resource: "nick".to_string(),
            }),
            autojoin: Some(false),
        })
    );
    assert_eq!(
        BookmarksPlugin::parse(&line("/bookmark add a conf.x autojoin=off autojoin=on")),
        Ok(BookmarkAction::Add {
            name: "a".to_string(),
            conference: Jid::Bare(BareJid { node: None, domain: "conf.x".to_string() }),
            autojoin: Some(true),
        })
    );
    assert_eq!(
        BookmarksPlugin::parse(&line("/bookmark del aparte")),
        Ok(BookmarkAction::Del { name: "aparte".to_string() })
    );
    assert_eq!(
        BookmarksPlugin::parse(&line("/bookmark edit aparte")),
        Ok(BookmarkAction::Edit { name: "aparte".to_string() })
    );
}

#[test]
fn a_request_is_read_as_it_was_written() {
    let full = Jid::Full(FullJid {
        node: Some("aparte".to_string()),
        domain: "conf.x".to_string(),
        resource: "my nick".to_string(),
    });
    let actions = vec![
        BookmarkAction::Add { name: "a room".to_string(), conference: full, autojoin: Some(true) },
        BookmarkAction::Add {
            name: String::new(),
            conference: Jid::Bare(room()),
            autojoin: Some(false),
        },
        BookmarkAction::Add {
            name: "autojoin=on".to_string(),
            conference: Jid::Bare(BareJid { node: None, domain: "conf.x".to_string() }),
            autojoin: None,
        },
        BookmarkAction::Del { name: "add".to_string() },
        BookmarkAction::Edit { name: "\"quoted\" \\".to_string() },
    ];
    for action in actions {
        let command = action.to_command();
        assert_eq!(command.name, "bookmark");
        assert_eq!(BookmarksPlugin::parse(&command), Ok(action));
        let again = Command::try_from(command.to_string().as_str()).unwrap();
        assert_eq!(again, command);
    }
    let written = BookmarkAction::Add {
        name: "aparte".to_string(),
        conference: Jid::Bare(room()),
        autojoin: Some(true),
    }
    .to_command();
    assert_eq!(written.to_string(), "/bookmark add aparte aparte@conf.x autojoin=on");
}

#[test]
fn what_is_wrong_with_the_arguments() {
    let cases = [
        ("/bookmark", BookmarkError::MissingAction),
        ("/bookmark list", BookmarkError::UnknownAction),
        ("/bookmark Add a b@c", BookmarkError::UnknownAction),
        ("/bookmark add", BookmarkError::MissingName),
        ("/bookmark del", BookmarkError::MissingName),
        ("/bookmark edit", BookmarkError::MissingName),
        ("/bookmark add aparte", BookmarkError::MissingConference),
        ("/bookmark add aparte @conf.x", BookmarkError::InvalidConference),
        ("/bookmark add aparte aparte@", BookmarkError::InvalidConference),
        ("/bookmark add aparte aparte@conf.x/", BookmarkError::InvalidConference),
        ("/bookmark add aparte \"\"", BookmarkError::InvalidConference),
        ("/bookmark add aparte a@b autojoin=yes", BookmarkError::InvalidFlag),
        ("/bookmark add aparte a@b autojoin=on join=on", BookmarkError::InvalidFlag),
        ("/bookmark add aparte a@b extra", BookmarkError::InvalidFlag),
        ("/bookmark del aparte more", BookmarkError::TooManyArguments),
        ("/bookmark edit aparte a@b", BookmarkError::TooManyArguments),
    ];
    for (text, error) in cases {
        assert_eq!(BookmarksPlugin::parse(&line(text)), Err(error), "{}", text);
    }
}

#[test]
fn the_errors_in_words() {
    assert_eq!(BookmarkError::MissingAction.to_string(), "Missing action: add, del or edit");
    assert_eq!(
        BookmarkError::UnknownAction.to_string(),
        "Unknown action: not one of add, del and edit"
    );
    assert_eq!(BookmarkError::MissingName.to_string(), "Missing bookmark name");
    assert_eq!(BookmarkError::MissingConference.to_string(), "Missing conference address");
    assert_eq!(BookmarkError::InvalidConference.to_string(), "Invalid conference address");
    assert_eq!(
        BookmarkError::InvalidFlag.to_string(),
        "Invalid flag: not autojoin=on or autojoin=off"
    );
    assert_eq!(BookmarkError::TooManyArguments.to_string(), "Too many arguments");
}

#[test]
fn the_bookmarks_are_fetched_once_the_session_is_up() {
    let mut plugin = BookmarksPlugin::new();
    let mut aparte = Aparte::new();
    let me = BareJid { node: Some("me".to_string()), domain: "x".to_string() };
    plugin.on_event(&mut aparte, &Event::Disconnected);
    assert!(aparte.next_stanza().is_none());
    plugin.on_event(&mut aparte, &Event::Connected(me.clone(), Jid::Bare(me)));
    let iq = Iq::try_from(aparte.next_stanza().unwrap()).unwrap();
    assert_eq!(iq.id.len(), 36);
    let payload = match iq.payload {
        IqType::Get(payload) => payload,
        _ => panic!("no get"),
    };
    match PubSub::try_from(payload).unwrap() {
        PubSub::Items(items) => {
            assert_eq!(items.node.0, "urn:xmpp:bookmarks:1");
            assert_eq!(items.max_items, None);
            assert!(items.items.is_empty());
        }
        _ => panic!("no items"),
    }
    assert!(aparte.next_stanza().is_none());
}

#[test]
fn the_request_for_the_bookmarks() {
    let plugin = BookmarksPlugin::new();
    let iq = Iq::try_from(plugin.retreive_as("fetch-1".to_string())).unwrap();
    assert_eq!(iq.id, "fetch-1");
    assert!(iq.from.is_none());
    assert!(iq.to.is_none());
    match iq.payload {
        IqType::Get(payload) => match PubSub::try_from(payload).unwrap() {
            PubSub::Items(items) => {
                assert_eq!(items.node.0, "urn:xmpp:bookmarks:1");
                assert_eq!(items.subid, None);
            }
            _ => panic!("no items"),
        },
        _ => panic!("no get"),
    }
    let one = Iq::try_from(plugin.retreive()).unwrap();
    let two = Iq::try_from(plugin.retreive()).unwrap();
    assert_eq!(one.id.len(), 36);
    assert_ne!(one.id, two.id);
    assert!(matches!(one.payload, IqType::Get(_)));
}

#[test]
fn init_makes_the_command_and_the_feature_known() {
    let mut plugin = BookmarksPlugin::new();
    let mut aparte = Aparte::new();
    let mut disco = Disco::new();
    assert_eq!(plugin.init(&mut aparte, &mut disco), Ok(()));
    assert!(aparte.has_command("bookmark"));
    assert!(!aparte.has_command("win"));
    assert_eq!(disco.get_features(), vec!["urn:xmpp:bookmarks:1".to_string()]);
    assert_eq!(plugin.init(&mut aparte, &mut disco), Err(()));
    assert_eq!(disco.get_features().len(), 1);
}

#[test]
fn a_feature_is_added_once() {
    let mut disco = Disco::new();
    assert_eq!(disco.add_feature("a"), Ok(()));
    assert_eq!(disco.add_feature("b"), Ok(()));
    assert_eq!(disco.add_feature("a"), Err(()));
    assert!(disco.has_feature("b"));
    assert!(!disco.has_feature("c"));
    assert_eq!(disco.get_features(), vec!["a".to_string(), "b".to_string()]);
    assert_eq!(disco.to_string(), "XEP-0030: Service Discovery");
}

#[test]
fn the_bookmarks_plugin_has_a_name() {
    assert_eq!(BookmarksPlugin::new().to_string(), "XEP-0402: PEP Native Bookmarks");
}

#[test]
fn the_help_is_given_word_for_word() {
    assert_eq!(BookmarksPlugin::help(""), Some("/bookmark add|del|edit".to_string()));
    let add = BookmarksPlugin::help("add").unwrap();
    assert!(add.starts_with("/bookmark add <bookmark> <conference> [autojoin=on|off]\n\n    bookmark    The bookmark friendly name\n"));
    assert!(add.ends_with("    /bookmark add aparte aparte@conference.fariello.eu/mynick autojoin=on\n"));
    assert_eq!(add.lines().count(), 13);
    let del = BookmarksPlugin::help("del").unwrap();
    assert_eq!(
        del,
        "/bookmark del <bookmark>\n\n    bookmark    The bookmark friendly name\n\nDescription:\n    Delete a bookmark\n\nExamples:\n    /bookmark del aparte\n"
    );
    let edit = BookmarksPlugin::help("edit").unwrap();
    assert!(edit.contains("Description:\n    Edit a bookmark\n"));
    assert_eq!(edit.lines().count(), 13);
    assert_eq!(BookmarksPlugin::help("list"), None);
}

#[test]
fn the_request_for_the_copies() {
    let plugin = CarbonsPlugin::new();
    let iq = Iq::try_from(plugin.enable_as("c-1".to_string())).unwrap();
    assert_eq!(iq.id, "c-1");
    match iq.payload {
        IqType::Set(payload) => {
            assert!(payload.is("enable", "urn:xmpp:carbons:2"));
            assert_eq!(payload.children().count(), 0);
        }
        _ => panic!("no set"),
    }
    let one = Iq::try_from(plugin.enable()).unwrap();
    let two = Iq::try_from(plugin.enable()).unwrap();
    assert_eq!(one.id.len(), 36);
    assert_ne!(one.id, two.id);
    assert_eq!(plugin.to_string(), "XEP-0280: Message Carbons");
}

#[test]
fn the_copies_are_asked_for_once_the_session_is_up() {
    let mut plugin = CarbonsPlugin::new();
    let mut aparte = Aparte::new();
    let mut disco = Disco::new();
    assert_eq!(plugin.init(&mut aparte, &mut disco), Ok(()));
    assert_eq!(plugin.init(&mut aparte, &mut disco), Err(()));
    assert_eq!(disco.get_features(), vec!["urn:xmpp:carbons:2".to_string()]);
    let me = BareJid { node: Some("me".to_string()), domain: "x".to_string() };
    plugin.on_event(&mut aparte, &Event::Disconnected);
    assert!(aparte.next_stanza().is_none());
    plugin.on_event(&mut aparte, &Event::Connected(me.clone(), Jid::Bare(me)));
    let iq = Iq::try_from(aparte.next_stanza().unwrap()).unwrap();
    assert!(matches!(iq.payload, IqType::Set(_)));
    assert!(aparte.next_stanza().is_none());
}
