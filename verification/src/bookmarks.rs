//! Bookmarked rooms, kept on the server in a private node.
//!
//! The bookmarks are fetched when the session is up. `/bookmark add`
//! publishes one, under the address of its room, and asks the server to
//! keep it and to show it to nobody else.

use crate::command::{Command, CommandView};
use crate::disco::Disco;
use crate::event::Event;
use crate::fresh::{is_id, new_id};
use crate::jid::{jid_of, parse_jid, BareJid, BareJidView, Jid, JidView};
use crate::session::Aparte;
use crate::text::{text_of, texts};
use vstd::prelude::*;
use vstd::string::*;
use xmpp_parsers::data_forms::{DataForm, Field};
use xmpp_parsers::Element;

verus! {

#[verifier::external_type_specification]
#[verifier::external_body]
pub struct ExField(Field);

#[verifier::external_type_specification]
#[verifier::external_body]
pub struct ExDataForm(DataForm);

/// The kinds of field that the options of a publication use.
#[derive(Clone, Copy, Debug, PartialEq, Eq, Structural)]
pub enum FieldKind {
    Boolean,
    ListSingle,
}

/// The field of a form with one value.
pub uninterp spec fn field_of(var: Seq<char>, kind: FieldKind, value: Seq<char>) -> Field;

/// The form that submits `fields` under a form type.
pub uninterp spec fn form_of(form_type: Seq<char>, fields: Seq<Field>) -> DataForm;

/// The bookmark of a room as an element.
pub uninterp spec fn conference_of(
    autojoin: bool,
    name: Option<Seq<char>>,
    nick: Option<Seq<char>>,
) -> Element;

/// The request that publishes one item on a node, with options.
pub uninterp spec fn publish_of(
    id: Seq<char>,
    node: Seq<char>,
    item: Seq<char>,
    payload: Element,
    options: DataForm,
) -> Element;

/// The request for the items of a node.
pub uninterp spec fn items_of(id: Seq<char>, node: Seq<char>) -> Element;

/// `xmpp_parsers::ns::BOOKMARKS2`: the namespace of the bookmarks, which
/// is also the name of their node.
#[verifier::external_body]
fn bookmarks_ns() -> (ns: &'static str)
    ensures
        ns@ == "urn:xmpp:bookmarks:1"@,
{
    xmpp_parsers::ns::BOOKMARKS2
}

/// A `xmpp_parsers::data_forms::Field` with a name, a type and one value;
/// without label, options or media, and not required.
#[verifier::external_body]
fn form_field(var: &str, kind: FieldKind, value: &str) -> (field: Field)
    ensures
        field == field_of(var@, kind, value@),
{
    Field {
        var: String::from(var),
        type_: match kind {
            FieldKind::Boolean => xmpp_parsers::data_forms::FieldType::Boolean,
            FieldKind::ListSingle => xmpp_parsers::data_forms::FieldType::ListSingle,
        },
        label: None,
        required: false,
        media: vec![],
        options: vec![],
        values: vec![String::from(value)],
    }
}

/// A `xmpp_parsers::data_forms::DataForm` of type `submit` with a form
/// type and fields; without title or instructions.
#[verifier::external_body]
fn submit_form(form_type: &str, fields: Vec<Field>) -> (form: DataForm)
    ensures
        form == form_of(form_type@, fields@),
{
    DataForm {
        type_: xmpp_parsers::data_forms::DataFormType::Submit,
        form_type: Some(String::from(form_type)),
        title: None,
        instructions: None,
        fields,
    }
}

/// A `xmpp_parsers::bookmarks2::Conference` with a name, maybe a nick,
/// and no password or extensions, turned into an element.
#[verifier::external_body]
fn conference_payload(autojoin: bool, name: Option<String>, nick: Option<String>) -> (payload:
    Element)
    ensures
        payload == conference_of(autojoin, text_of(name), text_of(nick)),
{
    xmpp_parsers::bookmarks2::Conference {
        autojoin: match autojoin {
            true => xmpp_parsers::bookmarks2::Autojoin::True,
            false => xmpp_parsers::bookmarks2::Autojoin::False,
        },
        name,
        nick,
        password: None,
        extensions: None,
    }.into()
}

/// `xmpp_parsers::iq::Iq::from_set` around a `PubSub::Publish` of one
/// item, with an identifier and a payload and no publisher, and with a
/// form as its options; turned into an element.
#[verifier::external_body]
fn publish_iq(id: String, node: &str, item: String, payload: Element, options: DataForm) -> (iq:
    Element)
    ensures
        iq == publish_of(id@, node@, item@, payload, options),
{
    let item = xmpp_parsers::pubsub::Item {
        id: Some(xmpp_parsers::pubsub::ItemId(item)),
        payload: Some(payload),
        publisher: None,
    };
    let publish = xmpp_parsers::pubsub::pubsub::Publish {
        node: xmpp_parsers::pubsub::NodeName(String::from(node)),
        items: vec![xmpp_parsers::pubsub::pubsub::Item(item)],
    };
    let publish_options = Some(xmpp_parsers::pubsub::pubsub::PublishOptions { form: Some(options) });
    xmpp_parsers::iq::Iq::from_set(
        id,
        xmpp_parsers::pubsub::PubSub::Publish { publish, publish_options },
    ).into()
}

/// `xmpp_parsers::iq::Iq::from_get` around a `PubSub::Items` for a node,
/// without a limit, a subscription or items; turned into an element.
#[verifier::external_body]
fn items_iq(id: String, node: &str) -> (iq: Element)
    ensures
        iq == items_of(id@, node@),
{
    let items = xmpp_parsers::pubsub::pubsub::Items {
        max_items: None,
        node: xmpp_parsers::pubsub::NodeName(String::from(node)),
        subid: None,
        items: vec![],
    };
    xmpp_parsers::iq::Iq::from_get(id, xmpp_parsers::pubsub::PubSub::Items(items)).into()
}

/// The options under which a bookmark is published: the server is to
/// keep the item, and to let nobody but the owner see it.
pub open spec fn publish_options() -> DataForm {
    form_of(
        "http://jabber.org/protocol/pubsub#publish-options"@,
        seq![
            field_of("pubsub#persist_items"@, FieldKind::Boolean, "true"@),
            field_of("pubsub#access_model"@, FieldKind::ListSingle, "whitelist"@),
        ],
    )
}

/// The request that publishes the bookmark of a room: on the node of the
/// bookmarks, under the address of the room.
pub open spec fn bookmark_publication(
    id: Seq<char>,
    name: Seq<char>,
    conference: BareJidView,
    nick: Option<Seq<char>>,
    autojoin: bool,
) -> Element {
    publish_of(
        id,
        "urn:xmpp:bookmarks:1"@,
        conference.text(),
        conference_of(autojoin, Some(name), nick),
        publish_options(),
    )
}

/// Whether `request` asks for the bookmarks that the server keeps, under
/// an identifier of its own.
pub open spec fn is_request(request: Element) -> bool {
    exists|id: Seq<char>| is_id(id) && request == #[trigger] items_of(id, "urn:xmpp:bookmarks:1"@)
}

/// Whether `after` is what waits to be sent once the plugin has taken an
/// event, where `before` waited before: once the session is up the
/// bookmarks are asked for, and everything else sends nothing.
pub open spec fn fetches(event: Event, before: Seq<Element>, after: Seq<Element>) -> bool {
    if event is Connected {
        &&& after.len() == before.len() + 1
        &&& after.drop_last() == before
        &&& is_request(after.last())
    } else {
        after == before
    }
}

/// Whether a room is to be joined by itself: only where the flag says so.
pub open spec fn joins(autojoin: Option<bool>) -> bool {
    autojoin == Some(true)
}

/// Whether `after` is what waits to be sent once a request to the
/// bookmarks was carried out, where `before` waited before: `add` sends
/// the request that publishes the bookmark, under an identifier of its
/// own; everything else sends nothing.
pub open spec fn sends(
    asked: Result<BookmarkActionView, BookmarkError>,
    before: Seq<Element>,
    after: Seq<Element>,
) -> bool {
    match asked {
        Ok(BookmarkActionView::Add { name, conference, autojoin }) => {
            &&& after.len() == before.len() + 1
            &&& after.drop_last() == before
            &&& publishes(after.last(), name, conference, autojoin)
        },
        _ => after == before,
    }
}

/// Whether `request` publishes the bookmark that `/bookmark add` asks
/// for, under an identifier of its own: the nick is the resource of the
/// address, where it has one.
pub open spec fn publishes(
    request: Element,
    name: Seq<char>,
    conference: JidView,
    autojoin: Option<bool>,
) -> bool {
    exists|id: Seq<char>|
        is_id(id) && request == #[trigger] bookmark_publication(
            id,
            name,
            conference.bare(),
            conference.resource(),
            joins(autojoin),
        )
}

/// What the user asks of the bookmarks.
#[derive(Debug, PartialEq, Eq)]
pub enum BookmarkAction {
    /// `/bookmark add <bookmark> <conference> [autojoin=on|off]`
    Add { name: String, conference: Jid, autojoin: Option<bool> },
    /// `/bookmark del <bookmark>`
    Del { name: String },
    /// `/bookmark edit <bookmark>`
    Edit { name: String },
}

/// What a request to the bookmarks holds.
pub enum BookmarkActionView {
    Add { name: Seq<char>, conference: JidView, autojoin: Option<bool> },
    Del { name: Seq<char> },
    Edit { name: Seq<char> },
}

impl View for BookmarkAction {
    type V = BookmarkActionView;

    open spec fn view(&self) -> BookmarkActionView {
        match self {
            BookmarkAction::Add { name, conference, autojoin } => BookmarkActionView::Add {
                name: name@,
                conference: conference@,
                autojoin: *autojoin,
            },
            BookmarkAction::Del { name } => BookmarkActionView::Del { name: name@ },
            BookmarkAction::Edit { name } => BookmarkActionView::Edit { name: name@ },
        }
    }
}

/// Why the arguments of `/bookmark` are not in order.
#[derive(Clone, Copy, Debug, PartialEq, Eq, Structural)]
pub enum BookmarkError {
    /// Nothing follows the name of the command.
    MissingAction,
    /// The action is none of `add`, `del` and `edit`.
    UnknownAction,
    /// The name of the bookmark is missing.
    MissingName,
    /// The address of the room is missing.
    MissingConference,
    /// The address of the room is no address.
    InvalidConference,
    /// An argument is neither `autojoin=on` nor `autojoin=off`.
    InvalidFlag,
    /// More arguments follow than the action takes.
    TooManyArguments,
}

/// Whether the last of the first `k` flags says to join, if there are
/// any; an error if one of them is no flag.
pub open spec fn read_flags(flags: Seq<Seq<char>>, k: int) -> Result<Option<bool>, BookmarkError>
    decreases k,
{
    if k <= 0 {
        Ok(None)
    } else {
        match read_flags(flags, k - 1) {
            Err(e) => Err(e),
            Ok(_) => if flags[k - 1] == "autojoin=on"@ {
                Ok(Some(true))
            } else if flags[k - 1] == "autojoin=off"@ {
                Ok(Some(false))
            } else {
                Err(BookmarkError::InvalidFlag)
            },
        }
    }
}

/// What the arguments of `/bookmark` ask for.
///
/// The first argument names the action. `add` takes the name of the
/// bookmark and the address of the room, and then flags; `del` and `edit`
/// take the name of the bookmark and nothing else.
pub open spec fn read(args: Seq<Seq<char>>) -> Result<BookmarkActionView, BookmarkError> {
    if args.len() == 0 {
        Err(BookmarkError::MissingAction)
    } else if args[0] == "add"@ {
        if args.len() < 2 {
            Err(BookmarkError::MissingName)
        } else if args.len() < 3 {
            Err(BookmarkError::MissingConference)
        } else {
            match jid_of(args[2]) {
                None => Err(BookmarkError::InvalidConference),
                Some(conference) => match read_flags(args.skip(3), args.len() - 3) {
                    Err(e) => Err(e),
                    Ok(autojoin) => Ok(
                        BookmarkActionView::Add { name: args[1], conference, autojoin },
                    ),
                },
            }
        }
    } else if args[0] == "del"@ || args[0] == "edit"@ {
        if args.len() < 2 {
            Err(BookmarkError::MissingName)
        } else if args.len() > 2 {
            Err(BookmarkError::TooManyArguments)
        } else if args[0] == "del"@ {
            Ok(BookmarkActionView::Del { name: args[1] })
        } else {
            Ok(BookmarkActionView::Edit { name: args[1] })
        }
    } else {
        Err(BookmarkError::UnknownAction)
    }
}

impl BookmarkError {
    /// The error in words.
    pub open spec fn text(self) -> Seq<char> {
        match self {
            BookmarkError::MissingAction => "Missing action: add, del or edit"@,
            BookmarkError::UnknownAction => "Unknown action: not one of add, del and edit"@,
            BookmarkError::MissingName => "Missing bookmark name"@,
            BookmarkError::MissingConference => "Missing conference address"@,
            BookmarkError::InvalidConference => "Invalid conference address"@,
            BookmarkError::InvalidFlag => "Invalid flag: not autojoin=on or autojoin=off"@,
            BookmarkError::TooManyArguments => "Too many arguments"@,
        }
    }

    /// The error in words.
    pub fn to_string(&self) -> (s: String)
        ensures
            s@ == self.text(),
    {
        match self {
            BookmarkError::MissingAction => String::from_str("Missing action: add, del or edit"),
            BookmarkError::UnknownAction => String::from_str(
                "Unknown action: not one of add, del and edit",
            ),
            BookmarkError::MissingName => String::from_str("Missing bookmark name"),
            BookmarkError::MissingConference => String::from_str("Missing conference address"),
            BookmarkError::InvalidConference => String::from_str("Invalid conference address"),
            BookmarkError::InvalidFlag => String::from_str(
                "Invalid flag: not autojoin=on or autojoin=off",
            ),
            BookmarkError::TooManyArguments => String::from_str("Too many arguments"),
        }
    }
}

fn is(text: &String, word: &str) -> (same: bool)
    ensures
        same == (text@ == word@),
{
    *text == word.to_owned()
}

/// Reads the flags of `/bookmark add`.
fn flags_of(args: &Vec<String>) -> (r: Result<Option<bool>, BookmarkError>)
    requires
        args@.len() >= 3,
    ensures
        r == read_flags(texts(args@).skip(3), args@.len() - 3),
{
    let ghost flags = texts(args@).skip(3);
    let mut autojoin: Option<bool> = None;
    let mut i: usize = 3;
    while i < args.len()
        invariant
            3 <= i <= args@.len(),
            flags == texts(args@).skip(3),
            read_flags(flags, i - 3) == Ok::<Option<bool>, BookmarkError>(autojoin),
        decreases args.len() - i,
    {
        proof {
            assert(flags[i - 3] == args@[i as int]@);
        }
        if is(&args[i], "autojoin=on") {
            autojoin = Some(true);
        } else if is(&args[i], "autojoin=off") {
            autojoin = Some(false);
        } else {
            proof {
                flags_fail(flags, i - 2, args@.len() - 3);
            }
            return Err(BookmarkError::InvalidFlag);
        }
        i = i + 1;
    }
    Ok(autojoin)
}

/// Once the reading of flags has failed, it fails for good.
proof fn flags_fail(flags: Seq<Seq<char>>, k: int, n: int)
    requires
        0 <= k <= n,
        read_flags(flags, k) is Err,
    ensures
        read_flags(flags, n) == read_flags(flags, k),
        read_flags(flags, k) == Err::<Option<bool>, BookmarkError>(BookmarkError::InvalidFlag),
    decreases n - k,
{
    flags_error(flags, k);
    if k < n {
        flags_fail(flags, k + 1, n);
    }
}

proof fn flags_error(flags: Seq<Seq<char>>, k: int)
    ensures
        read_flags(flags, k) matches Err(e) ==> e == BookmarkError::InvalidFlag,
    decreases k,
{
    if k > 0 {
        flags_error(flags, k - 1);
    }
}

/// The help for `/bookmark` under the empty topic, and for each of its
/// actions under the name of the action.
pub open spec fn help_text(topic: Seq<char>) -> Option<Seq<char>> {
    if topic == ""@ {
        Some("/bookmark add|del|edit"@)
    } else if topic == "add"@ {
        Some(
            "/bookmark add <bookmark> <conference> [autojoin=on|off]\n\n    bookmark    The bookmark friendly name\n    conference  The conference room jid\n    autojoin    Wether the conference room should be automatically joined on startup\n\nDescription:\n    Add a bookmark\n\nExamples:\n    /bookmark add aparte aparte@conference.fariello.eu\n    /bookmark add aparte aparte@conference.fariello.eu/mynick\n    /bookmark add aparte aparte@conference.fariello.eu/mynick autojoin=on\n"@,
        )
    } else if topic == "del"@ {
        Some(
            "/bookmark del <bookmark>\n\n    bookmark    The bookmark friendly name\n\nDescription:\n    Delete a bookmark\n\nExamples:\n    /bookmark del aparte\n"@,
        )
    } else if topic == "edit"@ {
        Some(
            "/bookmark edit <bookmark> [<conference>] [autojoin=on|off]\n\n    bookmark    The bookmark friendly name\n    conference  The conference room jid\n    autojoin    Wether the conference room should be automatically joined on startup\n\nDescription:\n    Edit a bookmark\n\nExamples:\n    /bookmark edit aparte autojoin=on\n    /bookmark edit aparte aparte@conference.fariello.eu\n    /bookmark edit aparte aparte@conference.fariello.eu autojoin=off\n"@,
        )
    } else {
        None
    }
}

/// The flag of `/bookmark add` as it is written: nothing where the
/// request does not say whether to join.
pub open spec fn written_flag(autojoin: Option<bool>) -> Seq<Seq<char>> {
    match autojoin {
        Some(true) => seq!["autojoin=on"@],
        Some(false) => seq!["autojoin=off"@],
        None => Seq::empty(),
    }
}

/// The arguments of `/bookmark` that ask for `action`.
pub open spec fn written_args(action: BookmarkActionView) -> Seq<Seq<char>> {
    match action {
        BookmarkActionView::Add { name, conference, autojoin } => seq![
            "add"@,
            name,
            conference.text(),
        ] + written_flag(autojoin),
        BookmarkActionView::Del { name } => seq!["del"@, name],
        BookmarkActionView::Edit { name } => seq!["edit"@, name],
    }
}

/// What is asked of the bookmarks is read from its arguments as it was
/// written, and so from the line of the command, as long as the address
/// of the room is in order.
pub proof fn action_round_trip(action: BookmarkActionView)
    requires
        action matches BookmarkActionView::Add { conference, .. } ==> conference.wf(),
    ensures
        read(written_args(action)) == Ok::<BookmarkActionView, BookmarkError>(action),
        crate::command::parsed(
            crate::command::written(
                CommandView { name: "bookmark"@, args: written_args(action) },
            ),
        ) == Ok::<CommandView, crate::command::ParseError>(
            CommandView { name: "bookmark"@, args: written_args(action) },
        ),
{
    reveal_strlit("add");
    reveal_strlit("del");
    reveal_strlit("edit");
    reveal_strlit("autojoin=on");
    reveal_strlit("autojoin=off");
    assert("add"@[0] == 'a' && "del"@[0] == 'd' && "edit"@[0] == 'e');
    assert("autojoin=on"@.len() == 11 && "autojoin=off"@.len() == 12);
    crate::command::round_trip(CommandView { name: "bookmark"@, args: written_args(action) });
    let args = written_args(action);
    match action {
        BookmarkActionView::Add { name, conference, autojoin } => {
            crate::jid::jid_round_trip(conference);
            let flags = written_flag(autojoin);
            assert(args.skip(3) =~= flags);
            assert(args[0] == "add"@ && args[1] == name && args[2] == conference.text());
            reveal_with_fuel(read_flags, 2);
            assert(read_flags(flags, flags.len() as int) == Ok::<Option<bool>, BookmarkError>(
                autojoin,
            ));
        },
        BookmarkActionView::Del { name } => {
            assert(args[0] == "del"@ && args[1] == name);
        },
        BookmarkActionView::Edit { name } => {
            assert(args[0] == "edit"@ && args[1] == name);
        },
    }
}

impl BookmarkAction {
    /// The command that asks for this.
    pub fn to_command(&self) -> (command: Command)
        ensures
            command@ == (CommandView { name: "bookmark"@, args: written_args(self@) }),
    {
        let mut args: Vec<String> = Vec::new();
        match self {
            BookmarkAction::Add { name, conference, autojoin } => {
                args.push(String::from_str("add"));
                args.push(name.clone());
                args.push(conference.to_string());
                match autojoin {
                    Some(true) => args.push(String::from_str("autojoin=on")),
                    Some(false) => args.push(String::from_str("autojoin=off")),
                    None => {},
                }
            },
            BookmarkAction::Del { name } => {
                args.push(String::from_str("del"));
                args.push(name.clone());
            },
            BookmarkAction::Edit { name } => {
                args.push(String::from_str("edit"));
                args.push(name.clone());
            },
        }
        proof {
            assert(texts(args@) =~= written_args(self@));
        }
        Command { name: String::from_str("bookmark"), args }
    }
}

/// The plugin that keeps the bookmarks.
pub struct BookmarksPlugin {}

impl BookmarksPlugin {
    /// The plugin. It keeps nothing between two events.
    pub fn new() -> (plugin: BookmarksPlugin) {
        BookmarksPlugin {  }
    }

    /// The name under which the plugin is listed.
    pub fn to_string(&self) -> (s: String)
        ensures
            s@ == "XEP-0402: PEP Native Bookmarks"@,
    {
        String::from_str("XEP-0402: PEP Native Bookmarks")
    }

    /// The request for the bookmarks that the server keeps, under a fresh
    /// identifier.
    pub fn retreive(&self) -> (request: Element)
        ensures
            is_request(request),
    {
        let id = new_id();
        let ghost fresh = id@;
        let request = self.retreive_as(id);
        proof {
            assert(request == items_of(fresh, "urn:xmpp:bookmarks:1"@));
        }
        request
    }

    /// The request for the bookmarks that the server keeps, under the
    /// identifier `id`.
    pub fn retreive_as(&self, id: String) -> (request: Element)
        ensures
            request == items_of(id@, "urn:xmpp:bookmarks:1"@),
    {
        items_iq(id, bookmarks_ns())
    }

    /// The request that publishes the bookmark of a room, under a fresh
    /// identifier.
    pub fn add(&self, name: String, conference: BareJid, nick: Option<String>, autojoin: bool) -> (request:
        Element)
        ensures
            exists|id: Seq<char>|
                is_id(id) && request == #[trigger] bookmark_publication(
                    id,
                    name@,
                    conference@,
                    text_of(nick),
                    autojoin,
                ),
    {
        let id = new_id();
        let ghost made = bookmark_publication(id@, name@, conference@, text_of(nick), autojoin);
        let request = self.add_as(id, name, conference, nick, autojoin);
        proof {
            assert(request == made);
        }
        request
    }

    /// The request that publishes the bookmark of a room, under the
    /// identifier `id`.
    pub fn add_as(
        &self,
        id: String,
        name: String,
        conference: BareJid,
        nick: Option<String>,
        autojoin: bool,
    ) -> (request: Element)
        ensures
            request == bookmark_publication(id@, name@, conference@, text_of(nick), autojoin),
    {
        let payload = conference_payload(autojoin, Some(name), nick);
        let mut fields: Vec<Field> = Vec::new();
        fields.push(form_field("pubsub#persist_items", FieldKind::Boolean, "true"));
        fields.push(form_field("pubsub#access_model", FieldKind::ListSingle, "whitelist"));
        let options = submit_form("http://jabber.org/protocol/pubsub#publish-options", fields);
        proof {
            assert(fields@ =~= seq![
                field_of("pubsub#persist_items"@, FieldKind::Boolean, "true"@),
                field_of("pubsub#access_model"@, FieldKind::ListSingle, "whitelist"@),
            ]);
        }
        publish_iq(id, bookmarks_ns(), conference.to_string(), payload, options)
    }

    /// Makes the command known and tells service discovery that the client
    /// keeps bookmarks. It is an error if service discovery knows that
    /// already.
    pub fn init(&mut self, aparte: &mut Aparte, disco: &mut Disco) -> (started: Result<(), ()>)
        ensures
            started is Ok <==> !old(disco).features().contains("urn:xmpp:bookmarks:1"@),
            final(disco).features() == if old(disco).features().contains(
                "urn:xmpp:bookmarks:1"@,
            ) {
                old(disco).features()
            } else {
                old(disco).features().push("urn:xmpp:bookmarks:1"@)
            },
            final(aparte).account() == old(aparte).account(),
            final(aparte).pending() == old(aparte).pending(),
            final(aparte).outbound() == old(aparte).outbound(),
            final(aparte).commands() == if old(aparte).commands().contains("bookmark"@) {
                old(aparte).commands()
            } else {
                old(aparte).commands().push("bookmark"@)
            },
    {
        aparte.add_command("bookmark");
        disco.add_feature(bookmarks_ns())
    }

    /// Asks the server for the bookmarks once the session is up. Every
    /// other event passes.
    pub fn on_event(&mut self, aparte: &mut Aparte, event: &Event)
        ensures
            final(aparte).account() == old(aparte).account(),
            final(aparte).pending() == old(aparte).pending(),
            final(aparte).commands() == old(aparte).commands(),
            fetches(*event, old(aparte).outbound(), final(aparte).outbound()),
    {
        match event {
            Event::Connected(_, _) => {
                let id = new_id();
                let ghost fresh = id@;
                aparte.send(self.retreive_as(id));
                proof {
                    assert(aparte.outbound().drop_last() =~= old(aparte).outbound());
                    assert(aparte.outbound().last() == items_of(fresh, "urn:xmpp:bookmarks:1"@));
                    assert(is_request(aparte.outbound().last()));
                }
            },
            _ => {},
        }
    }

    /// The help for `/bookmark`, or for one of its actions; none for
    /// anything else.
    pub fn help(topic: &str) -> (text: Option<String>)
        ensures
            text_of(text) == help_text(topic@),
    {
        let topic = topic.to_owned();
        if is(&topic, "") {
            Some(String::from_str("/bookmark add|del|edit"))
        } else if is(&topic, "add") {
            Some(
                String::from_str(
                    "/bookmark add <bookmark> <conference> [autojoin=on|off]\n\n    bookmark    The bookmark friendly name\n    conference  The conference room jid\n    autojoin    Wether the conference room should be automatically joined on startup\n\nDescription:\n    Add a bookmark\n\nExamples:\n    /bookmark add aparte aparte@conference.fariello.eu\n    /bookmark add aparte aparte@conference.fariello.eu/mynick\n    /bookmark add aparte aparte@conference.fariello.eu/mynick autojoin=on\n",
                ),
            )
        } else if is(&topic, "del") {
            Some(
                String::from_str(
                    "/bookmark del <bookmark>\n\n    bookmark    The bookmark friendly name\n\nDescription:\n    Delete a bookmark\n\nExamples:\n    /bookmark del aparte\n",
                ),
            )
        } else if is(&topic, "edit") {
            Some(
                String::from_str(
                    "/bookmark edit <bookmark> [<conference>] [autojoin=on|off]\n\n    bookmark    The bookmark friendly name\n    conference  The conference room jid\n    autojoin    Wether the conference room should be automatically joined on startup\n\nDescription:\n    Edit a bookmark\n\nExamples:\n    /bookmark edit aparte autojoin=on\n    /bookmark edit aparte aparte@conference.fariello.eu\n    /bookmark edit aparte aparte@conference.fariello.eu autojoin=off\n",
                ),
            )
        } else {
            None
        }
    }

    /// Reads what the arguments of `/bookmark` ask for.
    pub fn parse(command: &Command) -> (r: Result<BookmarkAction, BookmarkError>)
        ensures
            match r {
                Ok(action) => read(command@.args) == Ok::<BookmarkActionView, BookmarkError>(
                    action@,
                ),
                Err(e) => read(command@.args) == Err::<BookmarkActionView, BookmarkError>(e),
            },
    {
        let args = &command.args;
        if args.len() == 0 {
            return Err(BookmarkError::MissingAction);
        }
        proof {
            assert(forall|i: int| 0 <= i < args@.len() ==> texts(args@)[i] == args@[i]@);
        }
        if is(&args[0], "add") {
            if args.len() < 2 {
                return Err(BookmarkError::MissingName);
            }
            if args.len() < 3 {
                return Err(BookmarkError::MissingConference);
            }
            match parse_jid(args[2].as_str()) {
                None => Err(BookmarkError::InvalidConference),
                Some(conference) => match flags_of(args) {
                    Err(e) => Err(e),
                    Ok(autojoin) => Ok(
                        BookmarkAction::Add { name: args[1].clone(), conference, autojoin },
                    ),
                },
            }
        } else if is(&args[0], "del") || is(&args[0], "edit") {
            if args.len() < 2 {
                Err(BookmarkError::MissingName)
            } else if args.len() > 2 {
                Err(BookmarkError::TooManyArguments)
            } else if is(&args[0], "del") {
                Ok(BookmarkAction::Del { name: args[1].clone() })
            } else {
                Ok(BookmarkAction::Edit { name: args[1].clone() })
            }
        } else {
            Err(BookmarkError::UnknownAction)
        }
    }

    /// Does what a `/bookmark` command asks for.
    ///
    /// `add` sends the request that publishes the bookmark: the nick is
    /// the resource of the address, where it has one, and the room is not
    /// joined by itself unless the flag says so. `del` and `edit` send
    /// nothing. Arguments that are not in order give the reason, and
    /// nothing is sent.
    pub fn execute(&self, aparte: &mut Aparte, command: &Command) -> (done: Result<(), String>)
        ensures
            final(aparte).account() == old(aparte).account(),
            final(aparte).pending() == old(aparte).pending(),
            final(aparte).commands() == old(aparte).commands(),
            done is Ok <==> read(command@.args) is Ok,
            done matches Err(reason) ==> read(command@.args) matches Err(e) && reason@ == e.text(),
            sends(read(command@.args), old(aparte).outbound(), final(aparte).outbound()),
    {
        match BookmarksPlugin::parse(command) {
            Err(e) => Err(e.to_string()),
            Ok(BookmarkAction::Add { name, conference, autojoin }) => {
                let ghost asked = (name@, conference@, autojoin);
                let nick = conference.resource();
                let autojoin = match autojoin {
                    None => false,
                    Some(autojoin) => autojoin,
                };
                let id = new_id();
                let ghost fresh = id@;
                let request = self.add_as(id, name, conference.to_bare(), nick, autojoin);
                aparte.send(request);
                proof {
                    assert(aparte.outbound().drop_last() =~= old(aparte).outbound());
                    assert(aparte.outbound().last() == bookmark_publication(
                        fresh,
                        asked.0,
                        asked.1.bare(),
                        asked.1.resource(),
                        joins(asked.2),
                    ));
                    assert(read(command@.args) == Ok::<BookmarkActionView, BookmarkError>(
                        BookmarkActionView::Add {
                            name: asked.0,
                            conference: asked.1,
                            autojoin: asked.2,
                        },
                    ));
                    assert(publishes(aparte.outbound().last(), asked.0, asked.1, asked.2));
                }
                Ok(())
            },
            Ok(_) => Ok(()),
        }
    }
}

} // verus!
