//! What holds of a session over more than one step: the order in which
//! events are handed round, what becomes of a request, what a command
//! that lacks its arguments gives, and how a room is entered.

use crate::bookmarks::{read, BookmarkError};
use crate::command::{parsed, round_trip, written, CommandView, ParseError};
use crate::dispatch::{
    answer_of, answers_join, entered, grown, join_index, join_of, joins_room, more, presence_from,
    refused, request_of, rooms, Dispatcher,
};
use crate::event::{Event, Key};
use crate::iq::settled_once;
use crate::jid::{FullJidView, JidView};
use crate::text::{without, without_holds, without_keeps};
use vstd::prelude::*;
use xmpp_parsers::Element;

verus! {

/// What is behind more, behind what is behind.
proof fn grown_chains<T>(a: Seq<T>, b: Seq<T>, c: Seq<T>)
    requires
        grown(a, b),
        grown(b, c),
    ensures
        grown(a, c),
{
    assert(c.subrange(0, a.len() as int) =~= b.subrange(0, a.len() as int));
}

proof fn grown_by_push<T>(a: Seq<T>, x: T)
    ensures
        grown(a, a.push(x)),
        grown(a, a),
{
    assert(a.push(x).subrange(0, a.len() as int) =~= a);
    assert(a.subrange(0, a.len() as int) =~= a);
}

/// While an event is handed round, to each plugin in turn and then to
/// the next, what is scheduled waits behind everything that waited
/// before: nothing that waited is lost, moved or handed round meanwhile.
pub proof fn scheduled_behind(pre: Dispatcher, event: Event, post: Dispatcher)
    requires
        pre.handled(event, &post),
    ensures
        grown(pre.aparte.pending(), post.aparte.pending()),
{
    let (zero, one, two) = choose|zero: Dispatcher, one: Dispatcher, two: Dispatcher|
        pre.chain(event, &zero, &one, &two, &post);
    let before = one.aparte.pending();
    grown_by_push(before, event);
    match event {
        Event::SendMessage(account, message) => {
            grown_by_push(before, Event::Message(Some(account), message));
        },
        _ => {},
    }
    assert(grown(before, two.aparte.pending()));
    grown_chains(pre.aparte.pending(), two.aparte.pending(), post.aparte.pending());
}

/// Events are handed round in the order in which they were scheduled:
/// when the event that waits longest has been taken and handed round,
/// those that waited behind it wait on in their order, and what was
/// scheduled meanwhile waits behind them.
pub proof fn handed_round_in_order(pre: Dispatcher, taken: Dispatcher, post: Dispatcher)
    requires
        pre.took(&taken),
        taken.handled(pre.aparte.pending()[0], &post),
    ensures
        grown(pre.aparte.pending().drop_first(), post.aparte.pending()),
{
    scheduled_behind(taken, pre.aparte.pending()[0], post);
}

/// A request is settled by its answer once: after the answer has come
/// in, the request waits no longer, the other requests wait on, whatever
/// the order in which they went out, and a second answer under the same
/// identifier finds nothing to settle. No identifier comes to be used
/// again.
pub proof fn answered_once(
    pre: Dispatcher,
    mid: Dispatcher,
    post: Dispatcher,
    first: Element,
    second: Element,
    id: Seq<char>,
    other: Seq<char>,
)
    requires
        pre.iqs.wf(),
        answer_of(first) == Some(id),
        answer_of(second) == Some(id),
        pre.arrived(first, &mid),
        mid.arrived(second, &post),
    ensures
        !mid.iqs.pending().contains(id),
        other != id ==> (mid.iqs.pending().contains(other) <==> pre.iqs.pending().contains(other)),
        post.iqs.pending() == mid.iqs.pending(),
        post.iqs.used() == pre.iqs.used(),
{
    settled_once(pre.iqs.pending(), id);
    without_holds(pre.iqs.pending(), id, other);
}

/// A request that is sent is taken note of under its identifier, at the
/// moment of the turn: it waits behind the others, unless the identifier
/// was used before in the session.
pub proof fn request_noted(pre: Dispatcher, post: Dispatcher, stanza: Element, id: Seq<char>)
    requires
        pre.notes(&post),
        post.aparte.outbound() == pre.aparte.outbound().push(stanza),
        request_of(stanza) == Some(id),
    ensures
        post.iqs.model() == pre.iqs.model().register(id, pre.clock as int),
        !pre.iqs.used().contains(id) ==> post.iqs.pending() == pre.iqs.pending().push(id),
{
    let sent = more(pre.aparte.outbound(), post.aparte.outbound());
    assert(sent =~= seq![stanza]);
    reveal_with_fuel(crate::dispatch::noted, 2);
}

/// When the connection is lost, every request that waits is given up
/// once: each gives the error `disconnected`, nothing waits afterwards
/// and nothing is left to be sent. If the connection is lost again,
/// nothing more is given up, and an answer that comes late finds nothing
/// to settle.
pub proof fn given_up_once(
    pre: Dispatcher,
    post: Dispatcher,
    again: Dispatcher,
    late: Element,
    after: Dispatcher,
)
    requires
        pre.reacted(Event::Disconnected, &post),
        post.reacted(Event::Disconnected, &again),
        post.arrived(late, &after),
    ensures
        more(pre.aparte.pending(), post.aparte.pending()).len() == pre.iqs.pending().len(),
        forall|i: int|
            0 <= i < more(pre.aparte.pending(), post.aparte.pending()).len() ==> (#[trigger] more(
                pre.aparte.pending(),
                post.aparte.pending(),
            )[i] matches Event::CommandError(reason) && reason@ == "disconnected"@),
        post.iqs.pending().len() == 0,
        post.aparte.outbound().len() == 0,
        again.aparte.pending() == post.aparte.pending(),
        after.iqs.pending().len() == 0,
{
    assert(more(post.aparte.pending(), again.aparte.pending()).len() == 0);
    assert(again.aparte.pending() =~= post.aparte.pending().subrange(
        0,
        post.aparte.pending().len() as int,
    ));
    assert(post.aparte.pending().subrange(0, post.aparte.pending().len() as int)
        =~= post.aparte.pending());
    match answer_of(late) {
        Some(id) => {
            without_keeps(post.iqs.pending(), id);
        },
        None => {},
    }
}

/// Where a room is found among the rooms that are waited for, that room
/// stands.
proof fn join_index_finds(joins: Seq<FullJidView>, room: FullJidView)
    ensures
        0 <= join_index(joins, room) <= joins.len(),
        joins.contains(room) ==> join_index(joins, room) < joins.len(),
    decreases joins.len(),
{
    if joins.len() > 0 && joins[0] != room {
        join_index_finds(joins.drop_first(), room);
        if joins.contains(room) {
            let i = choose|i: int| 0 <= i < joins.len() && joins[i] == room;
            assert(joins.drop_first()[i - 1] == room);
        }
    }
}

/// A room is entered at the request of the user: `/join` with the
/// address of an occupant sends one stanza, the presence that asks the
/// room to let the user in under the nick; and when the room answers
/// without refusing, it is scheduled once that the user has entered, at
/// their own request.
pub proof fn room_entered(
    pre: Dispatcher,
    mid: Dispatcher,
    post: Dispatcher,
    command: crate::command::Command,
    room: FullJidView,
    answer: Element,
)
    requires
        pre.ran(command, &mid),
        joins_room(command@, pre.aparte.account(), pre.aparte.commands()) == Some(room),
        presence_from(answer) == Some(JidView::Full(room)),
        !refused(answer),
        mid.arrived(answer, &post),
    ensures
        mid.aparte.outbound() == pre.aparte.outbound().push(join_of(room)),
        mid.aparte.pending() == pre.aparte.pending(),
        answers_join(rooms(mid.joins@), answer) == Some(room),
        exists|i: int|
            0 < i < more(mid.aparte.pending(), post.aparte.pending()).len() && entered(
                room,
                pre.aparte.account().unwrap(),
                #[trigger] more(mid.aparte.pending(), post.aparte.pending())[i],
            ),
        forall|i: int, j: int|
            0 <= i < j < more(mid.aparte.pending(), post.aparte.pending()).len() ==> !(more(
                mid.aparte.pending(),
                post.aparte.pending(),
            )[i] is Joined && more(mid.aparte.pending(), post.aparte.pending())[j] is Joined),
{
    reveal_strlit("join");
    reveal_strlit("bookmark");
    reveal_strlit("win");
    reveal_strlit("msg");
    assert("join"@.len() == 4 && "bookmark"@.len() == 8 && "win"@.len() == 3 && "msg"@.len() == 3);
    let waiting = rooms(pre.joins@).push(room);
    assert(waiting[waiting.len() - 1] == room);
    join_index_finds(waiting, room);
    let events = more(pre.aparte.pending(), mid.aparte.pending());
    assert(events.len() == 0);
    assert(mid.aparte.pending() =~= mid.aparte.pending().subrange(
        0,
        pre.aparte.pending().len() as int,
    ));
    let scheduled = more(mid.aparte.pending(), post.aparte.pending());
    let first: int = if crate::dispatch::brought(answer) is Some {
        1
    } else {
        0
    };
    assert(entered(room, pre.aparte.account().unwrap(), scheduled[1 + first]));
    assert(scheduled[0] is Stanza);
    if first == 1 {
        assert(scheduled[1] is Message);
    }
}

/// A command that is read from the line but lacks what it needs gives an
/// error and sends nothing. When Enter hands over a line that names
/// `/bookmark` with arguments that are not in order, the command is
/// scheduled and the line is empty afterwards; and when the command is
/// handed round in its turn, the reason is scheduled as an error,
/// nothing is sent, and the windows are as they were.
pub proof fn refused_command_sends_nothing(
    pre: Dispatcher,
    mid: Dispatcher,
    taken: Dispatcher,
    post: Dispatcher,
    command: CommandView,
    reason: BookmarkError,
)
    requires
        !pre.ui@.input.content.password,
        parsed(pre.ui@.input.content.buf) == Ok::<CommandView, ParseError>(command),
        command.name == "bookmark"@,
        read(command.args) == Err::<crate::bookmarks::BookmarkActionView, BookmarkError>(reason),
        pre.aparte.commands().contains("bookmark"@),
        pre.aparte.pending().len() == 0,
        pre.handled(Event::Key(Key::Char('\n')), &mid),
        mid.took(&taken),
        taken.handled(mid.aparte.pending()[0], &post),
    ensures
        mid.aparte.pending().len() == 1,
        mid.aparte.pending()[0] matches Event::Command(scheduled) && scheduled@ == command,
        mid.aparte.outbound() == pre.aparte.outbound(),
        mid.ui@.input.content.buf.len() == 0,
        post.aparte.outbound() == pre.aparte.outbound(),
        post.aparte.pending().len() == 1,
        post.aparte.pending()[0] matches Event::CommandError(text) && text@ == reason.text(),
        post.ui@.windows == pre.ui@.windows,
        post.ui@.current_window == pre.ui@.current_window,
        post.ui@.unread == pre.ui@.unread,
{
    reveal_strlit("bookmark");
    reveal_strlit("win");
    reveal_strlit("msg");
    reveal_strlit("join");
    reveal_strlit("quit");
    assert("bookmark"@.len() == 8 && "win"@.len() == 3 && "msg"@.len() == 3 && "join"@.len() == 4
        && "quit"@.len() == 4);
    let enter = Event::Key(Key::Char('\n'));
    let (zero, one, two) = choose|zero: Dispatcher, one: Dispatcher, two: Dispatcher|
        pre.chain(enter, &zero, &one, &two, &mid);
    let line = pre.ui@.input.content.buf;
    assert(line.len() > 0 && line[0] == '/');
    assert(two.ui@ == pre.ui@);
    let first = more(two.aparte.pending(), mid.aparte.pending());
    assert(two.aparte.pending().len() == 0);
    assert(first =~= mid.aparte.pending());
    reveal_with_fuel(crate::dispatch::noted, 2);
    let event = mid.aparte.pending()[0];
    assert(taken.aparte.pending().len() == 0);
    let (zero2, one2, two2) = choose|zero: Dispatcher, one: Dispatcher, two: Dispatcher|
        taken.chain(event, &zero, &one, &two, &post);
    assert(one2.aparte.pending().len() == 0);
    assert(more(one2.aparte.pending(), two2.aparte.pending()) =~= two2.aparte.pending());
    assert(two2.aparte.pending().len() == 1);
    assert(more(two2.aparte.pending(), post.aparte.pending()).len() == 0);
    assert(post.aparte.pending() =~= two2.aparte.pending());
}

/// The line `/bookmark add` names a command that lacks the name of the
/// bookmark.
pub proof fn bookmark_add_lacks_its_name()
    ensures
        parsed("/bookmark add"@) == Ok::<CommandView, ParseError>(
            CommandView { name: "bookmark"@, args: seq!["add"@] },
        ),
        read(seq!["add"@]) == Err::<crate::bookmarks::BookmarkActionView, BookmarkError>(
            BookmarkError::MissingName,
        ),
{
    reveal_strlit("/bookmark add");
    reveal_strlit("bookmark");
    reveal_strlit("add");
    let command = CommandView { name: "bookmark"@, args: seq!["add"@] };
    let words = seq!["bookmark"@, "add"@];
    assert(seq![command.name] + command.args =~= words);
    assert(!crate::command::needs_quotes("bookmark"@)) by {
        assert forall|i: int| 0 <= i < "bookmark"@.len() implies !crate::command::is_special(
            #[trigger] "bookmark"@[i],
        ) by {}
    }
    assert(!crate::command::needs_quotes("add"@)) by {
        assert forall|i: int| 0 <= i < "add"@.len() implies !crate::command::is_special(
            #[trigger] "add"@[i],
        ) by {}
    }
    reveal_with_fuel(crate::command::written_words, 3);
    assert(words.drop_last() =~= seq!["bookmark"@]);
    assert(written(command) =~= "/bookmark add"@);
    round_trip(command);
}

} // verus!
