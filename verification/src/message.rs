//! Messages: notes of the client itself, and what is said in chats and
//! rooms; and the lines in which a window shows them.

use crate::color::{id_to_rgb, rgb_of};
use crate::fresh::local_clock;
use crate::jid::{BareJid, Jid};
use crate::term::{fg_rgb, fg_rgb_text, fg_white, fg_yellow};
use crate::text::{blanks, byte_len, bytes_in, push_blanks, texts};
use vstd::prelude::*;
use vstd::string::*;

verus! {

/// A note of the client itself; it never goes over the wire.
#[derive(Debug, PartialEq, Eq)]
pub struct LogMessage {
    /// Seconds since the epoch.
    pub timestamp: i64,
    pub body: String,
}

/// A message between two accounts.
#[derive(Debug, PartialEq, Eq)]
pub struct ChatMessage {
    pub id: String,
    /// Seconds since the epoch.
    pub timestamp: i64,
    pub from: BareJid,
    pub to: BareJid,
    pub body: String,
}

/// A message in a room. `from` is the room, `from_full` the room with the
/// sender's nick as its resource.
#[derive(Debug, PartialEq, Eq)]
pub struct GroupchatMessage {
    pub id: String,
    /// Seconds since the epoch.
    pub timestamp: i64,
    pub from: BareJid,
    pub from_full: Jid,
    pub to: BareJid,
    pub body: String,
}

/// A message that goes over the wire.
#[derive(Debug, PartialEq, Eq)]
pub enum XmppMessage {
    Chat(ChatMessage),
    Groupchat(GroupchatMessage),
}

/// Anything a window can show.
#[derive(Debug, PartialEq, Eq)]
pub enum Message {
    Log(LogMessage),
    Incoming(XmppMessage),
    Outgoing(XmppMessage),
}

impl Clone for LogMessage {
    fn clone(&self) -> (copy: Self)
        ensures
            copy == *self,
    {
        LogMessage { timestamp: self.timestamp, body: self.body.clone() }
    }
}

impl Clone for ChatMessage {
    fn clone(&self) -> (copy: Self)
        ensures
            copy == *self,
    {
        ChatMessage {
            id: self.id.clone(),
            timestamp: self.timestamp,
            from: self.from.clone(),
            to: self.to.clone(),
            body: self.body.clone(),
        }
    }
}

impl Clone for GroupchatMessage {
    fn clone(&self) -> (copy: Self)
        ensures
            copy == *self,
    {
        GroupchatMessage {
            id: self.id.clone(),
            timestamp: self.timestamp,
            from: self.from.clone(),
            from_full: self.from_full.clone(),
            to: self.to.clone(),
            body: self.body.clone(),
        }
    }
}

impl Clone for XmppMessage {
    fn clone(&self) -> (copy: Self)
        ensures
            copy == *self,
    {
        match self {
            XmppMessage::Chat(message) => XmppMessage::Chat(message.clone()),
            XmppMessage::Groupchat(message) => XmppMessage::Groupchat(message.clone()),
        }
    }
}

impl Clone for Message {
    fn clone(&self) -> (copy: Self)
        ensures
            copy == *self,
    {
        match self {
            Message::Log(message) => Message::Log(message.clone()),
            Message::Incoming(message) => Message::Incoming(message.clone()),
            Message::Outgoing(message) => Message::Outgoing(message.clone()),
        }
    }
}

/// The number of characters of `s` before its first line feed, or its
/// length where it has none.
pub open spec fn line_end(s: Seq<char>) -> int
    decreases s.len(),
{
    if s.len() == 0 || s[0] == '\n' {
        0
    } else {
        1 + line_end(s.drop_first())
    }
}

/// The lines of `s`. A line ends at a line feed, or at a carriage return
/// followed by a line feed; neither belongs to the line. The last line
/// needs no line ending, and nothing follows a final line ending.
pub open spec fn lines_of(s: Seq<char>) -> Seq<Seq<char>>
    decreases s.len(),
{
    if s.len() == 0 {
        Seq::<Seq<char>>::empty()
    } else {
        let end = line_end(s);
        if 0 <= end < s.len() {
            let line = if end > 0 && s[end - 1] == '\r' {
                s.subrange(0, end - 1)
            } else {
                s.subrange(0, end)
            };
            seq![line] + lines_of(s.subrange(end + 1, s.len() as int))
        } else {
            seq![s]
        }
    }
}

/// `str::lines`: the lines of the text, each as a string of its own. Line
/// endings are `\n` and `\r\n`; they are not part of the lines, and the
/// last line needs none.
#[verifier::external_body]
pub(crate) fn lines(s: &str) -> (lines: Vec<String>)
    ensures
        texts(lines@) == lines_of(s@),
{
    s.lines().map(String::from).collect()
}

/// The start of every line of a window: the clock in white and a dash.
pub open spec fn stamp(clock: Seq<char>) -> Seq<char> {
    "\x1b[38;5;7m"@ + clock + " - "@
}

/// A note as a window shows it: each of its lines behind the clock, each
/// with a line feed.
pub open spec fn log_lines(clock: Seq<char>, lines: Seq<Seq<char>>) -> Seq<char>
    decreases lines.len(),
{
    if lines.len() == 0 {
        Seq::<char>::empty()
    } else {
        log_lines(clock, lines.drop_last()) + stamp(clock) + lines.last() + "\n"@
    }
}

/// The lines of a message after the first, each on a line of its own
/// behind `indent` blanks.
pub open spec fn hanging(indent: nat, lines: Seq<Seq<char>>) -> Seq<char>
    decreases lines.len(),
{
    if lines.len() == 0 {
        Seq::<char>::empty()
    } else {
        hanging(indent, lines.drop_last()) + "\n"@ + blanks(indent) + lines.last()
    }
}

/// What someone else said, as a window shows it: the clock, the speaker
/// in the colour that stands for them, and the text. Further lines of the
/// text hang under the first, behind as many blanks as the clock, the
/// dash, the speaker and the colon take in bytes.
pub open spec fn said(
    clock: Seq<char>,
    speaker: Seq<char>,
    colour: (u8, u8, u8),
    lines: Seq<Seq<char>>,
) -> Seq<char> {
    stamp(clock) + fg_rgb_text(colour.0, colour.1, colour.2) + speaker + ":"@ + "\x1b[38;5;7m"@
        + " "@ + (if lines.len() == 0 {
        Seq::<char>::empty()
    } else {
        lines[0] + hanging(
            byte_len(clock + " - "@ + speaker + ": "@),
            lines.subrange(1, lines.len() as int),
        )
    })
}

/// What the user said, as a window shows it: the clock, `me:` in yellow,
/// and the text as it is.
pub open spec fn said_by_me(clock: Seq<char>, body: Seq<char>) -> Seq<char> {
    stamp(clock) + "\x1b[38;5;3m"@ + "me:"@ + "\x1b[38;5;7m"@ + " "@ + body
}

impl Message {
    /// The message as a window shows it, with `clock` for its time of day
    /// and, where someone else speaks, their name in the colour that
    /// stands for it. A message from a room that does not say who spoke
    /// shows as nothing.
    pub open spec fn shown(&self, clock: Seq<char>) -> Seq<char> {
        match self {
            Message::Log(message) => log_lines(clock, lines_of(message.body@)),
            Message::Incoming(XmppMessage::Chat(message)) => said(
                clock,
                message.from@.text(),
                rgb_of(message.from@.text()),
                lines_of(message.body@),
            ),
            Message::Incoming(XmppMessage::Groupchat(message)) => match message.from_full {
                Jid::Full(from) => said(
                    clock,
                    from.resource@,
                    rgb_of(from.resource@),
                    lines_of(message.body@),
                ),
                Jid::Bare(_) => Seq::<char>::empty(),
            },
            Message::Outgoing(XmppMessage::Chat(message)) => said_by_me(clock, message.body@),
            Message::Outgoing(XmppMessage::Groupchat(message)) => said_by_me(clock, message.body@),
        }
    }

    /// Whose name stands before the message, where someone else speaks:
    /// the contact of a chat, the nick in a room.
    pub open spec fn speaker(&self) -> Option<Seq<char>> {
        match self {
            Message::Incoming(XmppMessage::Chat(message)) => Some(message.from@.text()),
            Message::Incoming(XmppMessage::Groupchat(message)) => match message.from_full {
                Jid::Full(from) => Some(from.resource@),
                Jid::Bare(_) => None,
            },
            _ => None,
        }
    }

    /// Seconds since the epoch at which the message was written.
    pub fn timestamp(&self) -> (timestamp: i64)
        ensures
            timestamp == match *self {
                Message::Log(message) => message.timestamp,
                Message::Incoming(XmppMessage::Chat(message)) => message.timestamp,
                Message::Incoming(XmppMessage::Groupchat(message)) => message.timestamp,
                Message::Outgoing(XmppMessage::Chat(message)) => message.timestamp,
                Message::Outgoing(XmppMessage::Groupchat(message)) => message.timestamp,
            },
    {
        match self {
            Message::Log(message) => message.timestamp,
            Message::Incoming(XmppMessage::Chat(message)) => message.timestamp,
            Message::Incoming(XmppMessage::Groupchat(message)) => message.timestamp,
            Message::Outgoing(XmppMessage::Chat(message)) => message.timestamp,
            Message::Outgoing(XmppMessage::Groupchat(message)) => message.timestamp,
        }
    }

    /// Whose name stands before the message, where someone else speaks.
    pub fn speaker_name(&self) -> (name: Option<String>)
        ensures
            crate::text::text_of(name) == self.speaker(),
    {
        match self {
            Message::Incoming(XmppMessage::Chat(message)) => Some(message.from.to_string()),
            Message::Incoming(XmppMessage::Groupchat(message)) => match &message.from_full {
                Jid::Full(from) => Some(from.resource.clone()),
                Jid::Bare(_) => None,
            },
            _ => None,
        }
    }

    /// The message as a window shows it, with `clock` for its time of
    /// day.
    pub fn to_string(&self, clock: &str) -> (s: String)
        ensures
            s@ == self.shown(clock@),
    {
        match self {
            Message::Log(message) => write_log(clock, &message.body),
            Message::Incoming(XmppMessage::Chat(message)) => {
                let from = message.from.to_string();
                write_said(clock, from.as_str(), &message.body)
            },
            Message::Incoming(XmppMessage::Groupchat(message)) => match &message.from_full {
                Jid::Full(from) => write_said(clock, from.resource.as_str(), &message.body),
                Jid::Bare(_) => String::new(),
            },
            Message::Outgoing(XmppMessage::Chat(message)) => write_said_by_me(clock, &message.body),
            Message::Outgoing(XmppMessage::Groupchat(message)) => write_said_by_me(
                clock,
                &message.body,
            ),
        }
    }

    /// The number of lines in which a window shows the message: a note
    /// takes as many as it has; what is said takes as many as its text
    /// has, and one at least; a message from a room that does not say who
    /// spoke takes none.
    pub open spec fn height(&self) -> nat {
        match self {
            Message::Log(message) => lines_of(message.body@).len(),
            Message::Incoming(XmppMessage::Chat(message)) => one_or(lines_of(message.body@).len()),
            Message::Incoming(XmppMessage::Groupchat(message)) => match message.from_full {
                Jid::Full(_) => one_or(lines_of(message.body@).len()),
                Jid::Bare(_) => 0,
            },
            Message::Outgoing(XmppMessage::Chat(message)) => one_or(lines_of(message.body@).len()),
            Message::Outgoing(XmppMessage::Groupchat(message)) => one_or(
                lines_of(message.body@).len(),
            ),
        }
    }

    /// The number of lines in which a window shows the message.
    pub fn rows(&self) -> (n: usize)
        ensures
            n == self.height(),
    {
        match self {
            Message::Log(message) => count_lines(&message.body, 0),
            Message::Incoming(XmppMessage::Chat(message)) => count_lines(&message.body, 1),
            Message::Incoming(XmppMessage::Groupchat(message)) => match &message.from_full {
                Jid::Full(_) => count_lines(&message.body, 1),
                Jid::Bare(_) => 0,
            },
            Message::Outgoing(XmppMessage::Chat(message)) => count_lines(&message.body, 1),
            Message::Outgoing(XmppMessage::Groupchat(message)) => count_lines(&message.body, 1),
        }
    }

    /// Whether `text` shows the message, at whatever time of day.
    pub open spec fn shown_as(&self, text: Seq<char>) -> bool {
        exists|clock: Seq<char>| text == #[trigger] self.shown(clock)
    }

    /// The message as a window shows it, with its time of day on the
    /// clock of this machine. A moment before the year 0 or after the year
    /// 9999, or one for which the machine has no time of day, shows as
    /// dashes.
    pub fn render(&self) -> (s: String)
        ensures
            self.shown_as(s@),
    {
        let moment = self.timestamp();
        let clock = if -62167219200 <= moment && moment <= 253402300799 {
            match local_clock(moment) {
                Some(clock) => clock,
                None => String::from_str("--:--:--"),
            }
        } else {
            String::from_str("--:--:--")
        };
        let s = self.to_string(clock.as_str());
        proof {
            assert(s@ == self.shown(clock@));
        }
        s
    }

    /// A chat message that the user sends.
    pub fn outgoing_chat(id: String, timestamp: i64, from: &Jid, to: &Jid, body: &str) -> (message:
        Message)
        ensures
            message matches Message::Outgoing(XmppMessage::Chat(chat)) && {
                &&& chat.id == id
                &&& chat.timestamp == timestamp
                &&& chat.from@ == from@.bare()
                &&& chat.to@ == to@.bare()
                &&& chat.body@ == body@
            },
    {
        Message::Outgoing(
            XmppMessage::Chat(
                ChatMessage {
                    id,
                    timestamp,
                    from: from.to_bare(),
                    to: to.to_bare(),
                    body: body.to_owned(),
                },
            ),
        )
    }

    /// A message that the user sends to a room.
    pub fn outgoing_groupchat(
        id: String,
        timestamp: i64,
        from: &Jid,
        to: &Jid,
        body: &str,
    ) -> (message: Message)
        ensures
            message matches Message::Outgoing(XmppMessage::Groupchat(chat)) && {
                &&& chat.id == id
                &&& chat.timestamp == timestamp
                &&& chat.from@ == from@.bare()
                &&& chat.from_full == *from
                &&& chat.to@ == to@.bare()
                &&& chat.body@ == body@
            },
    {
        Message::Outgoing(
            XmppMessage::Groupchat(
                GroupchatMessage {
                    id,
                    timestamp,
                    from: from.to_bare(),
                    from_full: from.clone(),
                    to: to.to_bare(),
                    body: body.to_owned(),
                },
            ),
        )
    }
}

/// `n`, or one where `n` is nothing.
pub open spec fn one_or(n: nat) -> nat {
    if n == 0 {
        1
    } else {
        n
    }
}

/// The number of lines of `body`, and `least` at least.
fn count_lines(body: &String, least: usize) -> (n: usize)
    requires
        least <= 1,
    ensures
        n == if lines_of(body@).len() < least {
            least as nat
        } else {
            lines_of(body@).len()
        },
{
    let all = lines(body.as_str());
    let n = all.len();
    proof {
        assert(texts(all@).len() == n);
    }
    if n < least {
        least
    } else {
        n
    }
}

fn write_stamp(clock: &str) -> (s: String)
    ensures
        s@ == stamp(clock@),
{
    let mut s = fg_white();
    s.append(clock);
    s.append(" - ");
    s
}

fn write_log(clock: &str, body: &String) -> (s: String)
    ensures
        s@ == log_lines(clock@, lines_of(body@)),
{
    let lines = lines(body.as_str());
    let mut s = String::new();
    let mut i: usize = 0;
    proof {
        assert(texts(lines@).subrange(0, 0) =~= Seq::<Seq<char>>::empty());
    }
    while i < lines.len()
        invariant
            i <= lines.len(),
            s@ == log_lines(clock@, texts(lines@).subrange(0, i as int)),
        decreases lines.len() - i,
    {
        let ghost before = s@;
        s.append(write_stamp(clock).as_str());
        s.append(lines[i].as_str());
        s.append("\n");
        i = i + 1;
        proof {
            let upto = texts(lines@).subrange(0, i as int);
            assert(upto.drop_last() =~= texts(lines@).subrange(0, i - 1));
            assert(upto.last() == lines@[i - 1]@);
            assert(s@ =~= before + stamp(clock@) + upto.last() + "\n"@);
        }
    }
    proof {
        assert(texts(lines@).subrange(0, i as int) =~= texts(lines@));
    }
    s
}

fn write_said(clock: &str, speaker: &str, body: &String) -> (s: String)
    ensures
        s@ == said(clock@, speaker@, rgb_of(speaker@), lines_of(body@)),
{
    let colour = id_to_rgb(speaker);
    let mut lead = clock.to_owned();
    lead.append(" - ");
    lead.append(speaker);
    lead.append(": ");
    let indent = bytes_in(lead.as_str());
    let mut s = write_stamp(clock);
    s.append(fg_rgb(colour.0, colour.1, colour.2).as_str());
    s.append(speaker);
    s.append(":");
    s.append(fg_white().as_str());
    s.append(" ");
    let lines = lines(body.as_str());
    let ghost all = texts(lines@);
    if lines.len() > 0 {
        s.append(lines[0].as_str());
        let ghost head = s@;
        let ghost rest = all.subrange(1, all.len() as int);
        let mut i: usize = 1;
        proof {
            assert(rest.subrange(0, 0) =~= Seq::<Seq<char>>::empty());
            assert(s@ =~= head + hanging(indent as nat, rest.subrange(0, 0)));
        }
        while i < lines.len()
            invariant
                1 <= i <= lines.len(),
                all == texts(lines@),
                rest == all.subrange(1, all.len() as int),
                s@ == head + hanging(indent as nat, rest.subrange(0, i - 1)),
            decreases lines.len() - i,
        {
            let ghost before = s@;
            s.append("\n");
            push_blanks(&mut s, indent);
            s.append(lines[i].as_str());
            i = i + 1;
            proof {
                let upto = rest.subrange(0, i - 1);
                assert(upto.drop_last() =~= rest.subrange(0, i - 2));
                assert(upto.last() == lines@[i - 1]@);
                assert(s@ =~= before + "\n"@ + blanks(indent as nat) + upto.last());
            }
        }
        proof {
            assert(rest.subrange(0, i - 1) =~= rest);
            assert(s@ =~= said(clock@, speaker@, colour, all));
        }
    } else {
        proof {
            assert(s@ =~= said(clock@, speaker@, colour, all));
        }
    }
    s
}

fn write_said_by_me(clock: &str, body: &String) -> (s: String)
    ensures
        s@ == said_by_me(clock@, body@),
{
    let mut s = write_stamp(clock);
    s.append(fg_yellow().as_str());
    s.append("me:");
    s.append(fg_white().as_str());
    s.append(" ");
    s.append(body.as_str());
    proof {
        assert(s@ =~= said_by_me(clock@, body@));
    }
    s
}

} // verus!
