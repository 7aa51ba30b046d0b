//! The session core: the account, the queue of pending events, and the
//! stanzas on their way out.
//!
//! Events that a handler schedules go to the tail of the queue and are
//! taken from its head, so that they are seen in the order in which they
//! were scheduled, after what was pending before them.

use crate::event::Event;
use crate::fresh::now;
use crate::jid::BareJid;
use crate::message::{LogMessage, Message};
use crate::text::{holds, texts};
use vstd::prelude::*;
use xmpp_parsers::Element;

verus! {

/// The session core.
pub struct Aparte {
    account: Option<BareJid>,
    queue: Vec<Event>,
    outbound: Vec<Element>,
    commands: Vec<String>,
}

impl Aparte {
    /// The account that is logged in, if one is.
    pub closed spec fn account(&self) -> Option<BareJid> {
        self.account
    }

    /// The events that wait to be dispatched, the next one first.
    pub closed spec fn pending(&self) -> Seq<Event> {
        self.queue@
    }

    /// The stanzas that wait to be sent, the next one first.
    pub closed spec fn outbound(&self) -> Seq<Element> {
        self.outbound@
    }

    /// The names of the commands that are known, in the order in which
    /// they were added.
    pub closed spec fn commands(&self) -> Seq<Seq<char>> {
        texts(self.commands@)
    }

    /// Everything but the queue of events is the same.
    pub open spec fn same_but_pending(&self, other: &Aparte) -> bool {
        &&& self.account() == other.account()
        &&& self.outbound() == other.outbound()
        &&& self.commands() == other.commands()
    }

    /// A core with no account, nothing pending and no command.
    pub fn new() -> (aparte: Aparte)
        ensures
            aparte.account() is None,
            aparte.pending() == Seq::<Event>::empty(),
            aparte.outbound() == Seq::<Element>::empty(),
            aparte.commands() == Seq::<Seq<char>>::empty(),
    {
        let aparte = Aparte {
            account: None,
            queue: Vec::new(),
            outbound: Vec::new(),
            commands: Vec::new(),
        };
        proof {
            assert(texts(aparte.commands@) =~= Seq::<Seq<char>>::empty());
        }
        aparte
    }

    /// Makes a command known by its name. A name that is known already is
    /// not added again.
    pub fn add_command(&mut self, name: &str)
        ensures
            final(self).account() == old(self).account(),
            final(self).pending() == old(self).pending(),
            final(self).outbound() == old(self).outbound(),
            final(self).commands() == if old(self).commands().contains(name@) {
                old(self).commands()
            } else {
                old(self).commands().push(name@)
            },
    {
        if !holds(&self.commands, name) {
            self.commands.push(name.to_owned());
            proof {
                assert(texts(self.commands@) =~= texts(old(self).commands@).push(name@));
            }
        }
    }

    /// Whether a command of this name is known.
    pub fn has_command(&self, name: &str) -> (known: bool)
        ensures
            known == self.commands().contains(name@),
    {
        holds(&self.commands, name)
    }

    /// Puts a stanza behind those that wait to be sent.
    pub fn send(&mut self, element: Element)
        ensures
            final(self).outbound() == old(self).outbound().push(element),
            final(self).account() == old(self).account(),
            final(self).pending() == old(self).pending(),
            final(self).commands() == old(self).commands(),
    {
        self.outbound.push(element);
    }

    /// Takes the stanza that is to be sent next, if one waits.
    pub fn next_stanza(&mut self) -> (element: Option<Element>)
        ensures
            final(self).account() == old(self).account(),
            final(self).pending() == old(self).pending(),
            final(self).commands() == old(self).commands(),
            match element {
                Some(element) => old(self).outbound().len() > 0 && element == old(
                    self,
                ).outbound()[0] && final(self).outbound() == old(self).outbound().drop_first(),
                None => old(self).outbound().len() == 0 && final(self).outbound() == old(
                    self,
                ).outbound(),
            },
    {
        if self.outbound.len() > 0 {
            let element = self.outbound.remove(0);
            proof {
                assert(self.outbound@ =~= old(self).outbound@.drop_first());
            }
            Some(element)
        } else {
            None
        }
    }

    /// The number of stanzas that wait to be sent.
    pub fn queued(&self) -> (n: usize)
        ensures
            n == self.outbound().len(),
    {
        self.outbound.len()
    }

    /// The stanza at place `i` among those that wait to be sent.
    pub fn peek(&self, i: usize) -> (element: &Element)
        requires
            i < self.outbound().len(),
        ensures
            *element == self.outbound()[i as int],
    {
        &self.outbound[i]
    }

    /// Drops every stanza that waits to be sent.
    pub fn drain(&mut self)
        ensures
            final(self).outbound() == Seq::<Element>::empty(),
            final(self).account() == old(self).account(),
            final(self).pending() == old(self).pending(),
            final(self).commands() == old(self).commands(),
    {
        self.outbound = Vec::new();
    }

    /// Puts an event at the tail of the queue.
    pub fn schedule(&mut self, event: Event)
        ensures
            final(self).pending() == old(self).pending().push(event),
            final(self).same_but_pending(old(self)),
    {
        self.queue.push(event);
    }

    /// Takes the event at the head of the queue, if one waits.
    pub fn next_event(&mut self) -> (event: Option<Event>)
        ensures
            final(self).same_but_pending(old(self)),
            match event {
                Some(event) => old(self).pending().len() > 0 && event == old(self).pending()[0]
                    && final(self).pending() == old(self).pending().drop_first(),
                None => old(self).pending().len() == 0 && final(self).pending() == old(
                    self,
                ).pending(),
            },
    {
        if self.queue.len() > 0 {
            let event = self.queue.remove(0);
            proof {
                assert(self.queue@ =~= old(self).queue@.drop_first());
            }
            Some(event)
        } else {
            None
        }
    }

    /// Schedules a note of the client itself, written at the moment of
    /// the call.
    pub fn log(&mut self, text: String)
        ensures
            final(self).same_but_pending(old(self)),
            final(self).pending().len() == old(self).pending().len() + 1,
            final(self).pending().drop_last() == old(self).pending(),
            final(self).pending().last() matches Event::Message(None, Message::Log(note))
                && note.body == text,
    {
        let note = LogMessage { timestamp: now(), body: text };
        self.schedule(Event::Message(None, Message::Log(note)));
        proof {
            assert(self.queue@.drop_last() =~= old(self).queue@);
        }
    }

    /// The account that is logged in, if one is.
    pub fn current_account(&self) -> (account: Option<BareJid>)
        ensures
            account == self.account(),
    {
        match &self.account {
            Some(account) => Some(account.clone()),
            None => None,
        }
    }

    /// Logs an account in, or out with `None`.
    pub fn set_account(&mut self, account: Option<BareJid>)
        ensures
            final(self).account() == account,
            final(self).pending() == old(self).pending(),
            final(self).outbound() == old(self).outbound(),
            final(self).commands() == old(self).commands(),
    {
        self.account = account;
    }
}

/// The events at the head of a queue, as many as `n`, in the order in
/// which they are taken from it.
pub open spec fn taken(queue: Seq<Event>, n: nat) -> Seq<Event>
    decreases n,
{
    if n == 0 || queue.len() == 0 {
        Seq::empty()
    } else {
        seq![queue[0]] + taken(queue.drop_first(), (n - 1) as nat)
    }
}

/// A queue after the events `more` were scheduled, one after the other.
pub open spec fn scheduled(queue: Seq<Event>, more: Seq<Event>) -> Seq<Event>
    decreases more.len(),
{
    if more.len() == 0 {
        queue
    } else {
        scheduled(queue, more.drop_last()).push(more.last())
    }
}

proof fn taken_all(queue: Seq<Event>)
    ensures
        taken(queue, queue.len()) == queue,
    decreases queue.len(),
{
    if queue.len() > 0 {
        taken_all(queue.drop_first());
        assert(seq![queue[0]] + queue.drop_first() =~= queue);
    }
}

proof fn scheduled_is_append(queue: Seq<Event>, more: Seq<Event>)
    ensures
        scheduled(queue, more) == queue + more,
    decreases more.len(),
{
    if more.len() == 0 {
        assert(queue + more =~= queue);
    } else {
        scheduled_is_append(queue, more.drop_last());
        assert((queue + more.drop_last()).push(more.last()) =~= queue + more);
    }
}

/// Events are dispatched in the order in which they were scheduled:
/// whatever waits when a handler schedules `more`, taking events from the
/// queue until it is empty gives what waited before, and then `more` in
/// its own order, with nothing in between.
pub proof fn scheduled_in_order(queue: Seq<Event>, more: Seq<Event>)
    ensures
        taken(scheduled(queue, more), (queue.len() + more.len()) as nat) == queue + more,
        scheduled(queue, more).len() == queue.len() + more.len(),
{
    scheduled_is_append(queue, more);
    taken_all(queue + more);
}

} // verus!
