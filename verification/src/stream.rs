//! From the bytes of the terminal to the keys that the interface acts on.
//!
//! A thread reads the terminal and hands its bytes over through a
//! channel. Polling takes the bytes that have arrived, makes a terminal
//! event of them, and lets the keys through that the interface knows.

use crate::event::{Event, Key};
use std::sync::mpsc::Receiver;
use vstd::prelude::*;

verus! {

#[verifier::external_type_specification]
#[verifier::external_body]
#[verifier::reject_recursive_types(T)]
pub struct ExReceiver<T>(Receiver<T>);

/// Hands out what a channel holds at the moment, one item at a time,
/// without ever waiting.
#[verifier::reject_recursive_types(T)]
pub struct IterWrapper<'a, T> {
    inner: &'a mut Receiver<T>,
}

/// `Receiver::try_recv`: the next item that has arrived, if one has; none
/// where the channel is empty at the moment or closed.
#[verifier::external_body]
fn try_next<T>(channel: &mut Receiver<T>) -> (item: Option<T>) {
    channel.try_recv().ok()
}

impl<'a, T> IterWrapper<'a, T> {
    /// A wrapper round the receiving end of a channel. It holds the
    /// channel as it is given, and the channel is handed back as the
    /// wrapper leaves it.
    pub fn new(inner: &'a mut Receiver<T>) -> (wrapper: Self)
        ensures
            *wrapper.channel() == *old(inner),
            *final(wrapper.channel()) == *final(inner),
    {
        Self { inner }
    }

    /// The next item that has arrived, if one has.
    pub fn next(&mut self) -> (item: Option<T>) {
        try_next(self.inner)
    }

    /// The borrowed channel that the wrapper is round.
    pub closed spec fn channel(&self) -> &'a mut Receiver<T> {
        self.inner
    }
}

/// What the terminal reports.
#[derive(Clone, Copy, Debug, PartialEq, Eq, Structural)]
pub enum TermionEvent {
    Key(Key),
    Mouse,
    Unsupported,
}

/// What a poll gives: an item or the end of the stream, or nothing yet.
/// Whoever is told that nothing is there yet is woken when that changes.
#[derive(Debug, PartialEq, Eq)]
pub enum Polled<T> {
    Ready(Option<T>),
    Pending,
}

/// What the channel from the terminal gives when it is asked without
/// waiting.
#[derive(Clone, Copy, Debug, PartialEq, Eq, Structural)]
pub enum Received {
    /// A byte.
    Byte(u8),
    /// Reading the terminal failed.
    Failed,
    /// Nothing has arrived.
    Empty,
    /// The thread that reads the terminal is gone.
    Closed,
}

/// The stream of what the terminal reports.
pub struct TermionEventStream {}

impl TermionEventStream {
    /// The first half of a poll: the byte with which an event starts, or
    /// what the poll gives without one. The stream ends when reading
    /// fails or the reader is gone, and has nothing yet while the channel
    /// is empty.
    pub fn first(received: Received) -> (next: Result<u8, Polled<TermionEvent>>)
        ensures
            next == match received {
                Received::Byte(byte) => Ok::<u8, Polled<TermionEvent>>(byte),
                Received::Failed => Err(Polled::Ready(None)),
                Received::Empty => Err(Polled::Pending),
                Received::Closed => Err(Polled::Ready(None)),
            },
    {
        match received {
            Received::Byte(byte) => Ok(byte),
            Received::Failed => Err(Polled::Ready(None)),
            Received::Empty => Err(Polled::Pending),
            Received::Closed => Err(Polled::Ready(None)),
        }
    }

    /// The second half of a poll: the event that the bytes make, or
    /// nothing yet where they make none.
    pub fn poll_next(parsed: Option<TermionEvent>) -> (polled: Polled<TermionEvent>)
        ensures
            polled == match parsed {
                Some(event) => Polled::Ready(Some(event)),
                None => Polled::Pending,
            },
    {
        match parsed {
            Some(event) => Polled::Ready(Some(event)),
            None => Polled::Pending,
        }
    }
}

/// Whether the interface knows a key: characters, with or without a
/// modifier, the keys that edit the line, and the arrows.
pub open spec fn known(key: Key) -> bool {
    match key {
        Key::Char(_) => true,
        Key::Backspace => true,
        Key::Delete => true,
        Key::Home => true,
        Key::End => true,
        Key::Up => true,
        Key::Down => true,
        Key::Left => true,
        Key::Right => true,
        Key::Ctrl(_) => true,
        Key::Alt(_) => true,
        _ => false,
    }
}

/// What the stream of the interface gives for what the stream of the
/// terminal gives: a key that the interface knows becomes an event, the
/// end stays the end, and everything else is nothing yet.
pub open spec fn let_through(inner: Polled<TermionEvent>) -> Polled<Event> {
    match inner {
        Polled::Ready(Some(TermionEvent::Key(key))) => if known(key) {
            Polled::Ready(Some(Event::Key(key)))
        } else {
            Polled::Pending
        },
        Polled::Ready(Some(_)) => Polled::Pending,
        Polled::Ready(None) => Polled::Ready(None),
        Polled::Pending => Polled::Pending,
    }
}

/// The stream of the keys that the interface acts on.
pub struct EventStream {}

impl EventStream {
    /// The stream of the interface. It keeps nothing between two polls.
    pub fn new() -> (stream: Self) {
        EventStream {  }
    }

    /// What the stream gives for what the stream of the terminal gives.
    pub fn poll_next(&mut self, inner: Polled<TermionEvent>) -> (polled: Polled<Event>)
        ensures
            polled == let_through(inner),
    {
        match inner {
            Polled::Ready(Some(TermionEvent::Key(key))) => match key {
                Key::Char(c) => Polled::Ready(Some(Event::Key(Key::Char(c)))),
                Key::Backspace => Polled::Ready(Some(Event::Key(Key::Backspace))),
                Key::Delete => Polled::Ready(Some(Event::Key(Key::Delete))),
                Key::Home => Polled::Ready(Some(Event::Key(Key::Home))),
                Key::End => Polled::Ready(Some(Event::Key(Key::End))),
                Key::Up => Polled::Ready(Some(Event::Key(Key::Up))),
                Key::Down => Polled::Ready(Some(Event::Key(Key::Down))),
                Key::Left => Polled::Ready(Some(Event::Key(Key::Left))),
                Key::Right => Polled::Ready(Some(Event::Key(Key::Right))),
                Key::Ctrl(c) => Polled::Ready(Some(Event::Key(Key::Ctrl(c)))),
                Key::Alt(c) => Polled::Ready(Some(Event::Key(Key::Alt(c)))),
                _ => Polled::Pending,
            },
            Polled::Ready(Some(TermionEvent::Mouse)) => Polled::Pending,
            Polled::Ready(Some(TermionEvent::Unsupported)) => Polled::Pending,
            Polled::Ready(None) => Polled::Ready(None),
            Polled::Pending => Polled::Pending,
        }
    }
}

} // verus!
