//! Copies of what the other sessions of the account receive.
//!
//! Once the session is up, the server is asked to forward to this session
//! what it delivers to the others.

use crate::disco::Disco;
use crate::event::Event;
use crate::fresh::{is_id, new_id};
use crate::session::Aparte;
use vstd::prelude::*;
use vstd::string::*;
use xmpp_parsers::Element;

verus! {

/// The request that asks the server for the copies.
pub uninterp spec fn enable_of(id: Seq<char>) -> Element;

/// `xmpp_parsers::ns::CARBONS`: the namespace of the copies.
#[verifier::external_body]
fn carbons_ns() -> (ns: &'static str)
    ensures
        ns@ == "urn:xmpp:carbons:2"@,
{
    xmpp_parsers::ns::CARBONS
}

/// `xmpp_parsers::iq::Iq::from_set` around a
/// `xmpp_parsers::carbons::Enable`, turned into an element.
#[verifier::external_body]
fn enable_iq(id: String) -> (iq: Element)
    ensures
        iq == enable_of(id@),
{
    xmpp_parsers::iq::Iq::from_set(id, xmpp_parsers::carbons::Enable).into()
}

/// Whether `request` asks the server for the copies, under an identifier
/// of its own.
pub open spec fn is_enabling(request: Element) -> bool {
    exists|id: Seq<char>| is_id(id) && request == #[trigger] enable_of(id)
}

/// Whether `after` is what waits to be sent once the plugin has taken an
/// event, where `before` waited before: once the session is up the copies
/// are asked for, and everything else sends nothing.
pub open spec fn enables(event: Event, before: Seq<Element>, after: Seq<Element>) -> bool {
    if event is Connected {
        &&& after.len() == before.len() + 1
        &&& after.drop_last() == before
        &&& is_enabling(after.last())
    } else {
        after == before
    }
}

/// The plugin that asks for the copies.
pub struct CarbonsPlugin {}

impl CarbonsPlugin {
    /// The plugin. It keeps nothing between two events.
    pub fn new() -> (plugin: CarbonsPlugin) {
        CarbonsPlugin {  }
    }

    /// The name under which the plugin is listed.
    pub fn to_string(&self) -> (s: String)
        ensures
            s@ == "XEP-0280: Message Carbons"@,
    {
        String::from_str("XEP-0280: Message Carbons")
    }

    /// The request that asks the server for the copies, under a fresh
    /// identifier.
    pub fn enable(&self) -> (request: Element)
        ensures
            is_enabling(request),
    {
        let id = new_id();
        let ghost fresh = id@;
        let request = self.enable_as(id);
        proof {
            assert(request == enable_of(fresh));
        }
        request
    }

    /// The request that asks the server for the copies, under the
    /// identifier `id`.
    pub fn enable_as(&self, id: String) -> (request: Element)
        ensures
            request == enable_of(id@),
    {
        enable_iq(id)
    }

    /// Tells service discovery that the client takes copies. It is an
    /// error if service discovery knows that already.
    pub fn init(&mut self, aparte: &mut Aparte, disco: &mut Disco) -> (started: Result<(), ()>)
        ensures
            started is Ok <==> !old(disco).features().contains("urn:xmpp:carbons:2"@),
            final(disco).features() == if old(disco).features().contains("urn:xmpp:carbons:2"@) {
                old(disco).features()
            } else {
                old(disco).features().push("urn:xmpp:carbons:2"@)
            },
            *final(aparte) == *old(aparte),
    {
        disco.add_feature(carbons_ns())
    }

    /// Asks the server for the copies once the session is up. Every other
    /// event passes.
    pub fn on_event(&mut self, aparte: &mut Aparte, event: &Event)
        ensures
            final(aparte).account() == old(aparte).account(),
            final(aparte).pending() == old(aparte).pending(),
            final(aparte).commands() == old(aparte).commands(),
            enables(*event, old(aparte).outbound(), final(aparte).outbound()),
    {
        match event {
            Event::Connected(_, _) => {
                let request = self.enable();
                aparte.send(request);
                proof {
                    assert(aparte.outbound().drop_last() =~= old(aparte).outbound());
                }
            },
            _ => {},
        }
    }
}

} // verus!
