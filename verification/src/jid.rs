//! Addresses: `node@domain` for an account or a room, and
//! `node@domain/resource` for one session of an account or one occupant of
//! a room.

use crate::text::text_of;
use vstd::prelude::*;
use vstd::string::*;

verus! {

/// An address without a resource.
#[derive(Debug, PartialEq, Eq)]
pub struct BareJid {
    pub node: Option<String>,
    pub domain: String,
}

/// An address with a resource.
#[derive(Debug, PartialEq, Eq)]
pub struct FullJid {
    pub node: Option<String>,
    pub domain: String,
    pub resource: String,
}

/// An address of either kind.
#[derive(Debug, PartialEq, Eq)]
pub enum Jid {
    Bare(BareJid),
    Full(FullJid),
}

/// What a bare address holds.
pub struct BareJidView {
    pub node: Option<Seq<char>>,
    pub domain: Seq<char>,
}

/// What a full address holds.
pub struct FullJidView {
    pub node: Option<Seq<char>>,
    pub domain: Seq<char>,
    pub resource: Seq<char>,
}

/// What an address holds.
pub enum JidView {
    Bare(BareJidView),
    Full(FullJidView),
}

impl BareJidView {
    /// The address as it is written: the node and an `@`, where there is a
    /// node, then the domain.
    pub open spec fn text(self) -> Seq<char> {
        match self.node {
            Some(node) => node + "@"@ + self.domain,
            None => self.domain,
        }
    }
}

impl FullJidView {
    /// The address without its resource.
    pub open spec fn bare(self) -> BareJidView {
        BareJidView { node: self.node, domain: self.domain }
    }

    /// The address as it is written: the bare address, a `/`, the resource.
    pub open spec fn text(self) -> Seq<char> {
        self.bare().text() + "/"@ + self.resource
    }
}

impl JidView {
    /// The address without its resource.
    pub open spec fn bare(self) -> BareJidView {
        match self {
            JidView::Bare(jid) => jid,
            JidView::Full(jid) => jid.bare(),
        }
    }

    /// The resource, where the address has one.
    pub open spec fn resource(self) -> Option<Seq<char>> {
        match self {
            JidView::Bare(_) => None,
            JidView::Full(jid) => Some(jid.resource),
        }
    }

    /// The address as it is written.
    pub open spec fn text(self) -> Seq<char> {
        match self {
            JidView::Bare(jid) => jid.text(),
            JidView::Full(jid) => jid.text(),
        }
    }
}

impl View for BareJid {
    type V = BareJidView;

    open spec fn view(&self) -> BareJidView {
        BareJidView { node: text_of(self.node), domain: self.domain@ }
    }
}

impl View for FullJid {
    type V = FullJidView;

    open spec fn view(&self) -> FullJidView {
        FullJidView { node: text_of(self.node), domain: self.domain@, resource: self.resource@ }
    }
}

impl View for Jid {
    type V = JidView;

    open spec fn view(&self) -> JidView {
        match self {
            Jid::Bare(jid) => JidView::Bare(jid@),
            Jid::Full(jid) => JidView::Full(jid@),
        }
    }
}

/// The number of characters of `s` before the first `c`, or its length
/// where it holds none.
pub open spec fn index_of(s: Seq<char>, c: char) -> int
    decreases s.len(),
{
    if s.len() == 0 || s[0] == c {
        0
    } else {
        1 + index_of(s.drop_first(), c)
    }
}

/// The address that `s` is, if it is one.
///
/// What follows the first `/` is the resource. In what stands before it,
/// the first `@` ends the node; the rest is the domain. A node, where
/// there is an `@`, the domain, and a resource, where there is a `/`,
/// must not be empty.
pub open spec fn jid_of(s: Seq<char>) -> Option<JidView> {
    let slash = index_of(s, '/');
    let head = s.subrange(0, slash);
    let at = index_of(head, '@');
    let node = if at < head.len() {
        Some(head.subrange(0, at))
    } else {
        None
    };
    let domain = if at < head.len() {
        head.subrange(at + 1, head.len() as int)
    } else {
        head
    };
    let resource = s.subrange(slash + 1, s.len() as int);
    if node == Some(Seq::<char>::empty()) || domain.len() == 0 {
        None
    } else if slash < s.len() {
        if resource.len() == 0 {
            None
        } else {
            Some(JidView::Full(FullJidView { node, domain, resource }))
        }
    } else {
        Some(JidView::Bare(BareJidView { node, domain }))
    }
}

/// Whether `s` holds no `c`.
pub open spec fn free_of(s: Seq<char>, c: char) -> bool {
    forall|i: int| 0 <= i < s.len() ==> #[trigger] s[i] != c
}

impl JidView {
    /// The address can be written and read again: no part of it is empty,
    /// no `/` stands before the resource, and no `@` stands in the node,
    /// nor in the domain of an address without a node.
    pub open spec fn wf(self) -> bool {
        let bare = self.bare();
        &&& bare.domain.len() > 0
        &&& free_of(bare.domain, '/')
        &&& match bare.node {
            Some(node) => node.len() > 0 && free_of(node, '/') && free_of(node, '@'),
            None => free_of(bare.domain, '@'),
        }
        &&& match self {
            JidView::Full(jid) => jid.resource.len() > 0,
            JidView::Bare(_) => true,
        }
    }
}

proof fn index_of_free(s: Seq<char>, c: char, rest: Seq<char>)
    requires
        free_of(s, c),
    ensures
        index_of(s + rest, c) == s.len() + index_of(rest, c),
        index_of(s, c) == s.len(),
    decreases s.len(),
{
    if s.len() == 0 {
        assert(s + rest =~= rest);
    } else {
        assert((s + rest)[0] == s[0]);
        assert((s + rest).drop_first() =~= s.drop_first() + rest);
        assert forall|i: int| 0 <= i < s.drop_first().len() implies #[trigger] s.drop_first()[i]
            != c by {
            assert(s.drop_first()[i] == s[i + 1]);
        }
        index_of_free(s.drop_first(), c, rest);
        index_of_free(s.drop_first(), c, Seq::empty());
        assert(s.drop_first() + Seq::<char>::empty() =~= s.drop_first());
    }
}

/// An address that is in order is read from its text as it is.
pub proof fn jid_round_trip(jid: JidView)
    requires
        jid.wf(),
    ensures
        jid_of(jid.text()) == Some(jid),
{
    reveal_strlit("@");
    reveal_strlit("/");
    let at = seq!['@'];
    let slash = seq!['/'];
    assert("@"@ =~= at);
    assert("/"@ =~= slash);
    let bare = jid.bare();
    let head = bare.text();
    let text = jid.text();
    assert(free_of(head, '/')) by {
        match bare.node {
            Some(node) => {
                assert(head =~= node + at + bare.domain);
                assert forall|i: int| 0 <= i < head.len() implies #[trigger] head[i] != '/' by {
                    if i < node.len() {
                        assert(head[i] == node[i]);
                    } else if i == node.len() {
                    } else {
                        assert(head[i] == bare.domain[i - node.len() - 1]);
                    }
                }
            },
            None => {},
        }
    }
    let tail = match jid {
        JidView::Full(full) => slash + full.resource,
        JidView::Bare(_) => Seq::<char>::empty(),
    };
    assert(text =~= head + tail);
    index_of_free(head, '/', tail);
    if jid is Full {
        assert(tail[0] == '/');
    }
    let cut = index_of(text, '/');
    assert(cut == head.len());
    assert(text.subrange(0, cut) =~= head);
    match bare.node {
        Some(node) => {
            let rest = at + bare.domain;
            assert(head =~= node + rest);
            index_of_free(node, '@', rest);
            assert(rest[0] == '@');
            assert(index_of(head, '@') == node.len());
            assert(head.subrange(0, node.len() as int) =~= node);
            assert(head.subrange(node.len() as int + 1, head.len() as int) =~= bare.domain);
        },
        None => {
            index_of_free(head, '@', Seq::empty());
        },
    }
    match jid {
        JidView::Full(full) => {
            assert(text.subrange(cut + 1, text.len() as int) =~= full.resource);
        },
        JidView::Bare(_) => {},
    }
}

/// `jid::Jid::from_str`, of the crate `jid` in the version on which
/// `xmpp_parsers` is built, and which it hands on as `xmpp_parsers::Jid`:
/// the address that the text is, cut at its first `/` and, before that,
/// at its first `@`; none where the node, the domain or the resource
/// would be empty.
#[verifier::external_body]
pub(crate) fn parse_jid(s: &str) -> (jid: Option<Jid>)
    ensures
        match jid {
            Some(jid) => jid_of(s@) == Some(jid@),
            None => jid_of(s@) is None,
        },
{
    match <::jid::Jid as std::str::FromStr>::from_str(s) {
        Ok(::jid::Jid::Bare(jid)) => Some(
            Jid::Bare(BareJid { node: jid.node, domain: jid.domain }),
        ),
        Ok(::jid::Jid::Full(jid)) => Some(
            Jid::Full(FullJid { node: jid.node, domain: jid.domain, resource: jid.resource }),
        ),
        Err(_) => None,
    }
}

/// A copy of an optional string.
pub fn copy_text(s: &Option<String>) -> (copy: Option<String>)
    ensures
        copy == *s,
{
    match s {
        Some(s) => Some(s.clone()),
        None => None,
    }
}

/// Whether two optional strings hold the same text, or both none.
pub fn same_text(a: &Option<String>, b: &Option<String>) -> (same: bool)
    ensures
        same == (text_of(*a) == text_of(*b)),
{
    match (a, b) {
        (Some(a), Some(b)) => *a == *b,
        (None, None) => true,
        _ => false,
    }
}

impl Clone for BareJid {
    fn clone(&self) -> (copy: Self)
        ensures
            copy == *self,
    {
        BareJid { node: copy_text(&self.node), domain: self.domain.clone() }
    }
}

impl Clone for FullJid {
    fn clone(&self) -> (copy: Self)
        ensures
            copy == *self,
    {
        FullJid {
            node: copy_text(&self.node),
            domain: self.domain.clone(),
            resource: self.resource.clone(),
        }
    }
}

impl Clone for Jid {
    fn clone(&self) -> (copy: Self)
        ensures
            copy == *self,
    {
        match self {
            Jid::Bare(jid) => Jid::Bare(jid.clone()),
            Jid::Full(jid) => Jid::Full(jid.clone()),
        }
    }
}

impl BareJid {
    /// Whether the two addresses are the same.
    pub fn same(&self, other: &BareJid) -> (same: bool)
        ensures
            same == (self@ == other@),
    {
        same_text(&self.node, &other.node) && self.domain == other.domain
    }

    /// The address as it is written.
    pub fn to_string(&self) -> (s: String)
        ensures
            s@ == self@.text(),
    {
        match &self.node {
            Some(node) => {
                let mut s = node.clone();
                s.append("@");
                s.append(self.domain.as_str());
                s
            },
            None => self.domain.clone(),
        }
    }
}

impl FullJid {
    /// Whether the two addresses are the same.
    pub fn same(&self, other: &FullJid) -> (same: bool)
        ensures
            same == (self@ == other@),
    {
        same_text(&self.node, &other.node) && self.domain == other.domain && self.resource
            == other.resource
    }

    /// The address without its resource.
    pub fn to_bare(&self) -> (bare: BareJid)
        ensures
            bare@ == self@.bare(),
    {
        BareJid { node: copy_text(&self.node), domain: self.domain.clone() }
    }

    /// The address as it is written.
    pub fn to_string(&self) -> (s: String)
        ensures
            s@ == self@.text(),
    {
        let mut s = self.to_bare().to_string();
        s.append("/");
        s.append(self.resource.as_str());
        s
    }
}

impl Jid {
    /// The address without its resource.
    pub fn to_bare(&self) -> (bare: BareJid)
        ensures
            bare@ == self@.bare(),
    {
        match self {
            Jid::Bare(jid) => jid.clone(),
            Jid::Full(jid) => jid.to_bare(),
        }
    }

    /// The resource, where the address has one.
    pub fn resource(&self) -> (resource: Option<String>)
        ensures
            text_of(resource) == self@.resource(),
    {
        match self {
            Jid::Bare(_) => None,
            Jid::Full(jid) => Some(jid.resource.clone()),
        }
    }

    /// The address as it is written.
    pub fn to_string(&self) -> (s: String)
        ensures
            s@ == self@.text(),
    {
        match self {
            Jid::Bare(jid) => jid.to_string(),
            Jid::Full(jid) => jid.to_string(),
        }
    }
}

} // verus!
