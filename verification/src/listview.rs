//! A list of entries under group headings.
//!
//! A group holds an entry at most once. A list of unique entries holds an
//! entry in at most one group. A sorted list puts an entry before the
//! first entry of its group whose label comes after its own.

use crate::text::{chars_of, texts};
use vstd::prelude::*;

verus! {

/// What a list needs of its groups and entries: what it shows of them, a
/// key that tells one from another, and a label to order them by.
pub trait Keyed: Sized {
    /// What a list shows of an entry.
    type Shown;

    /// What tells one entry from another.
    type Key;

    /// What a list shows of this entry.
    spec fn shown(&self) -> Self::Shown;

    /// What tells the entry from another.
    spec fn key_of(shown: Self::Shown) -> Self::Key;

    /// The text by which the entry is ordered.
    spec fn label_of(shown: Self::Shown) -> Seq<char>;

    /// Whether the two entries have the same key.
    fn same(&self, other: &Self) -> (same: bool)
        ensures
            same == (Self::key_of(self.shown()) == Self::key_of(other.shown())),
    ;

    /// The text by which the entry is ordered.
    fn label_text(&self) -> (label: String)
        ensures
            label@ == Self::label_of(self.shown()),
    ;

    /// The line that a list writes for the entry.
    spec fn line_of(shown: Self::Shown) -> Seq<char>;

    /// The line that a list writes for the entry.
    fn line_text(&self) -> (line: String)
        ensures
            line@ == Self::line_of(self.shown()),
    ;
}

/// A list of entries `I` under headings `G`.
pub struct ListView<G, I> {
    pub none_group: bool,
    pub unique: bool,
    pub sorted: bool,
    pub groups: Vec<G>,
    pub rows: Vec<Vec<I>>,
    pub loose: Vec<I>,
}

/// What a list holds: how it is made, its groups in their order, the
/// entries under each of them, and the entries without a group.
pub struct ListModel<G: Keyed, I: Keyed> {
    pub none_group: bool,
    pub unique: bool,
    pub sorted: bool,
    pub groups: Seq<G::Shown>,
    pub rows: Seq<Seq<I::Shown>>,
    pub loose: Seq<I::Shown>,
}

/// Whether `a` comes before `b`: at the first place where they differ,
/// `a` has the lesser character, or `a` ends there and `b` goes on.
pub open spec fn before(a: Seq<char>, b: Seq<char>) -> bool
    decreases a.len(),
{
    if b.len() == 0 {
        false
    } else if a.len() == 0 {
        true
    } else if a[0] != b[0] {
        (a[0] as u32) < (b[0] as u32)
    } else {
        before(a.drop_first(), b.drop_first())
    }
}

/// What a list shows of `items`.
pub open spec fn all_shown<I: Keyed>(items: Seq<I>) -> Seq<I::Shown> {
    items.map_values(|item: I| item.shown())
}

/// `items` without the entries of key `key`.
pub open spec fn without_key<I: Keyed>(items: Seq<I::Shown>, key: I::Key) -> Seq<I::Shown> {
    items.filter(|item: I::Shown| I::key_of(item) != key)
}

/// Whether `items` holds an entry of key `key`.
pub open spec fn holds_key<I: Keyed>(items: Seq<I::Shown>, key: I::Key) -> bool {
    exists|i: int| 0 <= i < items.len() && I::key_of(#[trigger] items[i]) == key
}

/// Where an entry of label `label` goes in `items`: before the first
/// entry that comes after it, or at the end.
pub open spec fn slot<I: Keyed>(items: Seq<I::Shown>, label: Seq<char>) -> int
    decreases items.len(),
{
    if items.len() == 0 {
        0
    } else if before(label, I::label_of(items[0])) {
        0
    } else {
        1 + slot::<I>(items.drop_first(), label)
    }
}

/// `items` with `item` put in: an entry of the same key gives way, and
/// the entry goes to its place by label in a sorted list, to the end in
/// another.
pub open spec fn put<I: Keyed>(items: Seq<I::Shown>, item: I::Shown, sorted: bool) -> Seq<
    I::Shown,
> {
    let rest = without_key::<I>(items, I::key_of(item));
    if sorted {
        rest.insert(slot::<I>(rest, I::label_of(item)), item)
    } else {
        rest.push(item)
    }
}

/// The index of the first of `groups` with the key `key`, or their number
/// where none has it.
pub open spec fn group_index<G: Keyed>(groups: Seq<G::Shown>, key: G::Key) -> int
    decreases groups.len(),
{
    if groups.len() == 0 {
        0
    } else if G::key_of(groups[0]) == key {
        0
    } else {
        1 + group_index::<G>(groups.drop_first(), key)
    }
}

impl<G: Keyed, I: Keyed> ListModel<G, I> {
    /// Every group has its row.
    pub open spec fn wf(self) -> bool {
        self.groups.len() == self.rows.len()
    }

    /// Whether the list has a group of key `key`.
    pub open spec fn has_group(self, key: G::Key) -> bool {
        group_index::<G>(self.groups, key) < self.groups.len()
    }

    /// The entries under the group of key `key`; none where there is no
    /// such group.
    pub open spec fn under(self, key: G::Key) -> Seq<I::Shown> {
        let index = group_index::<G>(self.groups, key);
        if index < self.rows.len() {
            self.rows[index]
        } else {
            Seq::empty()
        }
    }

    /// The list with the group added behind the others, without entries,
    /// unless it has a group of this key already.
    pub open spec fn add_group(self, group: G::Shown) -> Self {
        if self.has_group(G::key_of(group)) {
            self
        } else {
            ListModel {
                groups: self.groups.push(group),
                rows: self.rows.push(Seq::empty()),
                ..self
            }
        }
    }

    /// The list without the entries of key `key` in the rows other than
    /// `except`, and among the entries without a group if `loose` says so.
    pub open spec fn purged(self, key: I::Key, except: int, loose: bool) -> Self {
        ListModel {
            rows: Seq::new(
                self.rows.len(),
                |r: int|
                    if r != except {
                        without_key::<I>(self.rows[r], key)
                    } else {
                        self.rows[r]
                    },
            ),
            loose: if loose {
                without_key::<I>(self.loose, key)
            } else {
                self.loose
            },
            ..self
        }
    }

    /// The list with `item` put into row `target`.
    pub open spec fn put_at(self, target: int, item: I::Shown) -> Self {
        ListModel {
            rows: self.rows.update(target, put::<I>(self.rows[target], item, self.sorted)),
            ..self
        }
    }

    /// The list with `item` put under `group`, or among the entries
    /// without a group.
    ///
    /// An entry without a group is dropped by a list that takes none. A
    /// group that the list does not have yet is added behind the others.
    /// In a list of unique entries the entry leaves every other group.
    /// Where the entry goes, an entry of the same key gives way to it.
    pub open spec fn insert(self, item: I::Shown, group: Option<G::Shown>) -> Self {
        match group {
            None => if self.none_group {
                let cleared = if self.unique {
                    self.purged(I::key_of(item), self.rows.len() as int, false)
                } else {
                    self
                };
                ListModel { loose: put::<I>(cleared.loose, item, self.sorted), ..cleared }
            } else {
                self
            },
            Some(g) => {
                let grown = self.add_group(g);
                let target = group_index::<G>(self.groups, G::key_of(g));
                let cleared = if self.unique {
                    grown.purged(I::key_of(item), target, true)
                } else {
                    grown
                };
                cleared.put_at(target, item)
            },
        }
    }

    /// Whether `group`, or the entries without a group, hold an entry of
    /// key `key`.
    pub open spec fn holds(self, key: I::Key, group: Option<G::Shown>) -> bool {
        holds_key::<I>(
            match group {
                Some(g) => self.under(G::key_of(g)),
                None => self.loose,
            },
            key,
        )
    }

    /// The list without the entries of key `key` under `group`, or among
    /// the entries without a group.
    pub open spec fn remove(self, key: I::Key, group: Option<G::Shown>) -> Self {
        match group {
            None => ListModel { loose: without_key::<I>(self.loose, key), ..self },
            Some(g) => {
                let target = group_index::<G>(self.groups, G::key_of(g));
                if target < self.rows.len() {
                    ListModel {
                        rows: self.rows.update(target, without_key::<I>(self.rows[target], key)),
                        ..self
                    }
                } else {
                    self
                }
            },
        }
    }
}

/// What a list writes of an entry: its line as it is drawn, or else its
/// bare label.
pub open spec fn face<K: Keyed>(shown: K::Shown, line: bool) -> Seq<char> {
    if line {
        K::line_of(shown)
    } else {
        K::label_of(shown)
    }
}

/// What a list writes of `items`, one after the other.
pub open spec fn faces<K: Keyed>(items: Seq<K::Shown>, line: bool) -> Seq<Seq<char>> {
    items.map_values(|item: K::Shown| face::<K>(item, line))
}

impl<G: Keyed, I: Keyed> ListModel<G, I> {
    /// What the list writes of its first `k` groups: for each its heading,
    /// and under it its entries.
    pub open spec fn grouped(self, line: bool, k: int) -> Seq<Seq<char>>
        decreases k,
    {
        if k <= 0 {
            Seq::empty()
        } else {
            self.grouped(line, k - 1).push(face::<G>(self.groups[k - 1], line)) + faces::<I>(
                self.rows[k - 1],
                line,
            )
        }
    }

    /// What the list writes, from the top down: the entries without a
    /// group, then the groups.
    pub open spec fn listed(self, line: bool) -> Seq<Seq<char>> {
        faces::<I>(self.loose, line) + self.grouped(line, self.groups.len() as int)
    }
}

impl<G: Keyed, I: Keyed> View for ListView<G, I> {
    type V = ListModel<G, I>;

    open spec fn view(&self) -> ListModel<G, I> {
        ListModel {
            none_group: self.none_group,
            unique: self.unique,
            sorted: self.sorted,
            groups: all_shown(self.groups@),
            rows: Seq::new(self.rows@.len(), |r: int| all_shown(self.rows@[r]@)),
            loose: all_shown(self.loose@),
        }
    }
}

/// Whether the entries stand in the order of their labels: none comes
/// before an entry that stands before it.
pub open spec fn ordered<I: Keyed>(items: Seq<I::Shown>) -> bool {
    forall|i: int, j: int|
        0 <= i < j < items.len() ==> !before(
            I::label_of(#[trigger] items[j]),
            I::label_of(#[trigger] items[i]),
        )
}

proof fn before_chains(a: Seq<char>, b: Seq<char>, c: Seq<char>)
    requires
        before(a, b),
        before(b, c),
    ensures
        before(a, c),
    decreases a.len(),
{
    if a.len() > 0 && a[0] == b[0] && b[0] == c[0] {
        before_chains(a.drop_first(), b.drop_first(), c.drop_first());
    }
}

proof fn slot_splits<I: Keyed>(items: Seq<I::Shown>, label: Seq<char>)
    ensures
        0 <= slot::<I>(items, label) <= items.len(),
        forall|i: int|
            0 <= i < slot::<I>(items, label) ==> !before(label, I::label_of(#[trigger] items[i])),
        slot::<I>(items, label) < items.len() ==> before(
            label,
            I::label_of(items[slot::<I>(items, label)]),
        ),
    decreases items.len(),
{
    if items.len() > 0 && !before(label, I::label_of(items[0])) {
        let rest = items.drop_first();
        slot_splits::<I>(rest, label);
        assert forall|i: int| 0 <= i < slot::<I>(items, label) implies !before(
            label,
            I::label_of(#[trigger] items[i]),
        ) by {
            if i > 0 {
                assert(rest[i - 1] == items[i]);
            }
        }
        if slot::<I>(items, label) < items.len() {
            assert(rest[slot::<I>(rest, label)] == items[slot::<I>(items, label)]);
        }
    }
}

proof fn without_keeps_order<I: Keyed>(items: Seq<I::Shown>, key: I::Key)
    requires
        ordered::<I>(items),
    ensures
        ordered::<I>(without_key::<I>(items, key)),
    decreases items.len(),
{
    reveal(Seq::filter);
    let keep = |item: I::Shown| I::key_of(item) != key;
    if items.len() > 0 {
        let front = items.drop_last();
        let last = items.last();
        assert(ordered::<I>(front)) by {
            assert forall|i: int, j: int| 0 <= i < j < front.len() implies !before(
                I::label_of(#[trigger] front[j]),
                I::label_of(#[trigger] front[i]),
            ) by {
                assert(front[i] == items[i] && front[j] == items[j]);
            }
        }
        without_keeps_order::<I>(front, key);
        let rest = without_key::<I>(front, key);
        if I::key_of(last) != key {
            assert(without_key::<I>(items, key) =~= rest.push(last));
            assert forall|i: int, j: int| 0 <= i < j < rest.len() + 1 implies !before(
                I::label_of(#[trigger] rest.push(last)[j]),
                I::label_of(#[trigger] rest.push(last)[i]),
            ) by {
                if j < rest.len() {
                    assert(rest.push(last)[i] == rest[i] && rest.push(last)[j] == rest[j]);
                } else {
                    assert(rest.contains(rest[i]));
                    front.lemma_filter_contains_rev(keep, rest[i]);
                    let k = choose|k: int| 0 <= k < front.len() && front[k] == rest[i];
                    assert(items[k] == rest[i]);
                    assert(items[items.len() - 1] == last);
                }
            }
        } else {
            assert(without_key::<I>(items, key) =~= rest);
        }
    }
}

/// A list that stands in the order of its labels still does so when an
/// entry is put in at its place.
pub proof fn put_keeps_order<I: Keyed>(items: Seq<I::Shown>, item: I::Shown)
    requires
        ordered::<I>(items),
    ensures
        ordered::<I>(put::<I>(items, item, true)),
{
    let rest = without_key::<I>(items, I::key_of(item));
    let label = I::label_of(item);
    let place = slot::<I>(rest, label);
    let grown = rest.insert(place, item);
    without_keeps_order::<I>(items, I::key_of(item));
    slot_splits::<I>(rest, label);
    assert forall|i: int, j: int| 0 <= i < j < grown.len() implies !before(
        I::label_of(#[trigger] grown[j]),
        I::label_of(#[trigger] grown[i]),
    ) by {
        if j < place {
            assert(grown[i] == rest[i] && grown[j] == rest[j]);
        } else if j == place {
            assert(grown[i] == rest[i]);
        } else if i < place {
            assert(grown[i] == rest[i] && grown[j] == rest[j - 1]);
        } else if i == place {
            assert(grown[j] == rest[j - 1]);
            if before(I::label_of(rest[j - 1]), label) {
                before_chains(I::label_of(rest[j - 1]), label, I::label_of(rest[place]));
                if j - 1 > place {
                    assert(!before(I::label_of(rest[j - 1]), I::label_of(rest[place])));
                } else {
                    before_irreflexive(I::label_of(rest[place]));
                }
            }
        } else {
            assert(grown[i] == rest[i - 1] && grown[j] == rest[j - 1]);
        }
    }
}

proof fn before_irreflexive(a: Seq<char>)
    ensures
        !before(a, a),
    decreases a.len(),
{
    if a.len() > 0 {
        before_irreflexive(a.drop_first());
    }
}

/// Whether `a` comes before `b`.
fn comes_before(a: &Vec<char>, b: &Vec<char>) -> (r: bool)
    ensures
        r == before(a@, b@),
{
    let mut i: usize = 0;
    proof {
        assert(a@.skip(0) =~= a@);
        assert(b@.skip(0) =~= b@);
    }
    while i < a.len() && i < b.len()
        invariant
            i <= a.len(),
            i <= b.len(),
            before(a@, b@) == before(a@.skip(i as int), b@.skip(i as int)),
        decreases a.len() - i,
    {
        proof {
            assert(a@.skip(i as int)[0] == a@[i as int]);
            assert(b@.skip(i as int)[0] == b@[i as int]);
            assert(a@.skip(i as int).drop_first() =~= a@.skip(i + 1));
            assert(b@.skip(i as int).drop_first() =~= b@.skip(i + 1));
        }
        if a[i] != b[i] {
            return (a[i] as u32) < (b[i] as u32);
        }
        i = i + 1;
    }
    i < b.len()
}

/// Removes from `items` the entries that have the key of `probe`.
fn drop_key<I: Keyed>(items: &mut Vec<I>, probe: &I)
    ensures
        all_shown(final(items)@) == without_key::<I>(
            all_shown(old(items)@),
            I::key_of(probe.shown()),
        ),
{
    let ghost all = all_shown(items@);
    let ghost key = I::key_of(probe.shown());
    let ghost keep = |item: I::Shown| I::key_of(item) != key;
    let mut i: usize = 0;
    let ghost mut j: int = 0;
    proof {
        reveal(Seq::filter);
        assert(all.subrange(0, 0) =~= Seq::<I::Shown>::empty());
        assert(all_shown(items@) =~= all.subrange(0, 0).filter(keep) + all.subrange(
            0,
            all.len() as int,
        ));
    }
    while i < items.len()
        invariant
            0 <= j <= all.len(),
            i == all.subrange(0, j).filter(keep).len(),
            all_shown(items@) == all.subrange(0, j).filter(keep) + all.subrange(
                j,
                all.len() as int,
            ),
            key == I::key_of(probe.shown()),
            keep == (|item: I::Shown| I::key_of(item) != key),
        decreases all.len() - j,
    {
        let ghost before = items@;
        proof {
            reveal(Seq::filter);
            assert(all.subrange(0, j + 1).drop_last() =~= all.subrange(0, j));
            assert(all.subrange(0, j + 1).last() == all[j]);
            assert(all_shown(before)[i as int] == all[j]);
            assert(before[i as int].shown() == all[j]);
        }
        if items[i].same(probe) {
            items.remove(i);
            proof {
                assert(all_shown(items@) =~= all_shown(before).remove(i as int));
                assert(all_shown(items@) =~= all.subrange(0, j + 1).filter(keep) + all.subrange(
                    j + 1,
                    all.len() as int,
                ));
            }
        } else {
            proof {
                assert(all_shown(items@) =~= all.subrange(0, j + 1).filter(keep) + all.subrange(
                    j + 1,
                    all.len() as int,
                ));
            }
            i = i + 1;
        }
        proof {
            j = j + 1;
        }
    }
    proof {
        assert(all.subrange(0, j) =~= all);
        assert(all_shown(items@) =~= all.filter(keep));
    }
}

/// Whether `items` holds an entry with the key of `probe`.
fn has_key<I: Keyed>(items: &Vec<I>, probe: &I) -> (found: bool)
    ensures
        found == holds_key::<I>(all_shown(items@), I::key_of(probe.shown())),
{
    let mut i: usize = 0;
    while i < items.len()
        invariant
            i <= items.len(),
            forall|j: int|
                0 <= j < i ==> I::key_of(#[trigger] all_shown(items@)[j]) != I::key_of(
                    probe.shown(),
                ),
        decreases items.len() - i,
    {
        if items[i].same(probe) {
            proof {
                assert(all_shown(items@)[i as int] == items@[i as int].shown());
            }
            return true;
        }
        proof {
            assert(all_shown(items@)[i as int] == items@[i as int].shown());
        }
        i = i + 1;
    }
    false
}

/// Puts `item` into `items`.
fn put_in<I: Keyed>(items: &mut Vec<I>, item: I, sorted: bool)
    ensures
        all_shown(final(items)@) == put::<I>(all_shown(old(items)@), item.shown(), sorted),
{
    drop_key(items, &item);
    let ghost rest = all_shown(items@);
    if sorted {
        let label = chars_of(item.label_text().as_str());
        let mut i: usize = 0;
        let mut found = false;
        proof {
            assert(rest.skip(0) =~= rest);
        }
        while i < items.len() && !found
            invariant
                i <= items.len(),
                all_shown(items@) == rest,
                label@ == I::label_of(item.shown()),
                !found ==> slot::<I>(rest, label@) == i + slot::<I>(rest.skip(i as int), label@),
                found ==> slot::<I>(rest, label@) == i,
            decreases items.len() - i + if found { 0int } else { 1int },
        {
            let other = chars_of(items[i].label_text().as_str());
            proof {
                assert(rest[i as int] == items@[i as int].shown());
                assert(rest.skip(i as int)[0] == rest[i as int]);
                assert(rest.skip(i as int).drop_first() =~= rest.skip(i + 1));
            }
            if comes_before(&label, &other) {
                found = true;
            } else {
                i = i + 1;
            }
        }
        proof {
            if !found {
                assert(rest.skip(i as int).len() == 0);
            }
        }
        items.insert(i, item);
        proof {
            assert(all_shown(items@) =~= rest.insert(i as int, item.shown()));
        }
    } else {
        items.push(item);
        proof {
            assert(all_shown(items@) =~= rest.push(item.shown()));
        }
    }
}

/// The index of the first of `groups` with the key of `group`, or their
/// number where none has it.
fn find_group<G: Keyed>(groups: &Vec<G>, group: &G) -> (index: usize)
    ensures
        index == group_index::<G>(all_shown(groups@), G::key_of(group.shown())),
        index <= groups@.len(),
{
    let ghost all = all_shown(groups@);
    let ghost key = G::key_of(group.shown());
    let mut i: usize = 0;
    proof {
        assert(all.skip(0) =~= all);
    }
    while i < groups.len()
        invariant
            i <= groups.len(),
            all == all_shown(groups@),
            key == G::key_of(group.shown()),
            group_index::<G>(all, key) == i + group_index::<G>(all.skip(i as int), key),
        decreases groups.len() - i,
    {
        proof {
            assert(all[i as int] == groups@[i as int].shown());
            assert(all.skip(i as int)[0] == all[i as int]);
            assert(all.skip(i as int).drop_first() =~= all.skip(i + 1));
        }
        if groups[i].same(group) {
            return i;
        }
        i = i + 1;
    }
    proof {
        assert(all.skip(i as int).len() == 0);
    }
    i
}

/// What a list writes of an entry.
fn face_text<K: Keyed>(item: &K, line: bool) -> (text: String)
    ensures
        text@ == face::<K>(item.shown(), line),
{
    if line {
        item.line_text()
    } else {
        item.label_text()
    }
}

/// Appends what a list writes of `items`.
fn push_faces<K: Keyed>(out: &mut Vec<String>, items: &Vec<K>, line: bool)
    ensures
        texts(final(out)@) == texts(old(out)@) + faces::<K>(all_shown(items@), line),
{
    let ghost all = faces::<K>(all_shown(items@), line);
    let mut i: usize = 0;
    proof {
        assert(texts(out@) =~= texts(old(out)@) + all.subrange(0, 0));
    }
    while i < items.len()
        invariant
            i <= items@.len(),
            all == faces::<K>(all_shown(items@), line),
            texts(out@) == texts(old(out)@) + all.subrange(0, i as int),
        decreases items.len() - i,
    {
        let ghost before = out@;
        out.push(face_text(&items[i], line));
        i = i + 1;
        proof {
            assert(all[i - 1] == face::<K>(items@[i - 1].shown(), line));
            assert(texts(out@) =~= texts(before).push(all[i - 1]));
            assert(all.subrange(0, i as int) =~= all.subrange(0, i - 1).push(all[i - 1]));
        }
    }
    proof {
        assert(all.subrange(0, i as int) =~= all);
    }
}

impl<G: Keyed, I: Keyed> ListView<G, I> {
    /// Every group has its row.
    pub open spec fn wf(&self) -> bool {
        self.groups@.len() == self.rows@.len()
    }

    /// What the list writes, from the top down: the lines as they are
    /// drawn, or else the bare labels.
    pub fn listed(&self, line: bool) -> (all: Vec<String>)
        requires
            self.wf(),
        ensures
            texts(all@) == self@.listed(line),
    {
        let mut all: Vec<String> = Vec::new();
        push_faces(&mut all, &self.loose, line);
        let ghost head = texts(all@);
        let mut g: usize = 0;
        proof {
            assert(head =~= faces::<I>(self@.loose, line));
            assert(texts(all@) =~= head + self@.grouped(line, 0));
        }
        while g < self.groups.len()
            invariant
                g <= self.groups@.len(),
                self.wf(),
                head == faces::<I>(self@.loose, line),
                texts(all@) == head + self@.grouped(line, g as int),
            decreases self.groups.len() - g,
        {
            let ghost before = texts(all@);
            all.push(face_text(&self.groups[g], line));
            let ghost between = texts(all@);
            push_faces(&mut all, &self.rows[g], line);
            proof {
                assert(self@.groups[g as int] == self.groups@[g as int].shown());
                assert(self@.rows[g as int] == all_shown(self.rows@[g as int]@));
                assert(between =~= before.push(face::<G>(self@.groups[g as int], line)));
                assert(texts(all@) =~= head + self@.grouped(line, g + 1));
            }
            g = g + 1;
        }
        all
    }

    /// An empty list: entries need a group, may stand in several groups,
    /// and stay in the order in which they came.
    pub fn new() -> (list: Self)
        ensures
            list.wf(),
            list@ == (ListModel::<G, I> {
                none_group: false,
                unique: false,
                sorted: false,
                groups: Seq::empty(),
                rows: Seq::empty(),
                loose: Seq::empty(),
            }),
    {
        let list = ListView {
            none_group: false,
            unique: false,
            sorted: false,
            groups: Vec::new(),
            rows: Vec::new(),
            loose: Vec::new(),
        };
        proof {
            assert(list@.groups =~= Seq::empty());
            assert(list@.rows =~= Seq::empty());
            assert(list@.loose =~= Seq::empty());
        }
        list
    }

    /// The list, taking entries without a group from now on.
    pub fn with_none_group(self) -> (list: Self)
        requires
            self.wf(),
        ensures
            list.wf(),
            list@ == (ListModel { none_group: true, ..self@ }),
    {
        ListView { none_group: true, ..self }
    }

    /// The list, holding an entry in at most one group from now on.
    pub fn with_unique_item(self) -> (list: Self)
        requires
            self.wf(),
        ensures
            list.wf(),
            list@ == (ListModel { unique: true, ..self@ }),
    {
        ListView { unique: true, ..self }
    }

    /// The list, putting an entry at its place by label from now on.
    pub fn with_sort_item(self) -> (list: Self)
        requires
            self.wf(),
        ensures
            list.wf(),
            list@ == (ListModel { sorted: true, ..self@ }),
    {
        ListView { sorted: true, ..self }
    }

    /// The index of the group of this key; the group is added behind the
    /// others, without entries, where the list does not have it.
    fn group_at(&mut self, group: G) -> (index: usize)
        requires
            old(self).wf(),
        ensures
            final(self).wf(),
            final(self)@ == old(self)@.add_group(group.shown()),
            index == group_index::<G>(old(self)@.groups, G::key_of(group.shown())),
            index < final(self).rows@.len(),
    {
        let index = find_group(&self.groups, &group);
        if index == self.groups.len() {
            self.groups.push(group);
            self.rows.push(Vec::new());
            proof {
                assert(self@.groups =~= old(self)@.groups.push(group.shown()));
                assert(all_shown(self.rows@[self.rows@.len() - 1]@) =~= Seq::empty());
                assert(self@.rows =~= old(self)@.rows.push(Seq::empty()));
            }
        }
        index
    }

    /// Adds a group, behind the others and without entries, unless the
    /// list has a group of this key already.
    pub fn add_group(&mut self, group: G)
        requires
            old(self).wf(),
        ensures
            final(self).wf(),
            final(self)@ == old(self)@.add_group(group.shown()),
    {
        let _ = self.group_at(group);
    }

    /// Takes the entries of the key of `item` out of every row but row
    /// `except`, and out of the entries without a group if `loose` says so.
    fn purge(&mut self, item: &I, except: usize, loose: bool)
        requires
            old(self).wf(),
        ensures
            final(self).wf(),
            final(self)@ == old(self)@.purged(I::key_of(item.shown()), except as int, loose),
            final(self).rows@.len() == old(self).rows@.len(),
    {
        let ghost key = I::key_of(item.shown());
        let mut r: usize = 0;
        while r < self.rows.len()
            invariant
                r <= self.rows@.len(),
                self.rows@.len() == old(self).rows@.len(),
                self.groups == old(self).groups,
                self.none_group == old(self).none_group,
                self.unique == old(self).unique,
                self.sorted == old(self).sorted,
                self.loose == old(self).loose,
                key == I::key_of(item.shown()),
                forall|q: int|
                    0 <= q < r ==> all_shown((#[trigger] self.rows@[q])@) == if q == except {
                        all_shown(old(self).rows@[q]@)
                    } else {
                        without_key::<I>(all_shown(old(self).rows@[q]@), key)
                    },
                forall|q: int|
                    r <= q < self.rows@.len() ==> #[trigger] self.rows@[q] == old(self).rows@[q],
            decreases self.rows.len() - r,
        {
            if r != except {
                let ghost before = self.rows@;
                let mut row = self.rows.remove(r);
                drop_key(&mut row, item);
                self.rows.insert(r, row);
                proof {
                    assert forall|q: int| 0 <= q < self.rows@.len() && q != r implies self.rows@[q]
                        == before[q] by {}
                }
            }
            r = r + 1;
        }
        if loose {
            drop_key(&mut self.loose, item);
        }
        proof {
            let model = old(self)@.purged(key, except as int, loose);
            assert forall|q: int| 0 <= q < self.rows@.len() implies self@.rows[q]
                == model.rows[q] by {
                assert(self@.rows[q] == all_shown(self.rows@[q]@));
            }
            assert(self@.rows =~= model.rows);
        }
    }

    /// Puts `item` into row `target`.
    fn put_at(&mut self, target: usize, item: I)
        requires
            old(self).wf(),
            target < old(self).rows@.len(),
        ensures
            final(self).wf(),
            final(self)@ == old(self)@.put_at(target as int, item.shown()),
    {
        let ghost before = self.rows@;
        let mut row = self.rows.remove(target);
        put_in(&mut row, item, self.sorted);
        self.rows.insert(target, row);
        proof {
            let model = old(self)@.put_at(target as int, item.shown());
            assert forall|q: int| 0 <= q < self.rows@.len() implies self@.rows[q]
                == model.rows[q] by {
                if q != target {
                    assert(self.rows@[q] == before[q]);
                }
            }
            assert(self@.rows =~= model.rows);
        }
    }

    /// Puts an entry under a group, or among the entries without a group.
    pub fn insert(&mut self, item: I, group: Option<G>)
        requires
            old(self).wf(),
        ensures
            final(self).wf(),
            final(self)@ == old(self)@.insert(
                item.shown(),
                match group {
                    Some(g) => Some(g.shown()),
                    None => None,
                },
            ),
    {
        match group {
            None => {
                if self.none_group {
                    if self.unique {
                        self.purge(&item, self.rows.len(), false);
                    }
                    put_in(&mut self.loose, item, self.sorted);
                }
            },
            Some(g) => {
                let target = self.group_at(g);
                if self.unique {
                    self.purge(&item, target, true);
                }
                self.put_at(target, item);
            },
        }
    }

    /// Takes an entry away from under a group, or from among the entries
    /// without a group. It is an error if the group is not there or does
    /// not hold the entry; nothing changes then.
    pub fn remove(&mut self, item: &I, group: Option<G>) -> (r: Result<(), ()>)
        requires
            old(self).wf(),
        ensures
            final(self).wf(),
            r is Ok <==> old(self)@.holds(
                I::key_of(item.shown()),
                match group {
                    Some(g) => Some(g.shown()),
                    None => None,
                },
            ),
            r is Ok ==> final(self)@ == old(self)@.remove(
                I::key_of(item.shown()),
                match group {
                    Some(g) => Some(g.shown()),
                    None => None,
                },
            ),
            r is Err ==> *final(self) == *old(self),
    {
        match group {
            Some(g) => {
                let target = find_group(&self.groups, &g);
                if target < self.rows.len() && has_key(&self.rows[target], item) {
                    let ghost before = self.rows@;
                    let mut row = self.rows.remove(target);
                    drop_key(&mut row, item);
                    self.rows.insert(target, row);
                    proof {
                        let model = old(self)@.remove(I::key_of(item.shown()), Some(g.shown()));
                        assert forall|q: int| 0 <= q < self.rows@.len() implies self@.rows[q]
                            == model.rows[q] by {
                            if q != target {
                                assert(self.rows@[q] == before[q]);
                            }
                        }
                        assert(self@.rows =~= model.rows);
                    }
                    Ok(())
                } else {
                    Err(())
                }
            },
            None => {
                if has_key(&self.loose, item) {
                    drop_key(&mut self.loose, item);
                    Ok(())
                } else {
                    Err(())
                }
            },
        }
    }
}

} // verus!
