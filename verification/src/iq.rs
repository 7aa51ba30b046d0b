//! The requests that wait for their answer.
//!
//! A request goes out under an identifier of its own. Its answer carries
//! the identifier back; a request whose answer does not come in time is
//! given up, and so is every request that still waits when the connection
//! is lost. Either way a request is settled once.

use crate::text::{holds, push_keeps, texts, without, without_holds, without_keeps};
use vstd::prelude::*;
use vstd::string::*;

verus! {

/// How long a request waits for its answer, in seconds.
pub open spec fn patience() -> int {
    30
}

/// Whether a request that went out at the moment `since` has waited too
/// long at the moment `now`.
pub open spec fn late(since: int, now: int) -> bool {
    since + patience() <= now
}

/// Whether a request that went out at a moment still has time at `now`.
pub open spec fn in_time(now: int) -> spec_fn(int) -> bool {
    |since: int| !late(since, now)
}

/// The moments at which the requests `ids` went out, without that of the
/// request `id`.
pub open spec fn stamps_without(ids: Seq<Seq<char>>, since: Seq<int>, id: Seq<char>) -> Seq<int>
    decreases ids.len(),
{
    if ids.len() == 0 || since.len() != ids.len() {
        Seq::empty()
    } else {
        let rest = stamps_without(ids.drop_last(), since.drop_last(), id);
        if ids.last() != id {
            rest.push(since.last())
        } else {
            rest
        }
    }
}

/// Those of the requests `ids`, which went out at the moments `since`,
/// that have waited too long at `now`, or else those that have not; in
/// their order.
pub open spec fn sorted_out(ids: Seq<Seq<char>>, since: Seq<int>, now: int, overdue: bool) -> Seq<
    Seq<char>,
>
    decreases ids.len(),
{
    if ids.len() == 0 || since.len() != ids.len() {
        Seq::empty()
    } else {
        let rest = sorted_out(ids.drop_last(), since.drop_last(), now, overdue);
        if late(since.last(), now) == overdue {
            rest.push(ids.last())
        } else {
            rest
        }
    }
}

/// What is sorted out of a list of requests is in the list, and holds no
/// request twice if the list holds none twice.
proof fn sorted_out_keeps(ids: Seq<Seq<char>>, since: Seq<int>, now: int, overdue: bool)
    ensures
        forall|id: Seq<char>| #[trigger]
            sorted_out(ids, since, now, overdue).contains(id) ==> ids.contains(id),
        ids.no_duplicates() ==> sorted_out(ids, since, now, overdue).no_duplicates(),
    decreases ids.len(),
{
    if ids.len() > 0 && since.len() == ids.len() {
        let front = ids.drop_last();
        let rest = sorted_out(front, since.drop_last(), now, overdue);
        sorted_out_keeps(front, since.drop_last(), now, overdue);
        assert forall|id: Seq<char>| #[trigger]
            sorted_out(ids, since, now, overdue).contains(id) implies ids.contains(id) by {
            let i = choose|i: int|
                0 <= i < sorted_out(ids, since, now, overdue).len() && sorted_out(
                    ids,
                    since,
                    now,
                    overdue,
                )[i] == id;
            if i < rest.len() {
                assert(rest.contains(rest[i]));
                let j = choose|j: int| 0 <= j < front.len() && front[j] == id;
                assert(ids[j] == id);
            } else {
                assert(ids[ids.len() - 1] == id);
            }
        }
        if ids.no_duplicates() {
            assert(front.no_duplicates()) by {
                assert forall|i: int, j: int| 0 <= i < front.len() && 0 <= j < front.len() && i
                    != j implies front[i] != front[j] by {
                    assert(front[i] == ids[i] && front[j] == ids[j]);
                }
            }
            if late(since.last(), now) == overdue {
                assert(!rest.contains(ids.last())) by {
                    if rest.contains(ids.last()) {
                        let j = choose|j: int| 0 <= j < front.len() && front[j] == ids.last();
                        assert(ids[j] == ids[ids.len() - 1]);
                    }
                }
                push_keeps(rest, ids.last());
            }
        }
    }
}

/// What the requests of a session hold: the identifiers of those that
/// wait, the moments at which they went out, and all identifiers that
/// were ever used.
pub struct Waiting {
    pub pending: Seq<Seq<char>>,
    pub since: Seq<int>,
    pub used: Seq<Seq<char>>,
}

impl Waiting {
    /// The requests once one goes out under `id` at the moment `now`: it
    /// waits behind the others, unless the identifier was used before.
    pub open spec fn register(self, id: Seq<char>, now: int) -> Waiting {
        if self.used.contains(id) {
            self
        } else {
            Waiting {
                pending: self.pending.push(id),
                since: self.since.push(now),
                used: self.used.push(id),
            }
        }
    }
}

/// The requests of a session: the identifiers of those that wait, with
/// the moments at which they went out, and all identifiers that were ever
/// used.
pub struct PendingIqs {
    pending: Vec<String>,
    since: Vec<i64>,
    used: Vec<String>,
}

impl PendingIqs {
    /// The identifiers of the requests that wait for their answer, in the
    /// order in which they went out.
    pub closed spec fn pending(&self) -> Seq<Seq<char>> {
        texts(self.pending@)
    }

    /// The moments at which the requests that wait went out, in seconds
    /// since the epoch.
    pub closed spec fn since(&self) -> Seq<int> {
        self.since@.map_values(|moment: i64| moment as int)
    }

    /// The identifiers of all requests that went out in this session.
    pub closed spec fn used(&self) -> Seq<Seq<char>> {
        texts(self.used@)
    }

    /// What the requests hold.
    pub open spec fn model(&self) -> Waiting {
        Waiting { pending: self.pending(), since: self.since(), used: self.used() }
    }

    /// No identifier was used twice, what waits went out before, and
    /// every request that waits has its moment.
    pub open spec fn wf(&self) -> bool {
        &&& self.used().no_duplicates()
        &&& self.pending().no_duplicates()
        &&& self.since().len() == self.pending().len()
        &&& forall|i: int|
            0 <= i < self.pending().len() ==> self.used().contains(#[trigger] self.pending()[i])
    }

    /// A session in which no request went out yet.
    pub fn new() -> (iqs: PendingIqs)
        ensures
            iqs.wf(),
            iqs.pending() == Seq::<Seq<char>>::empty(),
            iqs.since() == Seq::<int>::empty(),
            iqs.used() == Seq::<Seq<char>>::empty(),
    {
        let iqs = PendingIqs { pending: Vec::new(), since: Vec::new(), used: Vec::new() };
        proof {
            assert(texts(iqs.pending@) =~= Seq::<Seq<char>>::empty());
            assert(texts(iqs.used@) =~= Seq::<Seq<char>>::empty());
            assert(iqs.since() =~= Seq::<int>::empty());
        }
        iqs
    }

    /// Takes note of a request that goes out under `id` at the moment
    /// `now`. An identifier that was used before in this session is
    /// refused, and nothing changes.
    pub fn register(&mut self, id: &str, now: i64) -> (fresh: bool)
        requires
            old(self).wf(),
        ensures
            final(self).wf(),
            fresh == !old(self).used().contains(id@),
            final(self).model() == old(self).model().register(id@, now as int),
    {
        if holds(&self.used, id) {
            false
        } else {
            self.used.push(id.to_owned());
            self.pending.push(id.to_owned());
            self.since.push(now);
            proof {
                assert(texts(self.used@) =~= texts(old(self).used@).push(id@));
                assert(texts(self.pending@) =~= texts(old(self).pending@).push(id@));
                assert(self.since() =~= old(self).since().push(now as int));
                assert(!old(self).pending().contains(id@)) by {
                    if old(self).pending().contains(id@) {
                        let i = choose|i: int|
                            0 <= i < old(self).pending().len() && old(self).pending()[i] == id@;
                        assert(old(self).used().contains(old(self).pending()[i]));
                    }
                }
                push_keeps(old(self).used(), id@);
                push_keeps(old(self).pending(), id@);
                assert forall|i: int| 0 <= i < self.pending().len() implies self.used().contains(
                    #[trigger] self.pending()[i],
                ) by {
                    if i < old(self).pending().len() {
                        let id0 = old(self).pending()[i];
                        assert(old(self).used().contains(id0));
                        let j = choose|j: int|
                            0 <= j < old(self).used().len() && old(self).used()[j] == id0;
                        assert(self.used()[j] == id0);
                    } else {
                        assert(self.used()[self.used().len() - 1] == id@);
                    }
                }
            }
            true
        }
    }

    /// Settles the request that went out under `id`, now that its answer
    /// is there: it waits no longer. The result tells whether it waited;
    /// an answer to nothing that waits changes nothing.
    pub fn resolve(&mut self, id: &str) -> (waited: bool)
        requires
            old(self).wf(),
        ensures
            final(self).wf(),
            waited == old(self).pending().contains(id@),
            final(self).pending() == without(old(self).pending(), id@),
            final(self).since() == stamps_without(old(self).pending(), old(self).since(), id@),
            !final(self).pending().contains(id@),
            final(self).used() == old(self).used(),
    {
        let wanted = id.to_owned();
        let ghost all = texts(self.pending@);
        let ghost stamps = self.since();
        let mut kept: Vec<String> = Vec::new();
        let mut kept_since: Vec<i64> = Vec::new();
        let mut waited = false;
        let mut i: usize = 0;
        proof {
            assert(all.subrange(0, 0) =~= Seq::<Seq<char>>::empty());
            assert(texts(kept@) =~= Seq::<Seq<char>>::empty());
            assert(kept_since@.map_values(|moment: i64| moment as int) =~= Seq::<int>::empty());
        }
        while i < self.pending.len()
            invariant
                i <= self.pending@.len(),
                wanted@ == id@,
                *self == *old(self),
                all == texts(self.pending@),
                stamps == self.since(),
                stamps.len() == all.len(),
                kept@.len() == kept_since@.len(),
                texts(kept@) == without(all.subrange(0, i as int), id@),
                kept_since@.map_values(|moment: i64| moment as int) == stamps_without(
                    all.subrange(0, i as int),
                    stamps.subrange(0, i as int),
                    id@,
                ),
                waited == all.subrange(0, i as int).contains(id@),
            decreases self.pending.len() - i,
        {
            proof {
                let upto = all.subrange(0, i as int);
                let next = all.subrange(0, i + 1);
                assert(next =~= upto.push(all[i as int]));
                assert(next.drop_last() =~= upto);
                assert(stamps.subrange(0, i + 1).drop_last() =~= stamps.subrange(0, i as int));
                assert(stamps.subrange(0, i + 1).last() == self.since@[i as int] as int);
                reveal(Seq::filter);
                if upto.contains(id@) {
                    let j = choose|j: int| 0 <= j < upto.len() && upto[j] == id@;
                    assert(next[j] == id@);
                }
                if next.contains(id@) && all[i as int] != id@ {
                    let j = choose|j: int| 0 <= j < next.len() && next[j] == id@;
                    assert(upto[j] == id@);
                }
                if all[i as int] == id@ {
                    assert(next[i as int] == id@);
                }
            }
            if self.pending[i] == wanted {
                waited = true;
            } else {
                let ghost before = kept@;
                let ghost before_since = kept_since@;
                kept.push(self.pending[i].clone());
                kept_since.push(self.since[i]);
                proof {
                    assert(texts(kept@) =~= texts(before).push(all[i as int]));
                    assert(kept_since@.map_values(|moment: i64| moment as int)
                        =~= before_since.map_values(|moment: i64| moment as int).push(
                        self.since@[i as int] as int,
                    ));
                }
            }
            i = i + 1;
        }
        proof {
            assert(all.subrange(0, i as int) =~= all);
            assert(stamps.subrange(0, i as int) =~= stamps);
            without_keeps(all, id@);
        }
        self.pending = kept;
        self.since = kept_since;
        proof {
            assert forall|k: int| 0 <= k < self.pending().len() implies self.used().contains(
                #[trigger] self.pending()[k],
            ) by {
                let waiting = self.pending()[k];
                assert(without(all, id@).contains(waiting));
                without_holds(all, id@, waiting);
                let j = choose|j: int| 0 <= j < all.len() && all[j] == waiting;
                assert(old(self).used().contains(old(self).pending()[j]));
            }
        }
        waited
    }

    /// Gives up the requests that have waited too long at the moment
    /// `now`, and hands their identifiers over, in the order in which the
    /// requests went out. The others wait on.
    pub fn expire(&mut self, now: i64) -> (given_up: Vec<String>)
        requires
            old(self).wf(),
        ensures
            final(self).wf(),
            texts(given_up@) == sorted_out(old(self).pending(), old(self).since(), now as int, true),
            final(self).pending() == sorted_out(
                old(self).pending(),
                old(self).since(),
                now as int,
                false,
            ),
            final(self).since() == old(self).since().filter(in_time(now as int)),
            final(self).used() == old(self).used(),
    {
        let ghost all = texts(self.pending@);
        let ghost stamps = self.since();
        let mut given_up: Vec<String> = Vec::new();
        let mut kept: Vec<String> = Vec::new();
        let mut kept_since: Vec<i64> = Vec::new();
        let mut i: usize = 0;
        proof {
            reveal(Seq::filter);
            assert(all.subrange(0, 0) =~= Seq::<Seq<char>>::empty());
            assert(stamps.subrange(0, 0) =~= Seq::<int>::empty());
            assert(texts(kept@) =~= Seq::<Seq<char>>::empty());
            assert(texts(given_up@) =~= Seq::<Seq<char>>::empty());
            assert(kept_since@.map_values(|moment: i64| moment as int) =~= Seq::<int>::empty());
        }
        while i < self.pending.len()
            invariant
                i <= self.pending@.len(),
                *self == *old(self),
                all == texts(self.pending@),
                stamps == self.since(),
                stamps.len() == all.len(),
                kept@.len() == kept_since@.len(),
                texts(given_up@) == sorted_out(
                    all.subrange(0, i as int),
                    stamps.subrange(0, i as int),
                    now as int,
                    true,
                ),
                texts(kept@) == sorted_out(
                    all.subrange(0, i as int),
                    stamps.subrange(0, i as int),
                    now as int,
                    false,
                ),
                kept_since@.map_values(|moment: i64| moment as int) == stamps.subrange(
                    0,
                    i as int,
                ).filter(in_time(now as int)),
            decreases self.pending.len() - i,
        {
            proof {
                assert(all.subrange(0, i + 1).drop_last() =~= all.subrange(0, i as int));
                assert(all.subrange(0, i + 1).last() == all[i as int]);
                assert(stamps.subrange(0, i + 1).drop_last() =~= stamps.subrange(0, i as int));
                assert(stamps.subrange(0, i + 1).last() == self.since@[i as int] as int);
                reveal(Seq::filter);
            }
            let moment = self.since[i];
            if moment as i128 + 30 <= now as i128 {
                let ghost before = given_up@;
                given_up.push(self.pending[i].clone());
                proof {
                    assert(texts(given_up@) =~= texts(before).push(all[i as int]));
                }
            } else {
                let ghost before = kept@;
                let ghost before_since = kept_since@;
                kept.push(self.pending[i].clone());
                kept_since.push(moment);
                proof {
                    assert(texts(kept@) =~= texts(before).push(all[i as int]));
                    assert(kept_since@.map_values(|moment: i64| moment as int)
                        =~= before_since.map_values(|moment: i64| moment as int).push(
                        moment as int,
                    ));
                }
            }
            i = i + 1;
        }
        proof {
            assert(all.subrange(0, i as int) =~= all);
            assert(stamps.subrange(0, i as int) =~= stamps);
            sorted_out_keeps(all, stamps, now as int, false);
        }
        self.pending = kept;
        self.since = kept_since;
        proof {
            assert forall|k: int| 0 <= k < self.pending().len() implies self.used().contains(
                #[trigger] self.pending()[k],
            ) by {
                let waiting = self.pending()[k];
                assert(sorted_out(all, stamps, now as int, false).contains(waiting));
                let j = choose|j: int| 0 <= j < all.len() && all[j] == waiting;
                assert(old(self).used().contains(old(self).pending()[j]));
            }
        }
        given_up
    }

    /// Gives up every request that still waits, now that the connection
    /// is lost, and hands their identifiers over, in the order in which
    /// the requests went out. Nothing waits afterwards.
    pub fn cancel_all(&mut self) -> (given_up: Vec<String>)
        requires
            old(self).wf(),
        ensures
            final(self).wf(),
            texts(given_up@) == old(self).pending(),
            final(self).pending() == Seq::<Seq<char>>::empty(),
            final(self).since() == Seq::<int>::empty(),
            final(self).used() == old(self).used(),
    {
        let mut given_up: Vec<String> = Vec::new();
        std::mem::swap(&mut given_up, &mut self.pending);
        self.since = Vec::new();
        proof {
            assert(texts(self.pending@) =~= Seq::<Seq<char>>::empty());
            assert(self.since() =~= Seq::<int>::empty());
        }
        given_up
    }

    /// Whether a request waits under `id`.
    pub fn is_pending(&self, id: &str) -> (waits: bool)
        ensures
            waits == self.pending().contains(id@),
    {
        holds(&self.pending, id)
    }
}

/// A request is settled once: after its answer has settled it, no second
/// answer finds it waiting.
pub proof fn settled_once(pending: Seq<Seq<char>>, id: Seq<char>)
    requires
        pending.no_duplicates(),
    ensures
        !without(pending, id).contains(id),
        without(without(pending, id), id) == without(pending, id),
{
    without_keeps(pending, id);
    without_keeps(without(pending, id), id);
}

/// No identifier is used twice in a session: a request under an
/// identifier that was used before changes nothing, and any other leaves
/// the identifiers that were used different from each other.
pub proof fn never_reused(waiting: Waiting, id: Seq<char>, now: int)
    requires
        waiting.used.no_duplicates(),
    ensures
        waiting.register(id, now).used.no_duplicates(),
        waiting.used.contains(id) ==> waiting.register(id, now) == waiting,
{
    if !waiting.used.contains(id) {
        push_keeps(waiting.used, id);
    }
}

/// A request either has waited too long or waits on, never both: what is
/// given up at a moment and what waits on afterwards share no request,
/// and together they are the requests that waited.
pub proof fn given_up_or_waiting(ids: Seq<Seq<char>>, since: Seq<int>, now: int, id: Seq<char>)
    requires
        ids.no_duplicates(),
        since.len() == ids.len(),
    ensures
        ids.contains(id) <==> (sorted_out(ids, since, now, true).contains(id) || sorted_out(
            ids,
            since,
            now,
            false,
        ).contains(id)),
        !(sorted_out(ids, since, now, true).contains(id) && sorted_out(
            ids,
            since,
            now,
            false,
        ).contains(id)),
    decreases ids.len(),
{
    let gone = sorted_out(ids, since, now, true);
    let stay = sorted_out(ids, since, now, false);
    if ids.len() > 0 {
        let front = ids.drop_last();
        let front_gone = sorted_out(front, since.drop_last(), now, true);
        let front_stay = sorted_out(front, since.drop_last(), now, false);
        assert(front.no_duplicates()) by {
            assert forall|i: int, j: int| 0 <= i < front.len() && 0 <= j < front.len() && i
                != j implies front[i] != front[j] by {
                assert(front[i] == ids[i] && front[j] == ids[j]);
            }
        }
        given_up_or_waiting(front, since.drop_last(), now, id);
        sorted_out_keeps(front, since.drop_last(), now, true);
        sorted_out_keeps(front, since.drop_last(), now, false);
        assert(ids.contains(id) <==> (front.contains(id) || ids.last() == id)) by {
            if ids.contains(id) {
                let i = choose|i: int| 0 <= i < ids.len() && ids[i] == id;
                if i < front.len() {
                    assert(front[i] == id);
                }
            }
            if front.contains(id) {
                let i = choose|i: int| 0 <= i < front.len() && front[i] == id;
                assert(ids[i] == id);
            }
            if ids.last() == id {
                assert(ids[ids.len() - 1] == id);
            }
        }
        assert(!(front.contains(id) && ids.last() == id)) by {
            if front.contains(id) && ids.last() == id {
                let i = choose|i: int| 0 <= i < front.len() && front[i] == id;
                assert(ids[i] == ids[ids.len() - 1]);
            }
        }
        pushed_holds(front_gone, ids.last(), id);
        pushed_holds(front_stay, ids.last(), id);
    }
}

/// A list with one more entry holds what it held and that entry.
proof fn pushed_holds(list: Seq<Seq<char>>, more: Seq<char>, id: Seq<char>)
    ensures
        list.push(more).contains(id) <==> (list.contains(id) || more == id),
{
    if list.push(more).contains(id) {
        let i = choose|i: int| 0 <= i < list.push(more).len() && list.push(more)[i] == id;
        if i < list.len() {
            assert(list[i] == id);
        }
    }
    if list.contains(id) {
        let i = choose|i: int| 0 <= i < list.len() && list[i] == id;
        assert(list.push(more)[i] == id);
    }
    if more == id {
        assert(list.push(more)[list.len() as int] == id);
    }
}

} // verus!
