use vstd::prelude::*;
use crate::countdown::Countdown;
use crate::money::Money;
use crate::movement::Position;

verus! {

/// What a pig costs to buy.
pub const PIG_COST: i64 = 10;

/// What a pig sells for when its lifetime runs out.
pub const PIG_SALE_PRICE: i64 = 20;

/// How long a pig lives, in nanoseconds (one second).
pub const PIG_LIFETIME_NANOS: u64 = 1_000_000_000;

/// A pig's own state: the countdown to its sale.
#[derive(Clone, Copy, Debug, PartialEq, Eq, Structural)]
pub struct Pig {
    pub lifetime: Countdown,
}

/// A pig that lives on the farm: its identifier, where it was placed, and
/// its state.
#[derive(Clone, Copy, Debug, PartialEq, Eq, Structural)]
pub struct LivePig {
    pub id: u64,
    pub position: Position,
    pub pig: Pig,
}

/// The container that groups the live pigs: the identifiers of its members.
#[derive(Clone, Debug)]
pub struct PigParent {
    pub children: Vec<u64>,
}

/// The shared game state that spawning and selling act on: the balance, the
/// live pigs in order of purchase, the container, and the next identifier.
#[derive(Clone, Debug)]
pub struct Farm {
    pub money: Money,
    pub parent: PigParent,
    pub pigs: Vec<LivePig>,
    pub next_id: u64,
}

/// The identifiers of `pigs`, in order.
pub open spec fn ids(pigs: Seq<LivePig>) -> Seq<u64> {
    pigs.map_values(|p: LivePig| p.id)
}

/// Identifiers strictly increase along `pigs`, so none occurs twice.
pub open spec fn ids_increasing(pigs: Seq<LivePig>) -> bool {
    forall|i: int, j: int| 0 <= i < j < pigs.len() ==> pigs[i].id < pigs[j].id
}

/// Balance after one spawn attempt.
pub open spec fn spawn_balance(balance: int, pressed: bool) -> int {
    if pressed && balance >= PIG_COST {
        balance - PIG_COST
    } else {
        balance
    }
}

/// A pig whose countdown reaches its duration within the next `delta`
/// nanoseconds.
pub open spec fn expires(p: LivePig, delta: nat) -> bool {
    p.pig.lifetime.ticked(delta).is_finished()
}

/// `p` after `delta` more nanoseconds.
pub open spec fn aged(p: LivePig, delta: nat) -> LivePig {
    LivePig { pig: Pig { lifetime: p.pig.lifetime.ticked(delta) }, ..p }
}

/// The pigs that outlive a sweep of `delta` nanoseconds, aged, in order.
pub open spec fn survivors(pigs: Seq<LivePig>, delta: nat) -> Seq<LivePig>
    decreases pigs.len(),
{
    if pigs.len() == 0 {
        Seq::empty()
    } else {
        let rest = survivors(pigs.drop_last(), delta);
        if expires(pigs.last(), delta) {
            rest
        } else {
            rest.push(aged(pigs.last(), delta))
        }
    }
}

/// The identifiers of the pigs that a sweep of `delta` nanoseconds sells,
/// in order.
pub open spec fn sold_ids(pigs: Seq<LivePig>, delta: nat) -> Seq<u64>
    decreases pigs.len(),
{
    if pigs.len() == 0 {
        Seq::empty()
    } else {
        let rest = sold_ids(pigs.drop_last(), delta);
        if expires(pigs.last(), delta) {
            rest.push(pigs.last().id)
        } else {
            rest
        }
    }
}

/// A sweep splits the pigs between those it sells and those it keeps.
pub proof fn lemma_sweep_lengths(pigs: Seq<LivePig>, delta: nat)
    ensures
        sold_ids(pigs, delta).len() + survivors(pigs, delta).len() == pigs.len(),
    decreases pigs.len(),
{
    if pigs.len() > 0 {
        lemma_sweep_lengths(pigs.drop_last(), delta);
    }
}

/// Each pig that a sweep keeps is one of the pigs before it, aged, whose
/// countdown has not run out; the order of identifiers is kept.
pub proof fn lemma_survivors_come_from(pigs: Seq<LivePig>, delta: nat)
    ensures
        forall|k: int|
            0 <= k < survivors(pigs, delta).len() ==> exists|j: int|
                0 <= j < pigs.len() && #[trigger] survivors(pigs, delta)[k] == aged(pigs[j], delta)
                    && !expires(pigs[j], delta),
        ids_increasing(pigs) ==> ids_increasing(survivors(pigs, delta)),
    decreases pigs.len(),
{
    if pigs.len() > 0 {
        let init = pigs.drop_last();
        lemma_survivors_come_from(init, delta);
        let rest = survivors(init, delta);
        let s = survivors(pigs, delta);
        assert forall|k: int| 0 <= k < s.len() implies exists|j: int|
            0 <= j < pigs.len() && #[trigger] s[k] == aged(pigs[j], delta) && !expires(
                pigs[j],
                delta,
            ) by {
            if k < rest.len() {
                let j = choose|j: int|
                    0 <= j < init.len() && #[trigger] rest[k] == aged(init[j], delta) && !expires(
                        init[j],
                        delta,
                    );
                assert(pigs[j] == init[j]);
            } else {
                assert(pigs[pigs.len() - 1] == pigs.last());
            }
        }
        if ids_increasing(pigs) {
            assert forall|a: int, b: int| 0 <= a < b < s.len() implies s[a].id < s[b].id by {
                if b == rest.len() {
                    let j = choose|j: int|
                        0 <= j < init.len() && #[trigger] rest[a] == aged(init[j], delta)
                            && !expires(init[j], delta);
                    assert(pigs[j] == init[j]);
                    assert(pigs[pigs.len() - 1] == pigs.last());
                }
            }
        }
    }
}

/// Balance after a run of spawn attempts, one per frame, `presses[i]` telling
/// whether the spawn key was freshly pressed in frame `i`.
pub open spec fn balance_after_spawns(balance: int, presses: Seq<bool>) -> int
    decreases presses.len(),
{
    if presses.len() == 0 {
        balance
    } else {
        spawn_balance(balance_after_spawns(balance, presses.drop_last()), presses.last())
    }
}

/// Spawning never overdraws: from a balance that is not negative, any run of
/// spawn attempts leaves a balance that is not negative.
pub proof fn lemma_spawning_never_overdraws(balance: int, presses: Seq<bool>)
    requires
        balance >= 0,
    ensures
        balance_after_spawns(balance, presses) >= 0,
    decreases presses.len(),
{
    if presses.len() > 0 {
        lemma_spawning_never_overdraws(balance, presses.drop_last());
    }
}

/// The identifiers that a sweep sells are those of the pigs whose countdown
/// runs out, each listed once, in order.
proof fn lemma_sold_ids(pigs: Seq<LivePig>, delta: nat)
    ensures
        forall|a: int|
            0 <= a < sold_ids(pigs, delta).len() ==> exists|j: int|
                0 <= j < pigs.len() && #[trigger] sold_ids(pigs, delta)[a] == pigs[j].id
                    && expires(pigs[j], delta),
        forall|j: int|
            0 <= j < pigs.len() && expires(#[trigger] pigs[j], delta) ==> sold_ids(
                pigs,
                delta,
            ).contains(pigs[j].id),
        ids_increasing(pigs) ==> forall|a: int, b: int|
            0 <= a < b < sold_ids(pigs, delta).len() ==> sold_ids(pigs, delta)[a] < sold_ids(
                pigs,
                delta,
            )[b],
    decreases pigs.len(),
{
    if pigs.len() > 0 {
        let init = pigs.drop_last();
        lemma_sold_ids(init, delta);
        let rest = sold_ids(init, delta);
        let s = sold_ids(pigs, delta);
        let last = pigs.len() - 1;
        assert(pigs[last] == pigs.last());
        assert forall|a: int| 0 <= a < s.len() implies exists|j: int|
            0 <= j < pigs.len() && #[trigger] s[a] == pigs[j].id && expires(pigs[j], delta) by {
            if a < rest.len() {
                let j = choose|j: int|
                    0 <= j < init.len() && #[trigger] rest[a] == init[j].id && expires(
                        init[j],
                        delta,
                    );
                assert(pigs[j] == init[j]);
            }
        }
        assert forall|j: int| 0 <= j < pigs.len() && expires(#[trigger] pigs[j], delta) implies s.contains(
            pigs[j].id,
        ) by {
            if j < last {
                assert(init[j] == pigs[j]);
                let a = choose|a: int| 0 <= a < rest.len() && rest[a] == init[j].id;
                assert(s[a] == rest[a]);
            } else {
                assert(s[s.len() - 1] == pigs[j].id);
            }
        }
        if ids_increasing(pigs) {
            assert forall|a: int, b: int| 0 <= a < b < s.len() implies s[a] < s[b] by {
                if b == rest.len() {
                    let j = choose|j: int|
                        0 <= j < init.len() && #[trigger] rest[a] == init[j].id && expires(
                            init[j],
                            delta,
                        );
                    assert(pigs[j] == init[j]);
                }
            }
        }
    }
}

/// Every pig that a sweep does not sell is kept, aged.
proof fn lemma_survivors_complete(pigs: Seq<LivePig>, delta: nat)
    ensures
        forall|j: int|
            0 <= j < pigs.len() && !expires(#[trigger] pigs[j], delta) ==> survivors(
                pigs,
                delta,
            ).contains(aged(pigs[j], delta)),
    decreases pigs.len(),
{
    if pigs.len() > 0 {
        let init = pigs.drop_last();
        lemma_survivors_complete(init, delta);
        let rest = survivors(init, delta);
        let s = survivors(pigs, delta);
        let last = pigs.len() - 1;
        assert(pigs[last] == pigs.last());
        assert forall|j: int| 0 <= j < pigs.len() && !expires(#[trigger] pigs[j], delta) implies s.contains(
            aged(pigs[j], delta),
        ) by {
            if j < last {
                assert(init[j] == pigs[j]);
                let a = choose|a: int| 0 <= a < rest.len() && rest[a] == aged(init[j], delta);
                assert(s[a] == rest[a]);
            } else {
                assert(s[s.len() - 1] == aged(pigs[j], delta));
            }
        }
    }
}

/// In a sweep, a pig whose countdown runs out is sold exactly once (its
/// identifier occurs once among those sold, so the balance is credited for
/// it once) and leaves the container in that same sweep; a pig whose
/// countdown keeps running is neither sold nor removed.
pub proof fn lemma_expired_pig_sold_once(farm: Farm, delta: u64, k: int)
    requires
        farm.wf(),
        0 <= k < farm.pigs@.len(),
    ensures
        sold_ids(farm.pigs@, delta as nat).no_duplicates(),
        expires(farm.pigs@[k], delta as nat) ==> {
            &&& sold_ids(farm.pigs@, delta as nat).contains(farm.pigs@[k].id)
            &&& !ids(survivors(farm.pigs@, delta as nat)).contains(farm.pigs@[k].id)
        },
        !expires(farm.pigs@[k], delta as nat) ==> {
            &&& !sold_ids(farm.pigs@, delta as nat).contains(farm.pigs@[k].id)
            &&& survivors(farm.pigs@, delta as nat).contains(aged(farm.pigs@[k], delta as nat))
        },
{
    let pigs = farm.pigs@;
    let d = delta as nat;
    lemma_sold_ids(pigs, d);
    lemma_survivors_come_from(pigs, d);
    lemma_survivors_complete(pigs, d);
    let sold = sold_ids(pigs, d);
    let surv = survivors(pigs, d);
    let id = pigs[k].id;
    assert forall|a: int, b: int| 0 <= a < sold.len() && 0 <= b < sold.len() && a != b implies sold[a]
        != sold[b] by {
        if a < b {
            assert(sold[a] < sold[b]);
        } else {
            assert(sold[b] < sold[a]);
        }
    }
    if expires(pigs[k], d) {
        if ids(surv).contains(id) {
            let m = choose|m: int| 0 <= m < ids(surv).len() && ids(surv)[m] == id;
            let j = choose|j: int|
                0 <= j < pigs.len() && #[trigger] surv[m] == aged(pigs[j], d) && !expires(
                    pigs[j],
                    d,
                );
            assert(pigs[j].id == id);
            assert(j == k);
        }
    } else {
        if sold.contains(id) {
            let a = choose|a: int| 0 <= a < sold.len() && sold[a] == id;
            let j = choose|j: int|
                0 <= j < pigs.len() && #[trigger] sold[a] == pigs[j].id && expires(pigs[j], d);
            assert(j == k);
        }
    }
}

/// A pig sold in one sweep is gone for good: it is not in the container
/// afterwards, and no later sweep sells it again.
pub proof fn lemma_sold_pig_never_returns(farm: Farm, first: u64, second: u64, id: u64)
    requires
        farm.wf(),
        sold_ids(farm.pigs@, first as nat).contains(id),
    ensures
        !ids(survivors(farm.pigs@, first as nat)).contains(id),
        !sold_ids(survivors(farm.pigs@, first as nat), second as nat).contains(id),
{
    let pigs = farm.pigs@;
    let d = first as nat;
    lemma_sold_ids(pigs, d);
    let sold = sold_ids(pigs, d);
    let a = choose|a: int| 0 <= a < sold.len() && sold[a] == id;
    let k = choose|k: int| 0 <= k < pigs.len() && #[trigger] sold[a] == pigs[k].id && expires(pigs[k], d);
    lemma_expired_pig_sold_once(farm, first, k);
    let surv = survivors(pigs, d);
    lemma_survivors_come_from(pigs, d);
    lemma_sold_ids(surv, second as nat);
    let later = sold_ids(surv, second as nat);
    if later.contains(id) {
        let b = choose|b: int| 0 <= b < later.len() && later[b] == id;
        let m = choose|m: int|
            0 <= m < surv.len() && #[trigger] later[b] == surv[m].id && expires(surv[m], second as nat);
        assert(ids(surv)[m] == id);
    }
}

impl Farm {
    /// The container lists exactly the live pigs, identifiers are unique and
    /// below `next_id`, and every live pig's countdown is still running.
    pub open spec fn wf(&self) -> bool {
        &&& self.parent.children@ == ids(self.pigs@)
        &&& ids_increasing(self.pigs@)
        &&& forall|i: int|
            0 <= i < self.pigs@.len() ==> {
                &&& #[trigger] self.pigs@[i].id < self.next_id
                &&& self.pigs@[i].pig.lifetime.wf()
                &&& !self.pigs@[i].pig.lifetime.is_finished()
            }
    }

    /// A pig as spawning creates it at `at` under identifier `id`.
    pub open spec fn new_pig(id: u64, at: Position) -> LivePig {
        LivePig {
            id,
            position: at,
            pig: Pig { lifetime: Countdown { elapsed: 0, duration: PIG_LIFETIME_NANOS } },
        }
    }

    /// A new game: the starting balance, an empty container and no pigs.
    pub fn new() -> (r: Farm)
        ensures
            r.wf(),
            r.money.0 == crate::money::STARTING_MONEY,
            r.pigs@.len() == 0,
            r.parent.children@.len() == 0,
            r.next_id == 0,
    {
        let farm = Farm {
            money: Money::default(),
            parent: PigParent { children: Vec::new() },
            pigs: Vec::new(),
            next_id: 0,
        };
        proof {
            assert(ids(farm.pigs@) =~= farm.parent.children@);
        }
        farm
    }

    /// Handles one frame's spawn input: on a fresh press of the spawn key,
    /// and only if the balance covers the cost, pays for a pig and places it
    /// at `at` under the container. Returns the new pig's identifier, or
    /// `None` when nothing happened.
    pub fn spawn_pig(&mut self, just_pressed: bool, at: &Position) -> (r: Option<u64>)
        requires
            old(self).wf(),
            old(self).next_id < u64::MAX,
        ensures
            final(self).wf(),
            r is Some <==> just_pressed && old(self).money.0 >= PIG_COST,
            final(self).money.0 == spawn_balance(old(self).money.0 as int, just_pressed),
            r is Some ==> final(self).money.0 >= 0,
            r is Some ==> {
                &&& r->0 == old(self).next_id
                &&& final(self).pigs@ == old(self).pigs@.push(Farm::new_pig(r->0, *at))
                &&& final(self).parent.children@ == old(self).parent.children@.push(r->0)
                &&& final(self).next_id == old(self).next_id + 1
            },
            r is None ==> *final(self) == *old(self),
    {
        if !just_pressed {
            return None;
        }
        if self.money.0 < PIG_COST {
            return None;
        }
        self.money.0 = self.money.0 - PIG_COST;
        let id = self.next_id;
        let pig = LivePig {
            id,
            position: *at,
            pig: Pig { lifetime: Countdown::once(PIG_LIFETIME_NANOS) },
        };
        self.pigs.push(pig);
        self.parent.children.push(id);
        self.next_id = id + 1;
        proof {
            assert(ids(self.pigs@) =~= ids(old(self).pigs@).push(id));
        }
        Some(id)
    }

    /// Sweeps the pigs for one frame of `delta_nanos` nanoseconds: every
    /// countdown advances; each pig whose countdown runs out is sold for
    /// `PIG_SALE_PRICE`, leaves the container and is removed. Returns the
    /// identifiers of the pigs sold, in order of purchase.
    pub fn pig_lifetime(&mut self, delta_nanos: u64) -> (sold: Vec<u64>)
        requires
            old(self).wf(),
            old(self).money.0 + PIG_SALE_PRICE * old(self).pigs@.len() <= i64::MAX,
        ensures
            final(self).wf(),
            sold@ == sold_ids(old(self).pigs@, delta_nanos as nat),
            final(self).pigs@ == survivors(old(self).pigs@, delta_nanos as nat),
            final(self).parent.children@ == ids(final(self).pigs@),
            final(self).money.0 == old(self).money.0 + PIG_SALE_PRICE * sold@.len(),
            final(self).next_id == old(self).next_id,
    {
        let ghost old_pigs = self.pigs@;
        let ghost delta = delta_nanos as nat;
        let mut kept: Vec<LivePig> = Vec::new();
        let mut children: Vec<u64> = Vec::new();
        let mut sold: Vec<u64> = Vec::new();
        let n = self.pigs.len();
        let mut i: usize = 0;
        proof {
            assert(old_pigs.take(0) =~= Seq::<LivePig>::empty());
            assert forall|k: int| 0 <= k < n implies (#[trigger] old_pigs[k]).pig.lifetime.wf() by {
                assert(old_pigs[k].id < old(self).next_id);
            }
        }
        while i < n
            invariant
                self.pigs@ == old_pigs,
                delta == delta_nanos as nat,
                old_pigs == old(self).pigs@,
                self.next_id == old(self).next_id,
                n == old_pigs.len(),
                0 <= i <= n,
                old(self).money.0 + PIG_SALE_PRICE * n <= i64::MAX,
                self.money.0 == old(self).money.0 + PIG_SALE_PRICE * sold@.len(),
                kept@ == survivors(old_pigs.take(i as int), delta),
                sold@ == sold_ids(old_pigs.take(i as int), delta),
                children@ == ids(kept@),
                forall|k: int| 0 <= k < n ==> (#[trigger] old_pigs[k]).pig.lifetime.wf(),
            decreases n - i,
        {
            proof {
                lemma_sweep_lengths(old_pigs.take(i as int), delta);
                assert(old_pigs.take(i + 1).drop_last() =~= old_pigs.take(i as int));
                assert(old_pigs.take(i + 1).last() == old_pigs[i as int]);
            }
            let mut p = self.pigs[i];
            p.pig.lifetime.tick(delta_nanos);
            if p.pig.lifetime.finished() {
                self.money.0 = self.money.0 + PIG_SALE_PRICE;
                sold.push(p.id);
            } else {
                let ghost before = kept@;
                kept.push(p);
                children.push(p.id);
                proof {
                    assert(ids(kept@) =~= ids(before).push(p.id));
                }
            }
            i = i + 1;
        }
        proof {
            assert(old_pigs.take(n as int) =~= old_pigs);
            lemma_survivors_come_from(old_pigs, delta);
        }
        self.pigs = kept;
        self.parent.children = children;
        proof {
            let s = self.pigs@;
            assert forall|k: int| 0 <= k < s.len() implies {
                &&& #[trigger] s[k].id < self.next_id
                &&& s[k].pig.lifetime.wf()
                &&& !s[k].pig.lifetime.is_finished()
            } by {
                let j = choose|j: int|
                    0 <= j < old_pigs.len() && #[trigger] survivors(old_pigs, delta)[k] == aged(
                        old_pigs[j],
                        delta,
                    ) && !expires(old_pigs[j], delta);
            }
        }
        sold
    }
}

} // verus!
