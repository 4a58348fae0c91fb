use vstd::prelude::*;
use crate::error::Error;
use crate::principal::Principal;

verus! {

/// The points that make up one tier.
pub const POINTS_PER_TIER: u32 = 100;

/// The points that a claim deducts for each tier of the claimant.
pub const REWARD_PER_TIER: u32 = 10;

/// The tier that belongs to a total: one for each full hundred, and one.
pub open spec fn tier_of(total: u32) -> u32 {
    (total / POINTS_PER_TIER + 1) as u32
}

/// The points that a claim deducts from an actor whose total is `total`.
pub open spec fn reward_of(total: u32) -> u32 {
    (tier_of(total) * REWARD_PER_TIER) as u32
}

/// The sum of a total and a contribution, held at the greatest total.
pub open spec fn raised(total: u32, delta: u32) -> u32 {
    if total + delta > u32::MAX {
        u32::MAX
    } else {
        (total + delta) as u32
    }
}

/// What is left of a total after `amount` was spent, never less than nothing.
pub open spec fn lowered(total: u32, amount: u32) -> u32 {
    if total < amount {
        0
    } else {
        (total - amount) as u32
    }
}

/// The total of `actor` in `totals`: nothing, where the actor never contributed.
pub open spec fn total_of(totals: Map<Seq<char>, u32>, actor: Seq<char>) -> u32 {
    if totals.contains_key(actor) {
        totals[actor]
    } else {
        0
    }
}

/// The totals after `actor` contributed `delta`.
pub open spec fn contributed(totals: Map<Seq<char>, u32>, actor: Seq<char>, delta: u32) -> Map<
    Seq<char>,
    u32,
> {
    totals.insert(actor, raised(total_of(totals, actor), delta))
}

/// The totals after `actor` spent `amount`.
pub open spec fn spent(totals: Map<Seq<char>, u32>, actor: Seq<char>, amount: u32) -> Map<
    Seq<char>,
    u32,
> {
    totals.insert(actor, lowered(total_of(totals, actor), amount))
}

/// The tier that belongs to a total.
pub fn tier(total: u32) -> (t: u32)
    ensures
        t == tier_of(total),
        1 <= t <= 42_949_673,
{
    total / POINTS_PER_TIER + 1
}

/// What one actor has gathered: the total of the contributions, less what was
/// spent, and the tier that belongs to that total.
#[derive(Debug, PartialEq, Eq)]
pub struct UserRewards {
    pub user: Principal,
    pub total_points: u32,
    pub tier: u32,
}

impl Clone for UserRewards {
    fn clone(&self) -> (copy: UserRewards)
        ensures
            copy == *self,
    {
        UserRewards { user: self.user.clone(), total_points: self.total_points, tier: self.tier }
    }
}

/// The totals that a run of entries stands for: each entry gives its actor's total.
pub open spec fn totals(entries: Seq<UserRewards>) -> Map<Seq<char>, u32>
    decreases entries.len(),
{
    if entries.len() == 0 {
        Map::empty()
    } else {
        totals(entries.drop_last()).insert(entries.last().user@, entries.last().total_points)
    }
}

/// No actor has two entries, and each entry carries the tier of its total.
pub open spec fn consistent(entries: Seq<UserRewards>) -> bool {
    &&& forall|i: int, j: int|
        0 <= i < j < entries.len() ==> (#[trigger] entries[i]).user@ != (#[trigger] entries[j]).user@
    &&& forall|i: int|
        0 <= i < entries.len() ==> (#[trigger] entries[i]).tier == tier_of(entries[i].total_points)
}

proof fn lemma_totals_keys(entries: Seq<UserRewards>, actor: Seq<char>)
    ensures
        totals(entries).contains_key(actor) <==> exists|i: int|
            0 <= i < entries.len() && (#[trigger] entries[i]).user@ == actor,
    decreases entries.len(),
{
    if entries.len() > 0 {
        let front = entries.drop_last();
        lemma_totals_keys(front, actor);
        if exists|i: int| 0 <= i < entries.len() && (#[trigger] entries[i]).user@ == actor {
            let i = choose|i: int| 0 <= i < entries.len() && (#[trigger] entries[i]).user@ == actor;
            if i < front.len() {
                assert(front[i].user@ == actor);
            }
        }
    }
}

proof fn lemma_consistent_front(entries: Seq<UserRewards>)
    requires
        consistent(entries),
        entries.len() > 0,
    ensures
        consistent(entries.drop_last()),
{
}

proof fn lemma_totals_at(entries: Seq<UserRewards>, i: int)
    requires
        consistent(entries),
        0 <= i < entries.len(),
    ensures
        totals(entries).contains_key(entries[i].user@),
        totals(entries)[entries[i].user@] == entries[i].total_points,
    decreases entries.len(),
{
    if i < entries.len() - 1 {
        lemma_consistent_front(entries);
        lemma_totals_at(entries.drop_last(), i);
    }
}

proof fn lemma_totals_push(entries: Seq<UserRewards>, entry: UserRewards)
    ensures
        totals(entries.push(entry)) == totals(entries).insert(entry.user@, entry.total_points),
{
    assert(entries.push(entry).drop_last() =~= entries);
}

proof fn lemma_totals_update(entries: Seq<UserRewards>, i: int, entry: UserRewards)
    requires
        consistent(entries),
        0 <= i < entries.len(),
        entry.user@ == entries[i].user@,
    ensures
        totals(entries.update(i, entry)) == totals(entries).insert(
            entry.user@,
            entry.total_points,
        ),
    decreases entries.len(),
{
    let front = entries.drop_last();
    let after = entries.update(i, entry);
    if i == entries.len() - 1 {
        assert(after.drop_last() =~= front);
    } else {
        assert(after.drop_last() =~= front.update(i, entry));
        lemma_consistent_front(entries);
        lemma_totals_update(front, i, entry);
    }
}

/// Two contributions of one actor add up: where the sum still fits, the
/// total has grown by both and the tier is that of the new total. For an
/// actor who had nothing, the total is the sum of the two.
pub proof fn lemma_contributions_add_up(
    before: Map<Seq<char>, u32>,
    actor: Seq<char>,
    first: u32,
    second: u32,
)
    requires
        total_of(before, actor) + first + second <= u32::MAX,
    ensures
        total_of(contributed(contributed(before, actor, first), actor, second), actor) == total_of(
            before,
            actor,
        ) + first + second,
        !before.contains_key(actor) ==> total_of(
            contributed(contributed(before, actor, first), actor, second),
            actor,
        ) == first + second && tier_of(
            total_of(contributed(contributed(before, actor, first), actor, second), actor),
        ) == (first + second) / 100 + 1,
        tier_of(total_of(contributed(contributed(before, actor, first), actor, second), actor))
            == (total_of(before, actor) + first + second) / 100 + 1,
        forall|other: Seq<char>|
            other != actor ==> total_of(
                contributed(contributed(before, actor, first), actor, second),
                other,
            ) == total_of(before, other),
{
}

/// Two contributions of one actor, whatever their size: the total is what the
/// actor had and both contributions added up, held at the greatest total.
pub proof fn lemma_contributions_are_held(
    before: Map<Seq<char>, u32>,
    actor: Seq<char>,
    first: u32,
    second: u32,
)
    ensures
        total_of(contributed(contributed(before, actor, first), actor, second), actor) == if total_of(
            before,
            actor,
        ) + first + second > u32::MAX {
            u32::MAX
        } else {
            (total_of(before, actor) + first + second) as u32
        },
{
}

/// The total never rises by spending, and neither does the tier, so what a
/// claim deducts never rises from one claim to the next while nothing is
/// contributed in between.
pub proof fn lemma_claims_do_not_grow(total: u32)
    ensures
        lowered(total, reward_of(total)) <= total,
        tier_of(lowered(total, reward_of(total))) <= tier_of(total),
        reward_of(lowered(total, reward_of(total))) <= reward_of(total),
{
}

/// The aggregate ledger: for each actor that ever contributed, the total and
/// its tier.
pub struct Ledger {
    entries: Vec<UserRewards>,
}

impl View for Ledger {
    type V = Map<Seq<char>, u32>;

    closed spec fn view(&self) -> Map<Seq<char>, u32> {
        totals(self.entries@)
    }
}

impl Ledger {
    /// The ledger is one that the engine hands out.
    pub closed spec fn wf(&self) -> bool {
        consistent(self.entries@)
    }

    /// The entries as they are stored, one for each actor.
    pub closed spec fn entries_of(&self) -> Seq<UserRewards> {
        self.entries@
    }

    /// A ledger in which nobody has contributed.
    pub fn new() -> (ledger: Ledger)
        ensures
            ledger.wf(),
            ledger@ == Map::<Seq<char>, u32>::empty(),
    {
        Ledger { entries: Vec::new() }
    }

    fn position(&self, actor: &Principal) -> (place: Option<usize>)
        requires
            self.wf(),
        ensures
            place is Some <==> self@.contains_key(actor@),
            place matches Some(i) ==> i < self.entries@.len() && self.entries@[i as int].user@
                == actor@ && self@[actor@] == self.entries@[i as int].total_points,
    {
        let mut i: usize = 0;
        while i < self.entries.len()
            invariant
                i <= self.entries@.len(),
                self.wf(),
                forall|k: int| 0 <= k < i ==> (#[trigger] self.entries@[k]).user@ != actor@,
            decreases self.entries@.len() - i,
        {
            if self.entries[i].user.same_as(actor) {
                proof {
                    lemma_totals_at(self.entries@, i as int);
                }
                return Some(i);
            }
            i += 1;
        }
        proof {
            lemma_totals_keys(self.entries@, actor@);
        }
        None
    }

    /// What `actor` has gathered. An actor who never contributed has nothing,
    /// at the first tier.
    pub fn get(&self, actor: &Principal) -> (found: UserRewards)
        requires
            self.wf(),
        ensures
            found.user@ == actor@,
            found.total_points == total_of(self@, actor@),
            found.tier == tier_of(found.total_points),
    {
        match self.position(actor) {
            Some(i) => self.entries[i].clone(),
            None => UserRewards { user: actor.clone(), total_points: 0, tier: tier(0) },
        }
    }

    /// Adds `delta` to the total of `actor`, held at the greatest total, and
    /// sets the tier to that of the new total. The first contribution of an
    /// actor starts from nothing. Returns what the actor has gathered now.
    pub fn contribute(&mut self, actor: &Principal, delta: u32) -> (now: UserRewards)
        requires
            old(self).wf(),
        ensures
            final(self).wf(),
            final(self)@ == contributed(old(self)@, actor@, delta),
            now.user@ == actor@,
            now.total_points == raised(total_of(old(self)@, actor@), delta),
            now.tier == tier_of(now.total_points),
    {
        match self.position(actor) {
            Some(i) => {
                let total = self.entries[i].total_points.saturating_add(delta);
                let entry = UserRewards {
                    user: self.entries[i].user.clone(),
                    total_points: total,
                    tier: tier(total),
                };
                let now = entry.clone();
                proof {
                    lemma_totals_update(self.entries@, i as int, entry);
                }
                self.entries.set(i, entry);
                now
            },
            None => {
                let total = 0u32.saturating_add(delta);
                let entry = UserRewards { user: actor.clone(), total_points: total, tier: tier(total) };
                let now = entry.clone();
                proof {
                    lemma_totals_push(self.entries@, entry);
                    assert forall|k: int| 0 <= k < self.entries@.len() implies (
                    #[trigger] self.entries@[k]).user@ != actor@ by {
                        lemma_totals_keys(self.entries@, actor@);
                    }
                }
                self.entries.push(entry);
                now
            },
        }
    }

    /// Takes `amount` from the total of `actor`, never below nothing, and
    /// sets the tier to that of the new total. An actor who never contributed
    /// is not found, and the ledger stays as it is.
    pub fn spend(&mut self, actor: &Principal, amount: u32) -> (res: Result<UserRewards, Error>)
        requires
            old(self).wf(),
        ensures
            final(self).wf(),
            res is Ok <==> old(self)@.contains_key(actor@),
            res matches Ok(now) ==> {
                &&& final(self)@ == spent(old(self)@, actor@, amount)
                &&& now.user@ == actor@
                &&& now.total_points == lowered(old(self)@[actor@], amount)
                &&& now.tier == tier_of(now.total_points)
            },
            res matches Err(e) ==> e == Error::NotFound && final(self)@ == old(self)@,
    {
        match self.position(actor) {
            Some(i) => {
                let total = self.entries[i].total_points.saturating_sub(amount);
                let entry = UserRewards {
                    user: self.entries[i].user.clone(),
                    total_points: total,
                    tier: tier(total),
                };
                let now = entry.clone();
                proof {
                    lemma_totals_update(self.entries@, i as int, entry);
                }
                self.entries.set(i, entry);
                Ok(now)
            },
            None => Err(Error::NotFound),
        }
    }

    /// Claims the reward of the tier of `actor`: ten points for each tier are
    /// taken from the total, never below nothing. Returns the points of the
    /// reward. An actor who never contributed is not found.
    pub fn claim(&mut self, actor: &Principal) -> (res: Result<u32, Error>)
        requires
            old(self).wf(),
        ensures
            final(self).wf(),
            res is Ok <==> old(self)@.contains_key(actor@),
            res matches Ok(reward) ==> {
                &&& reward == reward_of(old(self)@[actor@])
                &&& final(self)@ == spent(old(self)@, actor@, reward)
            },
            res matches Err(e) ==> e == Error::NotFound && final(self)@ == old(self)@,
    {
        let reward = match self.position(actor) {
            Some(i) => tier(self.entries[i].total_points) * REWARD_PER_TIER,
            None => {
                return Err(Error::NotFound);
            },
        };
        match self.spend(actor, reward) {
            Ok(_) => Ok(reward),
            Err(e) => Err(e),
        }
    }

    /// The ledger that was stored as `entries`, if no actor has two of them
    /// and each carries the tier of its total.
    pub fn restore(entries: Vec<UserRewards>) -> (ledger: Option<Ledger>)
        ensures
            ledger is Some <==> consistent(entries@),
            ledger matches Some(l) ==> l.wf() && l@ == totals(entries@) && l.entries_of()
                == entries@,
    {
        let n = entries.len();
        let mut i: usize = 0;
        while i < n
            invariant
                i <= n,
                n == entries@.len(),
                forall|a: int, b: int|
                    0 <= a < b < i ==> (#[trigger] entries@[a]).user@ != (
                    #[trigger] entries@[b]).user@,
                forall|a: int|
                    0 <= a < i ==> (#[trigger] entries@[a]).tier == tier_of(
                        entries@[a].total_points,
                    ),
            decreases n - i,
        {
            if entries[i].tier != tier(entries[i].total_points) {
                return None;
            }
            let mut j: usize = 0;
            while j < i
                invariant
                    j <= i < n,
                    n == entries@.len(),
                    forall|a: int|
                        0 <= a < j ==> (#[trigger] entries@[a]).user@ != entries@[i as int].user@,
                decreases i - j,
            {
                if entries[j].user.same_as(&entries[i].user) {
                    return None;
                }
                j += 1;
            }
            i += 1;
        }
        Some(Ledger { entries })
    }

    /// The entries, one for each actor, to be stored.
    pub fn into_entries(self) -> (entries: Vec<UserRewards>)
        requires
            self.wf(),
        ensures
            consistent(entries@),
            totals(entries@) == self@,
            entries@ == self.entries_of(),
    {
        self.entries
    }
}

} // verus!
