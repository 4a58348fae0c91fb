use vstd::prelude::*;
use crate::error::Error;
use crate::ledger::{consistent, contributed, raised, reward_of, spent, tier_of, total_of, totals, Ledger, UserRewards};
use crate::principal::Principal;
use crate::record::Entry;
use crate::scan::{in_order_of_time, latest_first, lemma_push_keeps_order_of_time, named_by, newest, recent};

verus! {

/// One engagement of a user, and the points it was worth.
#[derive(Debug, PartialEq, Eq)]
pub struct Engagement {
    pub user: Principal,
    pub engagement_type: String,
    pub points: u32,
    pub timestamp: u64,
}

impl Clone for Engagement {
    fn clone(&self) -> (copy: Engagement)
        ensures
            copy == *self,
    {
        Engagement {
            user: self.user.clone(),
            engagement_type: self.engagement_type.clone(),
            points: self.points,
            timestamp: self.timestamp,
        }
    }
}

impl Entry for Engagement {
    open spec fn names(&self, actor: Seq<char>) -> bool {
        self.user@ == actor
    }

    open spec fn stamp(&self) -> u64 {
        self.timestamp
    }

    fn involves(&self, actor: &Principal) -> (hit: bool) {
        self.user.same_as(actor)
    }

    fn duplicate(&self) -> (copy: Engagement) {
        self.clone()
    }
}

/// What can be observed of the rewards service: whether it was set up, the
/// engagements in the order in which they were recorded, and the total of
/// each user who ever engaged.
#[verifier::ext_equal]
pub struct RewardsState {
    pub ready: bool,
    pub engagements: Seq<Engagement>,
    pub totals: Map<Seq<char>, u32>,
}

impl RewardsState {
    /// A service that was never set up.
    pub open spec fn fresh() -> RewardsState {
        RewardsState { ready: false, engagements: Seq::empty(), totals: Map::empty() }
    }

    /// The service after it was set up. One that is set up already stays as
    /// it is.
    pub open spec fn set_up(self) -> RewardsState {
        RewardsState { ready: true, engagements: self.engagements, totals: self.totals }
    }

    /// The service after `engagement` was recorded: it stands at the end of
    /// the engagements, and its points are added to the total of its user.
    pub open spec fn recorded(self, engagement: Engagement) -> RewardsState {
        RewardsState {
            ready: self.ready,
            engagements: self.engagements.push(engagement),
            totals: contributed(self.totals, engagement.user@, engagement.points),
        }
    }

    /// The service after `user` claimed the reward of the tier.
    pub open spec fn claimed(self, user: Seq<char>) -> RewardsState {
        RewardsState {
            ready: self.ready,
            engagements: self.engagements,
            totals: spent(self.totals, user, reward_of(self.totals[user])),
        }
    }

    /// No engagement was recorded at an earlier instant than one before it.
    pub open spec fn chronological(self) -> bool {
        in_order_of_time(self.engagements)
    }

    /// A service that was never set up holds nothing.
    pub open spec fn valid(self) -> bool {
        !self.ready ==> self.engagements.len() == 0 && self.totals == Map::<Seq<char>, u32>::empty()
    }
}

/// The rewards service: a log of engagements, and a ledger of what each user
/// has gathered.
pub struct SocialRewardsContract {
    ready: bool,
    engagements: Vec<Engagement>,
    ledger: Ledger,
}

impl View for SocialRewardsContract {
    type V = RewardsState;

    closed spec fn view(&self) -> RewardsState {
        RewardsState { ready: self.ready, engagements: self.engagements@, totals: self.ledger@ }
    }
}

impl SocialRewardsContract {
    /// The service is one that the engine hands out.
    pub closed spec fn wf(&self) -> bool {
        self.ledger.wf() && self@.valid()
    }

    /// What is known of every service that the engine hands out.
    pub proof fn lemma_valid(&self)
        requires
            self.wf(),
        ensures
            self@.valid(),
    {
    }

    /// A service that was never set up.
    pub fn new() -> (service: SocialRewardsContract)
        ensures
            service.wf(),
            service@ == RewardsState::fresh(),
    {
        SocialRewardsContract { ready: false, engagements: Vec::new(), ledger: Ledger::new() }
    }

    /// Sets the service up, with no engagement and no total. A service that
    /// was set up before stays as it is.
    pub fn init(&mut self) -> (res: Result<(), Error>)
        requires
            old(self).wf(),
        ensures
            final(self).wf(),
            res is Ok,
            final(self)@ == old(self)@.set_up(),
    {
        self.ready = true;
        Ok(())
    }

    /// Records an engagement of `user` worth `points` at the instant `now`,
    /// and adds the points to the total of `user`, which is held at the
    /// greatest total. The caller must have proved the identity of `user`,
    /// and the service must have been set up. Returns the new total of
    /// `user`. A refusal leaves the service as it is.
    pub fn record_engagement(
        &mut self,
        user_authorized: bool,
        user: Principal,
        engagement_type: String,
        points: u32,
        now: u64,
    ) -> (res: Result<u32, Error>)
        requires
            old(self).wf(),
        ensures
            final(self).wf(),
            !user_authorized ==> res == Err::<u32, Error>(Error::Unauthorized),
            user_authorized && !old(self)@.ready ==> res == Err::<u32, Error>(
                Error::NotInitialized,
            ),
            user_authorized && old(self)@.ready ==> res == Ok::<u32, Error>(
                raised(total_of(old(self)@.totals, user@), points),
            ),
            res is Err ==> final(self)@ == old(self)@,
            res is Ok ==> final(self)@ == old(self)@.recorded(
                Engagement { user, engagement_type, points, timestamp: now },
            ),
            old(self)@.chronological() && (old(self)@.engagements.len() == 0
                || old(self)@.engagements.last().timestamp <= now)
                ==> final(self)@.chronological(),
    {
        if !user_authorized {
            return Err(Error::Unauthorized);
        }
        if !self.ready {
            return Err(Error::NotInitialized);
        }
        let now_has = self.ledger.contribute(&user, points);
        let engagement = Engagement { user, engagement_type, points, timestamp: now };
        proof {
            if self@.chronological() && (self@.engagements.len() == 0
                || self@.engagements.last().timestamp <= now) {
                lemma_push_keeps_order_of_time(self@.engagements, engagement);
            }
        }
        self.engagements.push(engagement);
        Ok(now_has.total_points)
    }

    /// What `user` has gathered: the total and its tier. A user who never
    /// engaged has nothing, at the first tier.
    pub fn get_user_rewards(&self, user: &Principal) -> (found: UserRewards)
        requires
            self.wf(),
        ensures
            found.user@ == user@,
            found.total_points == total_of(self@.totals, user@),
            found.tier == tier_of(found.total_points),
    {
        self.ledger.get(user)
    }

    /// Copies of the engagements of `user`, the most recently recorded first,
    /// at most `limit` of them.
    pub fn get_engagement_history(&self, user: &Principal, limit: u32) -> (out: Vec<Engagement>)
        ensures
            out@ == newest(self@.engagements, named_by::<Engagement>(user@), limit as nat),
            out@.len() <= limit,
            self@.chronological() ==> latest_first(out@),
    {
        recent(&self.engagements, user, limit)
    }

    /// Claims the reward of the tier of `user`: ten points for each tier are
    /// taken from the total, never below nothing, and the tier follows the
    /// new total. The caller must have proved the identity of `user`, and
    /// `user` must have engaged before. Returns the points of the reward. A
    /// refusal leaves the service as it is.
    pub fn claim_tier_reward(&mut self, user_authorized: bool, user: &Principal) -> (res: Result<
        u32,
        Error,
    >)
        requires
            old(self).wf(),
        ensures
            final(self).wf(),
            !user_authorized ==> res == Err::<u32, Error>(Error::Unauthorized),
            user_authorized && !old(self)@.totals.contains_key(user@) ==> res == Err::<u32, Error>(
                Error::NotFound,
            ),
            user_authorized && old(self)@.totals.contains_key(user@) ==> res == Ok::<u32, Error>(
                reward_of(old(self)@.totals[user@]),
            ),
            res is Err ==> final(self)@ == old(self)@,
            res is Ok ==> final(self)@ == old(self)@.claimed(user@),
            old(self)@.chronological() ==> final(self)@.chronological(),
    {
        if !user_authorized {
            return Err(Error::Unauthorized);
        }
        self.ledger.claim(user)
    }

    /// The service that was stored as the mark that it was set up, the
    /// engagements and the entries of the ledger, if the three make a service
    /// that the engine could have handed out: no user has two entries, each
    /// entry carries the tier of its total, and a service that was never set
    /// up holds nothing.
    pub fn restore(initialized: bool, engagements: Vec<Engagement>, rewards: Vec<UserRewards>) -> (service:
        Option<SocialRewardsContract>)
        ensures
            service is Some <==> consistent(rewards@) && (!initialized ==> engagements@.len() == 0
                && rewards@.len() == 0),
            service matches Some(s) ==> s.wf() && s@ == (RewardsState {
                ready: initialized,
                engagements: engagements@,
                totals: totals(rewards@),
            }),
    {
        if !initialized && (engagements.len() != 0 || rewards.len() != 0) {
            return None;
        }
        match Ledger::restore(rewards) {
            Some(ledger) => Some(SocialRewardsContract { ready: initialized, engagements, ledger }),
            None => None,
        }
    }

    /// The mark that the service was set up, the engagements and the entries
    /// of the ledger, to be stored.
    pub fn into_parts(self) -> (parts: (bool, Vec<Engagement>, Vec<UserRewards>))
        requires
            self.wf(),
        ensures
            parts.0 == self@.ready,
            parts.1@ == self@.engagements,
            consistent(parts.2@),
            totals(parts.2@) == self@.totals,
    {
        (self.ready, self.engagements, self.ledger.into_entries())
    }
}

} // verus!
