use vstd::prelude::*;

use crate::active_set::{lemma_filter_no_duplicates, ActiveSet};
use crate::ledger::{saturating_sum, ContributionLedger};
use crate::types::{
    caps_valid, final_status, initial_status, metadata_fits, AccountId, Balance, Campaign,
    CampaignId, CampaignStatus, Config, Currency, DispatchError, Error, Event, LedgerError,
    Metadata, Moment, Origin,
};

verus! {

/// What every operation returns.
pub type DispatchResult = Result<(), DispatchError>;

/// The account behind a signed origin.
pub open spec fn signer(origin: Origin) -> Option<AccountId> {
    match origin {
        Origin::Signed(who) => Some(who),
        _ => None,
    }
}

/// The rule error `e` as an operation's outcome.
pub open spec fn refused(e: Error) -> DispatchResult {
    Err(DispatchError::Module(e))
}

/// The facts a stored campaign keeps for its whole life.
pub open spec fn record_ok(c: Campaign, config: Config) -> bool {
    &&& caps_valid(c.soft_cap, c.hard_cap)
    &&& c.start < c.end
    &&& c.matched <= c.hard_cap
    &&& metadata_fits(c.metadata, config)
    &&& c.status is Upcoming ==> c.matched == 0
}

/// The campaign may be refunded.
pub open spec fn refundable(s: CampaignStatus) -> bool {
    s is Failed || s is Cancelled
}

/// The campaign is active and its time is over.
pub open spec fn due(c: Campaign, now: Moment) -> bool {
    c.status is Active && now >= c.end
}

/// The campaign as the sweep at `now` leaves it.
pub open spec fn swept(c: Campaign, now: Moment) -> Campaign {
    if due(c, now) {
        Campaign { status: final_status(c.matched, c.soft_cap), ..c }
    } else {
        c
    }
}

/// Whether the sweep at `now` keeps identifier `id` in the active set.
pub open spec fn still_pending(cs: Seq<Campaign>, now: Moment) -> spec_fn(CampaignId) -> bool {
    |id: CampaignId| !((id as int) < cs.len() && due(cs[id as int], now))
}

/// The events of a sweep at `now` over the active identifiers `ids`, in order.
pub open spec fn sweep_events(ids: Seq<CampaignId>, cs: Seq<Campaign>, now: Moment) -> Seq<Event>
    decreases ids.len(),
{
    if ids.len() == 0 {
        Seq::empty()
    } else {
        let rest = sweep_events(ids.drop_last(), cs, now);
        let id = ids.last();
        if (id as int) < cs.len() && due(cs[id as int], now) {
            let c = cs[id as int];
            rest.push(
                Event::CampaignFinalized {
                    campaign_id: id,
                    status: final_status(c.matched, c.soft_cap),
                },
            )
        } else {
            rest
        }
    }
}

proof fn lemma_push_contains(s: Seq<CampaignId>, x: CampaignId, y: CampaignId)
    ensures
        s.push(x).contains(y) <==> (s.contains(y) || x == y),
{
    let t = s.push(x);
    if s.contains(y) {
        let j = choose|j: int| 0 <= j < s.len() && s[j] == y;
        assert(t[j] == y);
    }
    if x == y {
        assert(t[s.len() as int] == y);
    }
    if t.contains(y) {
        let j = choose|j: int| 0 <= j < t.len() && t[j] == y;
        if j < s.len() {
            assert(s[j] == y);
        }
    }
}

/// A filter that every element passes keeps the sequence as it is.
proof fn lemma_filter_keeps_all(s: Seq<CampaignId>, pred: spec_fn(CampaignId) -> bool)
    requires
        forall|j: int| 0 <= j < s.len() ==> pred(#[trigger] s[j]),
    ensures
        s.filter(pred) == s,
    decreases s.len(),
{
    reveal(Seq::filter);
    if s.len() > 0 {
        lemma_filter_keeps_all(s.drop_last(), pred);
        assert(s.drop_last().push(s.last()) =~= s);
    }
}

/// The registry: campaigns, the active set, the contribution ledger and the
/// events emitted so far.
pub struct Pallet {
    pub config: Config,
    /// The campaign with identifier `i` is at index `i`.
    pub campaigns: Vec<Campaign>,
    pub active: ActiveSet,
    pub contributions: ContributionLedger,
    pub events: Vec<Event>,
}

impl Pallet {
    /// The registry's invariant.
    pub open spec fn wf(&self) -> bool {
        let cs = self.campaigns@;
        &&& cs.len() <= u32::MAX
        &&& self.active.wf()
        &&& self.active.capacity == self.config.max_active
        &&& self.contributions.wf()
        &&& forall|i: int| 0 <= i < cs.len() ==> record_ok(#[trigger] cs[i], self.config)
        &&& forall|j: int|
            0 <= j < self.active.ids@.len() ==> (#[trigger] self.active.ids@[j]) < cs.len()
        &&& forall|i: int|
            0 <= i < cs.len() ==> (self.active.ids@.contains(i as CampaignId) <==> (
            #[trigger] cs[i]).status is Active)
        &&& forall|c: CampaignId| c >= cs.len() ==> #[trigger] self.contributions.total(c) == 0
    }

    /// Every campaign that cannot be refunded has ledger records summing to
    /// its matched amount.
    pub open spec fn balanced(&self) -> bool {
        forall|i: int|
            0 <= i < self.campaigns@.len() && !refundable(#[trigger] self.campaigns@[i].status)
                ==> self.contributions.total(i as CampaignId) == self.campaigns@[i].matched
    }

    /// The campaign with identifier `id`, if there is one.
    pub open spec fn campaign(&self, id: CampaignId) -> Option<Campaign> {
        if (id as int) < self.campaigns@.len() {
            Some(self.campaigns@[id as int])
        } else {
            None
        }
    }

    /// The identifier the next campaign receives.
    pub open spec fn next_id(&self) -> CampaignId {
        self.campaigns@.len() as CampaignId
    }

    /// An empty registry.
    pub fn new(config: Config) -> (r: Pallet)
        ensures
            r.wf(),
            r.balanced(),
            r.config == config,
            r.campaigns@.len() == 0,
            r.active.ids@.len() == 0,
            r.events@.len() == 0,
            forall|c: CampaignId, w: AccountId| #[trigger] r.contributions.amount(c, w) == 0,
    {
        Pallet {
            config,
            campaigns: Vec::new(),
            active: ActiveSet::new(config.max_active),
            contributions: ContributionLedger::new(),
            events: Vec::new(),
        }
    }

    /// The outcome an owner's edit of campaign `id` owes: allowed only to its
    /// owner and only while it is upcoming.
    pub open spec fn check_owner_edit(&self, origin: Origin, id: CampaignId) -> DispatchResult {
        match signer(origin) {
            None => Err(DispatchError::BadOrigin),
            Some(who) => match self.campaign(id) {
                None => refused(Error::CampaignNotFound),
                Some(c) => if c.owner != who {
                    refused(Error::NotOwner)
                } else if !(c.status is Upcoming) {
                    refused(Error::NotActive)
                } else {
                    Ok(())
                },
            },
        }
    }

    /// Checks the signer, and that campaign `id` exists, is theirs and has not
    /// started; returns its index.
    fn owner_edit(&self, origin: Origin, id: CampaignId) -> (r: Result<usize, DispatchError>)
        ensures
            match r {
                Ok(i) => self.check_owner_edit(origin, id) is Ok && i == id,
                Err(e) => self.check_owner_edit(origin, id) == Err::<(), DispatchError>(e),
            },
    {
        let who = match origin {
            Origin::Signed(who) => who,
            _ => {
                return Err(DispatchError::BadOrigin);
            },
        };
        let i = id as usize;
        if i >= self.campaigns.len() {
            return Err(DispatchError::Module(Error::CampaignNotFound));
        }
        let c = &self.campaigns[i];
        if c.owner != who {
            return Err(DispatchError::Module(Error::NotOwner));
        }
        match c.status {
            CampaignStatus::Upcoming => Ok(i),
            _ => Err(DispatchError::Module(Error::NotActive)),
        }
    }

    /// Replaces the metadata of an upcoming campaign of the signer.
    pub fn update_metadata(
        &mut self,
        origin: Origin,
        campaign_id: CampaignId,
        metadata: Metadata,
    ) -> (r: DispatchResult)
        requires
            old(self).wf(),
            metadata_fits(metadata, old(self).config),
        ensures
            final(self).wf(),
            old(self).balanced() ==> final(self).balanced(),
            r == old(self).check_owner_edit(origin, campaign_id),
            r is Err ==> *final(self) == *old(self),
            r is Ok ==> {
                &&& final(self).campaigns@ == old(self).campaigns@.update(
                    campaign_id as int,
                    (Campaign { metadata, ..old(self).campaigns@[campaign_id as int] }),
                )
                &&& final(self).events@ == old(self).events@.push(
                    Event::MetadataUpdated { campaign_id },
                )
                &&& final(self).active == old(self).active
                &&& final(self).contributions == old(self).contributions
                &&& final(self).config == old(self).config
            },
    {
        let i = self.owner_edit(origin, campaign_id)?;
        self.campaigns[i].metadata = metadata;
        self.events.push(Event::MetadataUpdated { campaign_id });
        proof {
            assert forall|k: int| 0 <= k < self.campaigns@.len() implies #[trigger]
                self.campaigns@[k].status == old(self).campaigns@[k].status by {}
        }
        Ok(())
    }

    /// The outcome `set_caps` owes.
    pub open spec fn check_set_caps(
        &self,
        origin: Origin,
        id: CampaignId,
        soft_cap: Balance,
        hard_cap: Balance,
    ) -> DispatchResult {
        match signer(origin) {
            None => Err(DispatchError::BadOrigin),
            Some(_) => if !caps_valid(soft_cap, hard_cap) {
                refused(Error::CapsInvalid)
            } else {
                self.check_owner_edit(origin, id)
            },
        }
    }

    /// Replaces both caps of an upcoming campaign of the signer.
    pub fn set_caps(
        &mut self,
        origin: Origin,
        campaign_id: CampaignId,
        soft_cap: Balance,
        hard_cap: Balance,
    ) -> (r: DispatchResult)
        requires
            old(self).wf(),
        ensures
            final(self).wf(),
            old(self).balanced() ==> final(self).balanced(),
            r == old(self).check_set_caps(origin, campaign_id, soft_cap, hard_cap),
            r is Err ==> *final(self) == *old(self),
            r is Ok ==> {
                &&& final(self).campaigns@ == old(self).campaigns@.update(
                    campaign_id as int,
                    (Campaign { soft_cap, hard_cap, ..old(self).campaigns@[campaign_id as int] }),
                )
                &&& final(self).events@ == old(self).events@.push(
                    Event::CapsUpdated { campaign_id, soft_cap, hard_cap },
                )
                &&& final(self).active == old(self).active
                &&& final(self).contributions == old(self).contributions
                &&& final(self).config == old(self).config
            },
    {
        if let Origin::Signed(_) = origin {
            if !(soft_cap <= hard_cap) || soft_cap == 0 || hard_cap == 0 {
                return Err(DispatchError::Module(Error::CapsInvalid));
            }
        }
        let i = self.owner_edit(origin, campaign_id)?;
        self.campaigns[i].soft_cap = soft_cap;
        self.campaigns[i].hard_cap = hard_cap;
        self.events.push(Event::CapsUpdated { campaign_id, soft_cap, hard_cap });
        proof {
            assert forall|k: int| 0 <= k < self.campaigns@.len() implies #[trigger]
                self.campaigns@[k].status == old(self).campaigns@[k].status by {}
        }
        Ok(())
    }

    /// The outcome `cancel_campaign` owes: the owner or the administrative
    /// authority may cancel a campaign that is upcoming or active.
    pub open spec fn check_cancel(&self, origin: Origin, id: CampaignId) -> DispatchResult {
        if origin is Unsigned {
            Err(DispatchError::BadOrigin)
        } else {
            match self.campaign(id) {
                None => refused(Error::CampaignNotFound),
                Some(c) => if !(origin is Root || origin == Origin::Signed(c.owner)) {
                    refused(Error::NotOwner)
                } else if !(c.status is Upcoming || c.status is Active) {
                    refused(Error::AlreadyFinalized)
                } else {
                    Ok(())
                },
            }
        }
    }

    /// The release a cancellation asks of the ledger: the owner's deposit,
    /// whoever cancels; or the error that refuses the cancellation.
    pub fn cancel_release(
        &self,
        origin: Origin,
        campaign_id: CampaignId,
    ) -> (r: Result<(AccountId, Balance), DispatchError>)
        ensures
            match self.check_cancel(origin, campaign_id) {
                Err(e) => r == Err::<(AccountId, Balance), DispatchError>(e),
                Ok(()) => r == Ok::<(AccountId, Balance), DispatchError>(
                    (self.campaigns@[campaign_id as int].owner, self.config.minimum_deposit),
                ),
            },
    {
        let is_root = match origin {
            Origin::Signed(_) => false,
            Origin::Root => true,
            Origin::Unsigned => {
                return Err(DispatchError::BadOrigin);
            },
        };
        let i = campaign_id as usize;
        if i >= self.campaigns.len() {
            return Err(DispatchError::Module(Error::CampaignNotFound));
        }
        let owner = self.campaigns[i].owner;
        let allowed = is_root || match origin {
            Origin::Signed(who) => who == owner,
            _ => false,
        };
        if !allowed {
            return Err(DispatchError::Module(Error::NotOwner));
        }
        match self.campaigns[i].status {
            CampaignStatus::Upcoming | CampaignStatus::Active => {},
            _ => {
                return Err(DispatchError::Module(Error::AlreadyFinalized));
            },
        }
        Ok((owner, self.config.minimum_deposit))
    }

    /// Cancels a campaign, takes it out of the active set and releases its
    /// owner's deposit, as `cancel_release` names it.
    pub fn cancel_campaign<C: Currency>(
        &mut self,
        origin: Origin,
        campaign_id: CampaignId,
        currency: &mut C,
    ) -> (r: DispatchResult)
        requires
            old(self).wf(),
        ensures
            final(self).wf(),
            old(self).balanced() ==> final(self).balanced(),
            r == old(self).check_cancel(origin, campaign_id),
            r is Err ==> *final(self) == *old(self) && *final(currency) == *old(currency),
            r is Ok ==> {
                &&& final(self).campaigns@ == old(self).campaigns@.update(
                    campaign_id as int,
                    (Campaign {
                        status: CampaignStatus::Cancelled,
                        ..old(self).campaigns@[campaign_id as int]
                    }),
                )
                &&& final(self).active.ids@ == old(self).active.ids@.filter(
                    |x: CampaignId| x != campaign_id,
                )
                &&& final(self).events@ == old(self).events@.push(
                    Event::CampaignCancelled { campaign_id },
                )
                &&& final(self).contributions == old(self).contributions
                &&& final(self).config == old(self).config
            },
    {
        let (owner, deposit) = self.cancel_release(origin, campaign_id)?;
        let i = campaign_id as usize;
        let was_active = self.campaigns[i].status == CampaignStatus::Active;
        self.campaigns[i].status = CampaignStatus::Cancelled;
        let ghost old_ids = self.active.ids@;
        self.active.remove(campaign_id);
        proof {
            if !was_active {
                assert(!old_ids.contains(campaign_id));
                assert forall|j: int| 0 <= j < old_ids.len() implies (|x: CampaignId|
                    x != campaign_id)(#[trigger] old_ids[j]) by {}
                lemma_filter_keeps_all(old_ids, |x: CampaignId| x != campaign_id);
            }
        }
        currency.unreserve(owner, deposit);
        self.events.push(Event::CampaignCancelled { campaign_id });
        proof {
            broadcast use vstd::seq_lib::group_filter_ensures;
            let cs = self.campaigns@;
            let ids = self.active.ids@;
            let pred = |x: CampaignId| x != campaign_id;
            assert forall|j: int| 0 <= j < ids.len() implies (#[trigger] ids[j]) < cs.len() by {
                old_ids.lemma_filter_contains_rev(pred, ids[j]);
            }
            assert forall|k: int|
                0 <= k < cs.len() implies (ids.contains(k as CampaignId) <==> (
            #[trigger] cs[k]).status is Active) by {
                if ids.contains(k as CampaignId) {
                    old_ids.lemma_filter_contains_rev(pred, k as CampaignId);
                }
                if k != i && cs[k].status is Active {
                    assert(old(self).campaigns@[k] == cs[k]);
                    let j = choose|j: int| 0 <= j < old_ids.len() && old_ids[j] == k as CampaignId;
                    assert(pred(old_ids[j]));
                }
            }
        }
        Ok(())
    }

    /// The outcome `contribute` owes before the amount is held.
    pub open spec fn check_contribute(
        &self,
        origin: Origin,
        id: CampaignId,
        amount: Balance,
    ) -> DispatchResult {
        match signer(origin) {
            None => Err(DispatchError::BadOrigin),
            Some(_) => match self.campaign(id) {
                None => refused(Error::CampaignNotFound),
                Some(c) => if !(c.status is Active) {
                    refused(Error::NotActive)
                } else if saturating_sum(c.matched, amount) > c.hard_cap {
                    refused(Error::HardCapExceeded)
                } else {
                    Ok(())
                },
            },
        }
    }

    /// `after` is `before` with `amount` from `who` added to campaign `id`.
    pub open spec fn contributed(
        before: Pallet,
        after: Pallet,
        id: CampaignId,
        who: AccountId,
        amount: Balance,
    ) -> bool {
        let c = before.campaigns@[id as int];
        &&& after.campaigns@ == before.campaigns@.update(
            id as int,
            (Campaign { matched: saturating_sum(c.matched, amount), ..c }),
        )
        &&& after.contributions.amount(id, who) == saturating_sum(
            before.contributions.amount(id, who),
            amount,
        )
        &&& forall|c2: CampaignId, w2: AccountId|
            !(c2 == id && w2 == who) ==> #[trigger] after.contributions.amount(c2, w2)
                == before.contributions.amount(c2, w2)
        &&& after.contributions.total(id) + before.contributions.amount(id, who)
            == before.contributions.total(id) + after.contributions.amount(id, who)
        &&& forall|c2: CampaignId|
            c2 != id ==> #[trigger] after.contributions.total(c2) == before.contributions.total(c2)
        &&& after.events@ == before.events@.push(
            Event::ContributionMade { campaign_id: id, who, amount },
        )
        &&& after.active == before.active
        &&& after.config == before.config
    }

    /// The hold a contribution asks of the ledger: the amount, from the
    /// signer; or the error that refuses the contribution.
    pub fn contribution_hold(
        &self,
        origin: Origin,
        campaign_id: CampaignId,
        amount: Balance,
    ) -> (r: Result<(AccountId, Balance), DispatchError>)
        ensures
            match self.check_contribute(origin, campaign_id, amount) {
                Err(e) => r == Err::<(AccountId, Balance), DispatchError>(e),
                Ok(()) => r == Ok::<(AccountId, Balance), DispatchError>(
                    (signer(origin)->0, amount),
                ),
            },
    {
        let who = match origin {
            Origin::Signed(who) => who,
            _ => {
                return Err(DispatchError::BadOrigin);
            },
        };
        let i = campaign_id as usize;
        if i >= self.campaigns.len() {
            return Err(DispatchError::Module(Error::CampaignNotFound));
        }
        match self.campaigns[i].status {
            CampaignStatus::Active => {},
            _ => {
                return Err(DispatchError::Module(Error::NotActive));
            },
        }
        if self.campaigns[i].matched.saturating_add(amount) > self.campaigns[i].hard_cap {
            return Err(DispatchError::Module(Error::HardCapExceeded));
        }
        Ok((who, amount))
    }

    /// Records a contribution once the ledger has answered the hold of its
    /// amount with `held`: nothing changes when the hold failed.
    pub fn contribute_with_hold(
        &mut self,
        origin: Origin,
        campaign_id: CampaignId,
        amount: Balance,
        held: Result<(), LedgerError>,
    ) -> (r: DispatchResult)
        requires
            old(self).wf(),
        ensures
            final(self).wf(),
            old(self).balanced() && ((campaign_id as int) < old(self).campaigns@.len()
                ==> old(self).campaigns@[campaign_id as int].matched + amount <= u64::MAX)
                ==> final(self).balanced(),
            match old(self).check_contribute(origin, campaign_id, amount) {
                Err(e) => r == Err::<(), DispatchError>(e) && *final(self) == *old(self),
                Ok(()) => match held {
                    Err(e) => r == Err::<(), DispatchError>(DispatchError::Ledger(e))
                        && *final(self) == *old(self),
                    Ok(()) => r is Ok && Pallet::contributed(
                        *old(self),
                        *final(self),
                        campaign_id,
                        signer(origin)->0,
                        amount,
                    ),
                },
            },
    {
        let (who, _) = self.contribution_hold(origin, campaign_id, amount)?;
        if let Err(e) = held {
            return Err(DispatchError::Ledger(e));
        }
        let i = campaign_id as usize;
        let new_total = self.campaigns[i].matched.saturating_add(amount);
        proof {
            self.contributions.lemma_amount_within_total(campaign_id, who);
        }
        self.contributions.add(campaign_id, who, amount);
        self.campaigns[i].matched = new_total;
        self.events.push(Event::ContributionMade { campaign_id, who, amount });
        proof {
            assert forall|k: int| 0 <= k < self.campaigns@.len() implies #[trigger]
                self.campaigns@[k].status == old(self).campaigns@[k].status by {}
        }
        Ok(())
    }

    /// Adds `amount` from the signer to an active campaign, holding it from
    /// the signer's balance, as long as the hard cap is not passed. The ledger
    /// is asked for the hold that `contribution_hold` names, and nothing else.
    pub fn contribute<C: Currency>(
        &mut self,
        origin: Origin,
        campaign_id: CampaignId,
        amount: Balance,
        currency: &mut C,
    ) -> (r: DispatchResult)
        requires
            old(self).wf(),
        ensures
            final(self).wf(),
            old(self).balanced() && ((campaign_id as int) < old(self).campaigns@.len()
                ==> old(self).campaigns@[campaign_id as int].matched + amount <= u64::MAX)
                ==> final(self).balanced(),
            match old(self).check_contribute(origin, campaign_id, amount) {
                Err(e) => r == Err::<(), DispatchError>(e) && *final(self) == *old(self)
                    && *final(currency) == *old(currency),
                Ok(()) => {
                    &&& r is Err ==> (r matches Err(DispatchError::Ledger(_))) && *final(self)
                        == *old(self)
                    &&& r is Ok ==> Pallet::contributed(
                        *old(self),
                        *final(self),
                        campaign_id,
                        signer(origin)->0,
                        amount,
                    )
                },
            },
    {
        let (who, held_amount) = self.contribution_hold(origin, campaign_id, amount)?;
        let held = currency.reserve(who, held_amount);
        self.contribute_with_hold(origin, campaign_id, amount, held)
    }

    /// The outcome `claim_refund` owes.
    pub open spec fn check_refund(&self, origin: Origin, id: CampaignId) -> DispatchResult {
        match signer(origin) {
            None => Err(DispatchError::BadOrigin),
            Some(who) => match self.campaign(id) {
                None => refused(Error::CampaignNotFound),
                Some(c) => if !refundable(c.status) {
                    refused(Error::NotRefundable)
                } else if self.contributions.amount(id, who) == 0 {
                    refused(Error::NoContributionFound)
                } else {
                    Ok(())
                },
            },
        }
    }

    /// `after` is `before` with the record of `who` in campaign `id` paid out.
    pub open spec fn refunded(
        before: Pallet,
        after: Pallet,
        id: CampaignId,
        who: AccountId,
    ) -> bool {
        &&& after.contributions.amount(id, who) == 0
        &&& forall|c2: CampaignId, w2: AccountId|
            !(c2 == id && w2 == who) ==> #[trigger] after.contributions.amount(c2, w2)
                == before.contributions.amount(c2, w2)
        &&& after.events@ == before.events@.push(
            Event::RefundClaimed {
                campaign_id: id,
                who,
                amount: before.contributions.amount(id, who),
            },
        )
        &&& after.campaigns == before.campaigns
        &&& after.active == before.active
        &&& after.config == before.config
    }

    /// The account and amount that a refund claim from `origin` releases.
    pub open spec fn refund_release_spec(&self, origin: Origin, id: CampaignId) -> (
        AccountId,
        Balance,
    ) {
        (signer(origin)->0, self.contributions.amount(id, signer(origin)->0))
    }

    /// The release a refund asks of the ledger: all the signer has put into
    /// the campaign; or the error that refuses the refund.
    pub fn refund_release(
        &self,
        origin: Origin,
        campaign_id: CampaignId,
    ) -> (r: Result<(AccountId, Balance), DispatchError>)
        requires
            self.wf(),
        ensures
            match self.check_refund(origin, campaign_id) {
                Err(e) => r == Err::<(AccountId, Balance), DispatchError>(e),
                Ok(()) => r == Ok::<(AccountId, Balance), DispatchError>(
                    self.refund_release_spec(origin, campaign_id),
                ),
            },
    {
        let who = match origin {
            Origin::Signed(who) => who,
            _ => {
                return Err(DispatchError::BadOrigin);
            },
        };
        let i = campaign_id as usize;
        if i >= self.campaigns.len() {
            return Err(DispatchError::Module(Error::CampaignNotFound));
        }
        match self.campaigns[i].status {
            CampaignStatus::Failed | CampaignStatus::Cancelled => {},
            _ => {
                return Err(DispatchError::Module(Error::NotRefundable));
            },
        }
        let amount = self.contributions.get(campaign_id, who);
        if amount == 0 {
            return Err(DispatchError::Module(Error::NoContributionFound));
        }
        Ok((who, amount))
    }

    /// Pays back to the signer all it has put into a failed or cancelled
    /// campaign, releasing the hold that `refund_release` names.
    pub fn claim_refund<C: Currency>(
        &mut self,
        origin: Origin,
        campaign_id: CampaignId,
        currency: &mut C,
    ) -> (r: DispatchResult)
        requires
            old(self).wf(),
        ensures
            final(self).wf(),
            old(self).balanced() ==> final(self).balanced(),
            r == old(self).check_refund(origin, campaign_id),
            r is Err ==> *final(self) == *old(self) && *final(currency) == *old(currency),
            r is Ok ==> Pallet::refunded(*old(self), *final(self), campaign_id, signer(origin)->0),
    {
        let (who, amount) = self.refund_release(origin, campaign_id)?;
        self.contributions.take(campaign_id, who);
        currency.unreserve(who, amount);
        self.events.push(Event::RefundClaimed { campaign_id, who, amount });
        Ok(())
    }

    /// The finalization sweep at `now`: every active campaign whose end has
    /// come becomes `Success` when it reached its soft cap and `Failed`
    /// otherwise, and leaves the active set; the others stay as they were.
    pub fn on_initialize(&mut self, now: Moment)
        requires
            old(self).wf(),
        ensures
            final(self).wf(),
            old(self).balanced() ==> final(self).balanced(),
            final(self).campaigns@.len() == old(self).campaigns@.len(),
            forall|k: int|
                0 <= k < old(self).campaigns@.len() ==> #[trigger] final(self).campaigns@[k]
                    == swept(old(self).campaigns@[k], now),
            final(self).active.ids@ == old(self).active.ids@.filter(
                still_pending(old(self).campaigns@, now),
            ),
            final(self).events@ == old(self).events@ + sweep_events(
                old(self).active.ids@,
                old(self).campaigns@,
                now,
            ),
            final(self).contributions == old(self).contributions,
            final(self).config == old(self).config,
    {
        let ghost cs0 = self.campaigns@;
        let ghost ids = self.active.ids@;
        let ghost events0 = self.events@;
        let ghost keep = still_pending(cs0, now);
        let n = self.active.ids.len();
        let mut kept: Vec<CampaignId> = Vec::new();
        let mut changed = false;
        let mut i: usize = 0;
        while i < n
            invariant
                n == ids.len(),
                self.active.ids@ == ids,
                ids.no_duplicates(),
                self.config == old(self).config,
                self.active == old(self).active,
                self.contributions == old(self).contributions,
                cs0 == old(self).campaigns@,
                cs0.len() <= u32::MAX,
                forall|j: int| 0 <= j < ids.len() ==> (#[trigger] ids[j]) < cs0.len(),
                events0 == old(self).events@,
                keep == still_pending(cs0, now),
                i <= n,
                self.campaigns@.len() == cs0.len(),
                forall|k: int|
                    0 <= k < cs0.len() ==> #[trigger] self.campaigns@[k] == if ids.subrange(
                        0,
                        i as int,
                    ).contains(k as CampaignId) {
                        swept(cs0[k], now)
                    } else {
                        cs0[k]
                    },
                kept@ == ids.subrange(0, i as int).filter(keep),
                !changed ==> kept@ == ids.subrange(0, i as int),
                self.events@ == events0 + sweep_events(ids.subrange(0, i as int), cs0, now),
            decreases n - i,
        {
            let id = self.active.ids[i];
            let idx = id as usize;
            let ghost prefix = ids.subrange(0, i as int);
            let ghost next = ids.subrange(0, i + 1);
            proof {
                assert(next.drop_last() =~= prefix);
                assert(next.last() == id);
                if prefix.contains(id) {
                    let j = choose|j: int| 0 <= j < prefix.len() && prefix[j] == id;
                    assert(ids[j] == ids[i as int]);
                }
                reveal(Seq::filter);
            }
            let ghost before = self.campaigns@;
            assert(before[idx as int] == cs0[idx as int]);
            let mut finalize = false;
            if idx < self.campaigns.len() {
                let c = &self.campaigns[idx];
                if c.status == CampaignStatus::Active && now >= c.end {
                    finalize = true;
                }
            }
            if finalize {
                let status = if self.campaigns[idx].matched >= self.campaigns[idx].soft_cap {
                    CampaignStatus::Success
                } else {
                    CampaignStatus::Failed
                };
                self.campaigns[idx].status = status;
                self.events.push(Event::CampaignFinalized { campaign_id: id, status });
                changed = true;
                proof {
                    assert(!keep(id));
                    assert(kept@ == next.filter(keep));
                    assert(self.events@ =~= events0 + sweep_events(next, cs0, now));
                }
            } else {
                kept.push(id);
                proof {
                    assert(keep(id));
                    assert(kept@ == next.filter(keep));
                    assert(self.events@ =~= events0 + sweep_events(next, cs0, now));
                }
            }
            proof {
                assert forall|k: int| 0 <= k < cs0.len() implies #[trigger] self.campaigns@[k]
                    == if next.contains(k as CampaignId) {
                        swept(cs0[k], now)
                    } else {
                        cs0[k]
                    } by {
                    lemma_push_contains(prefix, id, k as CampaignId);
                    assert(next == prefix.push(id));
                    if k == idx as int {
                        assert(!prefix.contains(id));
                    }
                }
                if !changed {
                    assert(kept@ =~= next);
                }
            }
            i = i + 1;
        }
        proof {
            assert(ids.subrange(0, n as int) =~= ids);
        }
        if changed {
            self.active.ids = kept;
        }
        proof {
            broadcast use vstd::seq_lib::group_filter_ensures;
            lemma_filter_no_duplicates(ids, keep);
            let cs = self.campaigns@;
            let nids = self.active.ids@;
            assert(nids == ids.filter(keep));
            assert forall|j: int| 0 <= j < nids.len() implies (#[trigger] nids[j]) < cs.len() by {
                ids.lemma_filter_contains_rev(keep, nids[j]);
            }
            assert forall|k: int|
                0 <= k < cs.len() implies (nids.contains(k as CampaignId) <==> (
            #[trigger] cs[k]).status is Active) by {
                if nids.contains(k as CampaignId) {
                    ids.lemma_filter_contains_rev(keep, k as CampaignId);
                }
                if cs[k].status is Active {
                    assert(cs0[k].status is Active);
                    let j = choose|j: int| 0 <= j < ids.len() && ids[j] == k as CampaignId;
                    assert(keep(ids[j]));
                }
            }
            assert forall|k: int| 0 <= k < cs.len() implies record_ok(
                #[trigger] cs[k],
                self.config,
            ) by {
                assert(record_ok(cs0[k], self.config));
            }
        }
    }

    /// No room is left in the active set.
    pub open spec fn active_set_full(&self) -> bool {
        self.active.ids@.len() >= self.active.capacity
    }

    /// The outcome `create_campaign` owes before the deposit is held: the
    /// owner and the initial status, or the error. Whether the active set has
    /// room is asked only once the deposit is held.
    pub open spec fn check_create(
        &self,
        origin: Origin,
        start: Moment,
        end: Moment,
        soft_cap: Balance,
        hard_cap: Balance,
        now: Moment,
    ) -> Result<(AccountId, CampaignStatus), DispatchError> {
        match signer(origin) {
            None => Err(DispatchError::BadOrigin),
            Some(owner) => if !(start < end) {
                Err(DispatchError::Module(Error::InvalidTimeRange))
            } else if !caps_valid(soft_cap, hard_cap) {
                Err(DispatchError::Module(Error::CapsInvalid))
            } else {
                match initial_status(start, end, now) {
                    None => Err(DispatchError::Module(Error::InvalidTimeRange)),
                    Some(status) => Ok((owner, status)),
                }
            },
        }
    }

    /// `after` is `before` with the new campaign `(owner, metadata, ...)`
    /// stored under the next identifier, in the active set when `status` is
    /// `Active`.
    pub open spec fn created(
        before: Pallet,
        after: Pallet,
        owner: AccountId,
        metadata: Metadata,
        start: Moment,
        end: Moment,
        soft_cap: Balance,
        hard_cap: Balance,
        status: CampaignStatus,
    ) -> bool {
        &&& after.campaigns@ == before.campaigns@.push(
            (Campaign { owner, metadata, start, end, soft_cap, hard_cap, matched: 0, status }),
        )
        &&& after.active.ids@ == if status is Active {
            before.active.ids@.push(before.next_id())
        } else {
            before.active.ids@
        }
        &&& after.events@ == before.events@.push(
            Event::CampaignCreated { campaign_id: before.next_id(), owner },
        )
        &&& after.contributions == before.contributions
        &&& after.config == before.config
    }

    /// Checks a creation before the deposit is held; returns the owner and the
    /// initial status.
    fn validate_create(
        &self,
        origin: Origin,
        start: Moment,
        end: Moment,
        soft_cap: Balance,
        hard_cap: Balance,
        now: Moment,
    ) -> (r: Result<(AccountId, CampaignStatus), DispatchError>)
        ensures
            r == self.check_create(origin, start, end, soft_cap, hard_cap, now),
    {
        let owner = match origin {
            Origin::Signed(who) => who,
            _ => {
                return Err(DispatchError::BadOrigin);
            },
        };
        if !(start < end) {
            return Err(DispatchError::Module(Error::InvalidTimeRange));
        }
        if !(soft_cap <= hard_cap) || soft_cap == 0 || hard_cap == 0 {
            return Err(DispatchError::Module(Error::CapsInvalid));
        }
        let status = if now < start {
            CampaignStatus::Upcoming
        } else if now <= end {
            CampaignStatus::Active
        } else {
            return Err(DispatchError::Module(Error::InvalidTimeRange));
        };
        Ok((owner, status))
    }

    /// The hold a creation asks of the ledger: the configured deposit, from
    /// the signer; or the error that refuses the creation.
    pub fn creation_hold(
        &self,
        origin: Origin,
        start: Moment,
        end: Moment,
        soft_cap: Balance,
        hard_cap: Balance,
        now: Moment,
    ) -> (r: Result<(AccountId, Balance), DispatchError>)
        ensures
            match self.check_create(origin, start, end, soft_cap, hard_cap, now) {
                Err(e) => r == Err::<(AccountId, Balance), DispatchError>(e),
                Ok((owner, _)) => r == Ok::<(AccountId, Balance), DispatchError>(
                    (owner, self.config.minimum_deposit),
                ),
            },
    {
        let (owner, _) = self.validate_create(origin, start, end, soft_cap, hard_cap, now)?;
        Ok((owner, self.config.minimum_deposit))
    }

    /// Stores a new campaign once the ledger has answered the hold of the
    /// deposit with `held`: nothing changes when the hold failed.
    pub fn create_campaign_with_hold(
        &mut self,
        origin: Origin,
        metadata: Metadata,
        start: Moment,
        end: Moment,
        soft_cap: Balance,
        hard_cap: Balance,
        now: Moment,
        held: Result<(), LedgerError>,
    ) -> (r: DispatchResult)
        requires
            old(self).wf(),
            metadata_fits(metadata, old(self).config),
            old(self).campaigns@.len() < u32::MAX,
        ensures
            final(self).wf(),
            old(self).balanced() ==> final(self).balanced(),
            match old(self).check_create(origin, start, end, soft_cap, hard_cap, now) {
                Err(e) => r == Err::<(), DispatchError>(e) && *final(self) == *old(self),
                Ok((owner, status)) => match held {
                    Err(e) => r == Err::<(), DispatchError>(DispatchError::Ledger(e))
                        && *final(self) == *old(self),
                    Ok(()) => if status is Active && old(self).active_set_full() {
                        r == refused(Error::TooManyActiveCampaigns) && *final(self) == *old(self)
                    } else {
                        r is Ok && Pallet::created(
                            *old(self),
                            *final(self),
                            owner,
                            metadata,
                            start,
                            end,
                            soft_cap,
                            hard_cap,
                            status,
                        )
                    },
                },
            },
    {
        let (owner, status) = self.validate_create(origin, start, end, soft_cap, hard_cap, now)?;
        if let Err(e) = held {
            return Err(DispatchError::Ledger(e));
        }
        let is_active = status == CampaignStatus::Active;
        let campaign_id = self.campaigns.len() as CampaignId;
        let ghost old_ids = self.active.ids@;
        if is_active {
            proof {
                if old_ids.contains(campaign_id) {
                    let j = choose|j: int| 0 <= j < old_ids.len() && old_ids[j] == campaign_id;
                    assert(old_ids[j] < campaign_id);
                }
            }
            if let Err(e) = self.active.try_insert(campaign_id) {
                return Err(DispatchError::Module(e));
            }
        }
        let campaign = Campaign {
            owner,
            metadata,
            start,
            end,
            soft_cap,
            hard_cap,
            matched: 0,
            status,
        };
        self.campaigns.push(campaign);
        self.events.push(Event::CampaignCreated { campaign_id, owner });
        proof {
            let cs = self.campaigns@;
            assert forall|i: int|
                0 <= i < cs.len() implies (self.active.ids@.contains(i as CampaignId) <==> (
            #[trigger] cs[i]).status is Active) by {
                if i < cs.len() - 1 {
                    assert(cs[i] == old(self).campaigns@[i]);
                    if is_active {
                        lemma_push_contains(old_ids, campaign_id, i as CampaignId);
                    }
                } else {
                    if is_active {
                        assert(self.active.ids@[old_ids.len() as int] == campaign_id);
                    } else {
                        if self.active.ids@.contains(i as CampaignId) {
                            let j = choose|j: int|
                                0 <= j < old_ids.len() && old_ids[j] == i as CampaignId;
                            assert(old_ids[j] < old(self).campaigns@.len());
                        }
                    }
                }
            }
        }
        Ok(())
    }

    /// Creates a campaign owned by the signer, holding the configured deposit
    /// from it. A campaign whose start has come is active at once. The ledger
    /// is asked for the hold that `creation_hold` names; when the active set
    /// then has no room, the same amount is released and the creation fails.
    pub fn create_campaign<C: Currency>(
        &mut self,
        origin: Origin,
        metadata: Metadata,
        start: Moment,
        end: Moment,
        soft_cap: Balance,
        hard_cap: Balance,
        now: Moment,
        currency: &mut C,
    ) -> (r: DispatchResult)
        requires
            old(self).wf(),
            metadata_fits(metadata, old(self).config),
            old(self).campaigns@.len() < u32::MAX,
        ensures
            final(self).wf(),
            old(self).balanced() ==> final(self).balanced(),
            match old(self).check_create(origin, start, end, soft_cap, hard_cap, now) {
                Err(e) => r == Err::<(), DispatchError>(e) && *final(self) == *old(self)
                    && *final(currency) == *old(currency),
                Ok((owner, status)) => {
                    &&& r is Err ==> *final(self) == *old(self) && ((r matches Err(
                        DispatchError::Ledger(_),
                    )) || (r == refused(Error::TooManyActiveCampaigns) && status is Active
                        && old(self).active_set_full()))
                    &&& status is Active && old(self).active_set_full() ==> r is Err
                    &&& r is Ok ==> Pallet::created(
                        *old(self),
                        *final(self),
                        owner,
                        metadata,
                        start,
                        end,
                        soft_cap,
                        hard_cap,
                        status,
                    )
                },
            },
    {
        let (owner, deposit) = self.creation_hold(origin, start, end, soft_cap, hard_cap, now)?;
        let held = currency.reserve(owner, deposit);
        let held_ok = match held {
            Ok(()) => true,
            Err(_) => false,
        };
        let r = self.create_campaign_with_hold(
            origin,
            metadata,
            start,
            end,
            soft_cap,
            hard_cap,
            now,
            held,
        );
        if held_ok && r.is_err() {
            // The active set had no room: the creation is rolled back.
            currency.unreserve(owner, deposit);
        }
        r
    }

    /// The campaign with identifier `campaign_id`, if there is one.
    pub fn campaigns(&self, campaign_id: CampaignId) -> (r: Option<&Campaign>)
        ensures
            r matches Some(c) ==> self.campaign(campaign_id) == Some(*c),
            r is None <==> self.campaign(campaign_id) is None,
    {
        let i = campaign_id as usize;
        if i < self.campaigns.len() {
            Some(&self.campaigns[i])
        } else {
            None
        }
    }

    /// What `who` has put into campaign `campaign_id` and not taken back.
    pub fn campaign_contributions(&self, campaign_id: CampaignId, who: AccountId) -> (r: Balance)
        requires
            self.wf(),
        ensures
            r == self.contributions.amount(campaign_id, who),
    {
        self.contributions.get(campaign_id, who)
    }

    /// The identifier the next campaign receives.
    pub fn next_campaign_id(&self) -> (r: CampaignId)
        requires
            self.wf(),
        ensures
            r == self.next_id(),
    {
        self.campaigns.len() as CampaignId
    }

    /// The identifiers of the active campaigns, in order of insertion.
    pub fn active_campaigns(&self) -> (r: &Vec<CampaignId>)
        ensures
            r@ == self.active.ids@,
    {
        &self.active.ids
    }

    /// The events emitted so far, oldest first.
    pub fn events(&self) -> (r: &Vec<Event>)
        ensures
            r@ == self.events@,
    {
        &self.events
    }
}

/// Every stored campaign has non-zero caps with the soft cap at most the hard
/// cap; each operation keeps the invariant that says so.
pub proof fn caps_always_valid(p: Pallet, id: CampaignId)
    requires
        p.wf(),
        p.campaign(id) is Some,
    ensures
        caps_valid(p.campaign(id)->0.soft_cap, p.campaign(id)->0.hard_cap),
{
    assert(record_ok(p.campaigns@[id as int], p.config));
}

/// No campaign has matched more than its hard cap.
pub proof fn matched_within_hard_cap(p: Pallet, id: CampaignId)
    requires
        p.wf(),
        p.campaign(id) is Some,
    ensures
        p.campaign(id)->0.matched <= p.campaign(id)->0.hard_cap,
{
    assert(record_ok(p.campaigns@[id as int], p.config));
}

/// In a balanced registry the ledger records of a campaign that cannot be
/// refunded sum to its matched amount. Every operation keeps the registry
/// balanced, except a contribution whose matched amount was clamped at the
/// largest balance.
pub proof fn contributions_sum_to_matched(p: Pallet, id: CampaignId)
    requires
        p.wf(),
        p.balanced(),
        p.campaign(id) is Some,
        !refundable(p.campaign(id)->0.status),
    ensures
        p.contributions.total(id) == p.campaign(id)->0.matched,
{
    assert(!refundable(p.campaigns@[id as int].status));
}

/// A campaign is in the active set exactly when its status is `Active`.
pub proof fn active_set_tracks_status(p: Pallet, id: CampaignId)
    requires
        p.wf(),
        p.campaign(id) is Some,
    ensures
        p.active.ids@.contains(id) <==> p.campaign(id)->0.status is Active,
{
    assert(p.campaigns@[id as int] == p.campaign(id)->0);
}

/// After a successful refund the same account's next claim on the same
/// campaign fails with `NoContributionFound`.
pub proof fn refund_is_exactly_once(before: Pallet, after: Pallet, origin: Origin, id: CampaignId)
    requires
        before.check_refund(origin, id) is Ok,
        Pallet::refunded(before, after, id, signer(origin)->0),
    ensures
        after.check_refund(origin, id) == refused(Error::NoContributionFound),
{
}


/// A contribution keeps a campaign's ledger records summing to its matched
/// amount, as long as that sum does not pass the largest balance.
pub proof fn contribution_keeps_campaign_sum(
    before: Pallet,
    after: Pallet,
    id: CampaignId,
    who: AccountId,
    amount: Balance,
)
    requires
        before.campaign(id) is Some,
        before.contributions.total(id) == before.campaign(id)->0.matched,
        before.campaign(id)->0.matched + amount <= u64::MAX,
        Pallet::contributed(before, after, id, who, amount),
    ensures
        after.contributions.total(id) == after.campaign(id)->0.matched,
{
    before.contributions.lemma_amount_within_total(id, who);
    assert(after.campaigns@[id as int] == after.campaign(id)->0);
}


/// The sum of `amounts`.
pub open spec fn sum_of(amounts: Seq<Balance>) -> nat
    decreases amounts.len(),
{
    if amounts.len() == 0 {
        0
    } else {
        sum_of(amounts.drop_last()) + amounts.last() as nat
    }
}

/// After a run of contributions by `who` to campaign `id` from a zero record,
/// a refund claim asks the ledger to release exactly their sum.
pub proof fn refund_releases_all_contributed(
    states: Seq<Pallet>,
    id: CampaignId,
    who: AccountId,
    amounts: Seq<Balance>,
)
    requires
        states.len() == amounts.len() + 1,
        states[0].contributions.amount(id, who) == 0,
        sum_of(amounts) <= u64::MAX,
        forall|i: int|
            0 <= i < amounts.len() ==> Pallet::contributed(
                #[trigger] states[i],
                states[i + 1],
                id,
                who,
                amounts[i],
            ),
    ensures
        states.last().contributions.amount(id, who) == sum_of(amounts),
        states.last().wf() && states.last().check_refund(Origin::Signed(who), id) is Ok
            ==> states.last().refund_release_spec(Origin::Signed(who), id) == (
            who,
            sum_of(amounts) as Balance,
        ),
    decreases amounts.len(),
{
    if amounts.len() > 0 {
        let n = amounts.len() - 1;
        assert(sum_of(amounts.drop_last()) <= sum_of(amounts));
        assert forall|i: int| 0 <= i < amounts.drop_last().len() implies Pallet::contributed(
            #[trigger] states.drop_last()[i],
            states.drop_last()[i + 1],
            id,
            who,
            amounts.drop_last()[i],
        ) by {
            assert(Pallet::contributed(states[i], states[i + 1], id, who, amounts[i]));
        }
        refund_releases_all_contributed(states.drop_last(), id, who, amounts.drop_last());
        assert(Pallet::contributed(states[n], states[n + 1], id, who, amounts[n]));
    }
}

} // verus!
