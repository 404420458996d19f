use vstd::prelude::*;

verus! {

/// Identifier of a campaign; allocated in increasing order from zero.
pub type CampaignId = u32;

/// Identifier of an account.
pub type AccountId = u64;

/// An amount of funds.
pub type Balance = u64;

/// A point in time.
pub type Moment = u64;

/// Descriptive data of a campaign; the registry only bounds its lengths.
#[derive(Clone, Debug, PartialEq, Eq)]
pub struct Metadata {
    pub name: Vec<u8>,
    pub description: Vec<u8>,
    pub link: Option<Vec<u8>>,
}

#[derive(Clone, Copy, Debug, PartialEq, Eq, Structural)]
pub enum CampaignStatus {
    Upcoming,
    Active,
    Success,
    Failed,
    Cancelled,
}

/// One funding initiative.
#[derive(Clone, Debug, PartialEq, Eq)]
pub struct Campaign {
    pub owner: AccountId,
    pub metadata: Metadata,
    pub start: Moment,
    pub end: Moment,
    pub soft_cap: Balance,
    pub hard_cap: Balance,
    pub matched: Balance,
    pub status: CampaignStatus,
}

/// The registry's fixed parameters.
#[derive(Clone, Copy, Debug, PartialEq, Eq, Structural)]
pub struct Config {
    /// Longest accepted campaign name, in bytes.
    pub max_name_len: u32,
    /// Longest accepted description, in bytes.
    pub max_desc_len: u32,
    /// Longest accepted link, in bytes.
    pub max_link_len: u32,
    /// Most campaigns that may be active at once.
    pub max_active: u32,
    /// Deposit held from a campaign's creator.
    pub minimum_deposit: Balance,
}

/// Who submits an operation.
#[derive(Clone, Copy, Debug, PartialEq, Eq, Structural)]
pub enum Origin {
    /// An ordinary account.
    Signed(AccountId),
    /// The administrative authority.
    Root,
    /// No identity at all.
    Unsigned,
}

/// Notifications of state changes.
#[derive(Clone, Copy, Debug, PartialEq, Eq, Structural)]
pub enum Event {
    CampaignCreated { campaign_id: CampaignId, owner: AccountId },
    MetadataUpdated { campaign_id: CampaignId },
    CapsUpdated { campaign_id: CampaignId, soft_cap: Balance, hard_cap: Balance },
    CampaignCancelled { campaign_id: CampaignId },
    ContributionMade { campaign_id: CampaignId, who: AccountId, amount: Balance },
    CampaignFinalized { campaign_id: CampaignId, status: CampaignStatus },
    RefundClaimed { campaign_id: CampaignId, who: AccountId, amount: Balance },
}

/// Reasons for which the registry rejects an operation.
#[derive(Clone, Copy, Debug, PartialEq, Eq, Structural)]
pub enum Error {
    CampaignNotFound,
    NotOwner,
    InvalidTimeRange,
    CapsInvalid,
    NotActive,
    HardCapExceeded,
    AlreadyFinalized,
    NoContributionFound,
    TooManyActiveCampaigns,
    NotRefundable,
}

/// Outcome of a rejected operation.
#[derive(Clone, Copy, Debug, PartialEq, Eq, Structural)]
pub enum DispatchError {
    /// The origin is not allowed to submit the operation.
    BadOrigin,
    /// The registry's own rules refused it.
    Module(Error),
    /// The balance ledger refused to place a hold.
    Ledger(LedgerError),
}

/// Why the balance ledger refuses a hold.
#[derive(Clone, Copy, Debug, PartialEq, Eq, Structural)]
pub enum LedgerError {
    /// The free balance is smaller than the amount.
    InsufficientBalance,
    /// Part of the free balance is locked and cannot be held.
    LiquidityRestrictions,
}

/// The balance ledger that holds and releases funds.
pub trait Currency {
    /// Places a hold of `amount` on the free balance of `who`.
    fn reserve(&mut self, who: AccountId, amount: Balance) -> Result<(), LedgerError>;

    /// Releases up to `amount` held from `who`; returns what could not be released.
    fn unreserve(&mut self, who: AccountId, amount: Balance) -> Balance;
}

/// Both caps are non-zero and the soft cap does not exceed the hard cap.
pub open spec fn caps_valid(soft_cap: Balance, hard_cap: Balance) -> bool {
    0 < soft_cap <= hard_cap
}

/// Every field of the metadata is within the configured length.
pub open spec fn metadata_fits(m: Metadata, config: Config) -> bool {
    &&& m.name@.len() <= config.max_name_len
    &&& m.description@.len() <= config.max_desc_len
    &&& match m.link {
        Some(l) => l@.len() <= config.max_link_len,
        None => true,
    }
}

/// The status a campaign starts in when created at `now`, if it may be created.
pub open spec fn initial_status(start: Moment, end: Moment, now: Moment) -> Option<CampaignStatus> {
    if now < start {
        Some(CampaignStatus::Upcoming)
    } else if now <= end {
        Some(CampaignStatus::Active)
    } else {
        None
    }
}

/// The terminal status a campaign reaches when its time is over.
pub open spec fn final_status(matched: Balance, soft_cap: Balance) -> CampaignStatus {
    if matched >= soft_cap {
        CampaignStatus::Success
    } else {
        CampaignStatus::Failed
    }
}

impl Config {
    /// Tells whether the lengths of `m` are within this configuration.
    pub fn metadata_fits(&self, m: &Metadata) -> (r: bool)
        ensures
            r == metadata_fits(*m, *self),
    {
        let link_fits = match &m.link {
            Some(l) => l.len() as u64 <= self.max_link_len as u64,
            None => true,
        };
        m.name.len() as u64 <= self.max_name_len as u64
            && m.description.len() as u64 <= self.max_desc_len as u64 && link_fits
    }
}

impl CampaignStatus {
    /// The campaign can no longer change status.
    pub open spec fn is_terminal(self) -> bool {
        self is Success || self is Failed || self is Cancelled
    }
}

} // verus!
