//! An in-memory registry of crowdfunding campaigns: creation with a deposit,
//! time-gated edits, contributions against soft and hard caps, a periodic
//! finalization sweep and refunds, with the bookkeeping proved correct.

pub mod types;
pub mod active_set;
pub mod ledger;
pub mod pallet;

pub use active_set::ActiveSet;
pub use ledger::ContributionLedger;
pub use pallet::{DispatchResult, Pallet};
pub use types::{
    AccountId, Balance, Campaign, CampaignId, CampaignStatus, Config, Currency, DispatchError,
    Error, Event, LedgerError, Metadata, Moment, Origin,
};
