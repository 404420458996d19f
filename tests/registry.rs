use std::collections::HashMap;

use project_registry::{
    AccountId, Balance, CampaignStatus, Config, Currency, DispatchError, Error, Event, LedgerError, Metadata,
    Origin, Pallet,
};

/// A balance ledger with free and reserved funds per account.
struct Balances {
    accounts: HashMap<AccountId, (Balance, Balance)>,
}

impl Balances {
    fn deposit_creating(&mut self, who: AccountId, amount: Balance) {
        self.accounts.entry(who).or_insert((0, 0)).0 += amount;
    }

    fn free_balance(&self, who: AccountId) -> Balance {
        self.accounts.get(&who).map(|a| a.0).unwrap_or(0)
    }

    fn reserved_balance(&self, who: AccountId) -> Balance {
        self.accounts.get(&who).map(|a| a.1).unwrap_or(0)
    }
}

impl Currency for Balances {
    fn reserve(&mut self, who: AccountId, amount: Balance) -> Result<(), LedgerError> {
        let account = self.accounts.entry(who).or_insert((0, 0));
        if account.0 < amount {
            return Err(LedgerError::InsufficientBalance);
        }
        account.0 -= amount;
        account.1 += amount;
        Ok(())
    }

    fn unreserve(&mut self, who: AccountId, amount: Balance) -> Balance {
        let account = self.accounts.entry(who).or_insert((0, 0));
        let actual = amount.min(account.1);
        account.1 -= actual;
        account.0 += actual;
        amount - actual
    }
}

fn test_config() -> Config {
    Config {
        max_name_len: 50,
        max_desc_len: 1000,
        max_link_len: 200,
        max_active: 100,
        minimum_deposit: 100,
    }
}

fn new_test_ext() -> (Pallet, Balances) {
    (Pallet::new(test_config()), Balances { accounts: HashMap::new() })
}

fn metadata(name: &str, description: &str, link: Option<&str>) -> Metadata {
    Metadata {
        name: name.as_bytes().to_vec(),
        description: description.as_bytes().to_vec(),
        link: link.map(|l| l.as_bytes().to_vec()),
    }
}

fn signed(who: AccountId) -> Origin {
    Origin::Signed(who)
}

fn module(e: Error) -> Result<(), DispatchError> {
    Err(DispatchError::Module(e))
}

/// Creates campaign 0 of account 1 at time 100 with soft cap 500 and hard cap 1000.
fn setup_campaign(start: u64, end: u64) -> (Pallet, Balances) {
    let (mut registry, mut balances) = new_test_ext();
    balances.deposit_creating(1, 1000);
    balances.deposit_creating(2, 1000);
    let r = registry.create_campaign(
        signed(1),
        metadata("Test", "Desc", None),
        start,
        end,
        500,
        1000,
        100,
        &mut balances,
    );
    assert_eq!(r, Ok(()));
    (registry, balances)
}

#[test]
fn create_campaign_works() {
    let (mut registry, mut balances) = new_test_ext();
    let owner = 1;
    balances.deposit_creating(owner, 1000);
    let md = metadata("Test Campaign", "Description", Some("https://example.com"));

    let r = registry.create_campaign(signed(owner), md, 200, 300, 500, 1000, 100, &mut balances);
    assert_eq!(r, Ok(()));

    let campaign = registry.campaigns(0).unwrap();
    assert_eq!(campaign.owner, owner);
    assert_eq!(campaign.status, CampaignStatus::Upcoming);
    assert_eq!(campaign.soft_cap, 500);
    assert_eq!(campaign.hard_cap, 1000);
    assert!(registry.events().contains(&Event::CampaignCreated { campaign_id: 0, owner }));
}

#[test]
fn create_campaign_validates_caps() {
    let (mut registry, mut balances) = new_test_ext();
    let owner = 1;
    balances.deposit_creating(owner, 1000);
    let md = metadata("Test", "Desc", None);

    let r = registry.create_campaign(signed(owner), md.clone(), 200, 300, 1000, 500, 100, &mut balances);
    assert_eq!(r, module(Error::CapsInvalid));
    assert!(registry.campaigns(0).is_none());
    assert_eq!(registry.next_campaign_id(), 0);
    assert!(registry.events().is_empty());
    assert_eq!(balances.free_balance(owner), 1000);
}

#[test]
fn contribute_works() {
    let (mut registry, mut balances) = setup_campaign(50, 300);
    let contributor = 2;

    assert_eq!(registry.contribute(signed(contributor), 0, 200, &mut balances), Ok(()));

    let campaign = registry.campaigns(0).unwrap();
    assert_eq!(campaign.matched, 200);
    assert!(registry.events().contains(&Event::ContributionMade {
        campaign_id: 0,
        who: contributor,
        amount: 200,
    }));
}

#[test]
fn cancel_campaign_works() {
    let (mut registry, mut balances) = setup_campaign(200, 300);

    assert_eq!(registry.cancel_campaign(signed(1), 0, &mut balances), Ok(()));

    let campaign = registry.campaigns(0).unwrap();
    assert_eq!(campaign.status, CampaignStatus::Cancelled);
    assert!(registry.events().contains(&Event::CampaignCancelled { campaign_id: 0 }));
}

#[test]
fn claim_refund_works() {
    let (mut registry, mut balances) = setup_campaign(50, 300);
    let contributor = 2;

    assert_eq!(registry.contribute(signed(contributor), 0, 200, &mut balances), Ok(()));
    assert_eq!(registry.cancel_campaign(signed(1), 0, &mut balances), Ok(()));

    assert_eq!(registry.claim_refund(signed(contributor), 0, &mut balances), Ok(()));

    assert_eq!(registry.campaign_contributions(0, contributor), 0);
    assert!(registry.events().contains(&Event::RefundClaimed {
        campaign_id: 0,
        who: contributor,
        amount: 200,
    }));
}

#[test]
fn update_metadata_works() {
    let (mut registry, _balances) = setup_campaign(200, 300);
    let new_metadata = metadata("Updated Test", "Updated Desc", Some("https://test.com"));

    assert_eq!(registry.update_metadata(signed(1), 0, new_metadata.clone()), Ok(()));

    let campaign = registry.campaigns(0).unwrap();
    assert_eq!(campaign.metadata.name, new_metadata.name);
    assert_eq!(campaign.metadata.description, new_metadata.description);
    assert_eq!(campaign.metadata.link, new_metadata.link);
    assert!(registry.events().contains(&Event::MetadataUpdated { campaign_id: 0 }));
}

#[test]
fn lifecycle_transitions_work() {
    let (mut registry, mut balances) = setup_campaign(50, 150);

    assert_eq!(registry.contribute(signed(2), 0, 600, &mut balances), Ok(()));

    registry.on_initialize(200);

    let campaign = registry.campaigns(0).unwrap();
    assert_eq!(campaign.status, CampaignStatus::Success);
    assert!(registry.events().contains(&Event::CampaignFinalized {
        campaign_id: 0,
        status: CampaignStatus::Success,
    }));
}
