use vstd::prelude::*;

use crate::types::{AccountId, Balance, CampaignId};

verus! {

/// One record of the ledger: campaign, contributor, accumulated amount.
pub type Entry = (CampaignId, AccountId, Balance);

pub open spec fn same_key(e: Entry, c: CampaignId, w: AccountId) -> bool {
    e.0 == c && e.1 == w
}

/// What the record keyed by `(c, w)` holds, zero when there is none.
pub open spec fn amount_in(s: Seq<Entry>, c: CampaignId, w: AccountId) -> Balance
    decreases s.len(),
{
    if s.len() == 0 {
        0
    } else if same_key(s.last(), c, w) {
        s.last().2
    } else {
        amount_in(s.drop_last(), c, w)
    }
}

/// What `e` counts towards the total of campaign `c`.
pub open spec fn share(e: Entry, c: CampaignId) -> nat {
    if e.0 == c {
        e.2 as nat
    } else {
        0
    }
}

/// The sum of all records of campaign `c`.
pub open spec fn total_in(s: Seq<Entry>, c: CampaignId) -> nat
    decreases s.len(),
{
    if s.len() == 0 {
        0
    } else {
        total_in(s.drop_last(), c) + share(s.last(), c)
    }
}

/// No two records share a key.
pub open spec fn keys_unique(s: Seq<Entry>) -> bool {
    forall|i: int, j: int| 0 <= i < j < s.len() ==> !same_key(s[j], s[i].0, s[i].1)
}

/// `a + b`, clamped at the largest balance.
pub open spec fn saturating_sum(a: Balance, b: Balance) -> Balance {
    if a + b > u64::MAX {
        u64::MAX
    } else {
        (a + b) as Balance
    }
}

proof fn lemma_amount_absent(s: Seq<Entry>, c: CampaignId, w: AccountId)
    requires
        forall|i: int| 0 <= i < s.len() ==> !same_key(#[trigger] s[i], c, w),
    ensures
        amount_in(s, c, w) == 0,
    decreases s.len(),
{
    if s.len() > 0 {
        lemma_amount_absent(s.drop_last(), c, w);
    }
}

proof fn lemma_amount_at(s: Seq<Entry>, k: int)
    requires
        keys_unique(s),
        0 <= k < s.len(),
    ensures
        amount_in(s, s[k].0, s[k].1) == s[k].2,
    decreases s.len(),
{
    if k < s.len() - 1 {
        assert(!same_key(s.last(), s[k].0, s[k].1));
        assert(s.drop_last()[k] == s[k]);
        lemma_amount_at(s.drop_last(), k);
    }
}

proof fn lemma_update_other(s: Seq<Entry>, k: int, e: Entry, c: CampaignId, w: AccountId)
    requires
        0 <= k < s.len(),
        !same_key(s[k], c, w),
        !same_key(e, c, w),
    ensures
        amount_in(s.update(k, e), c, w) == amount_in(s, c, w),
    decreases s.len(),
{
    let t = s.update(k, e);
    if k == s.len() - 1 {
        assert(t.drop_last() =~= s.drop_last());
    } else {
        assert(t.drop_last() =~= s.drop_last().update(k, e));
        lemma_update_other(s.drop_last(), k, e, c, w);
    }
}

proof fn lemma_update_total(s: Seq<Entry>, k: int, e: Entry, c: CampaignId)
    requires
        0 <= k < s.len(),
    ensures
        total_in(s.update(k, e), c) + share(s[k], c) == total_in(s, c) + share(e, c),
    decreases s.len(),
{
    let t = s.update(k, e);
    if k == s.len() - 1 {
        assert(t.drop_last() =~= s.drop_last());
    } else {
        assert(t.drop_last() =~= s.drop_last().update(k, e));
        lemma_update_total(s.drop_last(), k, e, c);
    }
}

proof fn lemma_amount_le_total(s: Seq<Entry>, c: CampaignId, w: AccountId)
    ensures
        amount_in(s, c, w) <= total_in(s, c),
    decreases s.len(),
{
    if s.len() > 0 {
        lemma_amount_le_total(s.drop_last(), c, w);
    }
}

/// Accumulated contributions per campaign and contributor.
pub struct ContributionLedger {
    pub entries: Vec<Entry>,
}

impl ContributionLedger {
    pub open spec fn wf(&self) -> bool {
        keys_unique(self.entries@)
    }

    /// What `w` has put into campaign `c` and not taken back.
    pub open spec fn amount(&self, c: CampaignId, w: AccountId) -> Balance {
        amount_in(self.entries@, c, w)
    }

    /// The sum of all records of campaign `c`.
    pub open spec fn total(&self, c: CampaignId) -> nat {
        total_in(self.entries@, c)
    }

    /// One record never exceeds the sum of its campaign's records.
    pub proof fn lemma_amount_within_total(&self, c: CampaignId, w: AccountId)
        ensures
            self.amount(c, w) <= self.total(c),
    {
        lemma_amount_le_total(self.entries@, c, w);
    }

    pub fn new() -> (r: ContributionLedger)
        ensures
            r.wf(),
            forall|c: CampaignId, w: AccountId| #[trigger] r.amount(c, w) == 0,
            forall|c: CampaignId| #[trigger] r.total(c) == 0,
    {
        ContributionLedger { entries: Vec::new() }
    }

    fn find(&self, c: CampaignId, w: AccountId) -> (r: Option<usize>)
        ensures
            match r {
                Some(k) => k < self.entries@.len() && same_key(self.entries@[k as int], c, w),
                None => forall|i: int|
                    0 <= i < self.entries@.len() ==> !same_key(#[trigger] self.entries@[i], c, w),
            },
    {
        let mut i: usize = 0;
        while i < self.entries.len()
            invariant
                i <= self.entries@.len(),
                forall|j: int| 0 <= j < i ==> !same_key(#[trigger] self.entries@[j], c, w),
            decreases self.entries@.len() - i,
        {
            let e = self.entries[i];
            if e.0 == c && e.1 == w {
                return Some(i);
            }
            i = i + 1;
        }
        None
    }

    /// What `w` has put into campaign `c`.
    pub fn get(&self, c: CampaignId, w: AccountId) -> (r: Balance)
        requires
            self.wf(),
        ensures
            r == self.amount(c, w),
    {
        match self.find(c, w) {
            Some(k) => {
                proof {
                    lemma_amount_at(self.entries@, k as int);
                }
                self.entries[k].2
            },
            None => {
                proof {
                    lemma_amount_absent(self.entries@, c, w);
                }
                0
            },
        }
    }

    /// Sets the record of `(c, w)` to `v`, leaving every other record as it was.
    fn put(&mut self, c: CampaignId, w: AccountId, v: Balance)
        requires
            old(self).wf(),
        ensures
            final(self).wf(),
            final(self).amount(c, w) == v,
            forall|c2: CampaignId, w2: AccountId|
                !(c2 == c && w2 == w) ==> #[trigger] final(self).amount(c2, w2) == old(self).amount(
                    c2,
                    w2,
                ),
            final(self).total(c) + old(self).amount(c, w) == old(self).total(c) + v,
            forall|c2: CampaignId|
                c2 != c ==> #[trigger] final(self).total(c2) == old(self).total(c2),
    {
        let ghost s = self.entries@;
        let e: Entry = (c, w, v);
        match self.find(c, w) {
            Some(k) => {
                proof {
                    lemma_amount_at(s, k as int);
                }
                self.entries.set(k, e);
                proof {
                    let t = self.entries@;
                    assert(t == s.update(k as int, e));
                    assert(keys_unique(t));
                    lemma_amount_at(t, k as int);
                    assert forall|c2: CampaignId, w2: AccountId|
                        !(c2 == c && w2 == w) implies #[trigger] amount_in(t, c2, w2) == amount_in(
                        s,
                        c2,
                        w2,
                    ) by {
                        lemma_update_other(s, k as int, e, c2, w2);
                    }
                    lemma_update_total(s, k as int, e, c);
                    assert forall|c2: CampaignId| c2 != c implies #[trigger] total_in(t, c2)
                        == total_in(s, c2) by {
                        lemma_update_total(s, k as int, e, c2);
                    }
                }
            },
            None => {
                proof {
                    lemma_amount_absent(s, c, w);
                }
                self.entries.push(e);
                proof {
                    let t = self.entries@;
                    assert(t.drop_last() =~= s);
                    assert(keys_unique(t));
                }
            },
        }
    }

    /// Adds `amount` to the record of `(c, w)`, clamping at the largest balance.
    pub fn add(&mut self, c: CampaignId, w: AccountId, amount: Balance)
        requires
            old(self).wf(),
        ensures
            final(self).wf(),
            final(self).amount(c, w) == saturating_sum(old(self).amount(c, w), amount),
            forall|c2: CampaignId, w2: AccountId|
                !(c2 == c && w2 == w) ==> #[trigger] final(self).amount(c2, w2) == old(self).amount(
                    c2,
                    w2,
                ),
            final(self).total(c) + old(self).amount(c, w)
                == old(self).total(c) + final(self).amount(c, w),
            forall|c2: CampaignId|
                c2 != c ==> #[trigger] final(self).total(c2) == old(self).total(c2),
    {
        let current = self.get(c, w);
        self.put(c, w, current.saturating_add(amount));
    }

    /// Reads the record of `(c, w)` and resets it to zero.
    pub fn take(&mut self, c: CampaignId, w: AccountId) -> (r: Balance)
        requires
            old(self).wf(),
        ensures
            final(self).wf(),
            r == old(self).amount(c, w),
            final(self).amount(c, w) == 0,
            forall|c2: CampaignId, w2: AccountId|
                !(c2 == c && w2 == w) ==> #[trigger] final(self).amount(c2, w2) == old(self).amount(
                    c2,
                    w2,
                ),
            final(self).total(c) + r == old(self).total(c),
            forall|c2: CampaignId|
                c2 != c ==> #[trigger] final(self).total(c2) == old(self).total(c2),
    {
        let current = self.get(c, w);
        self.put(c, w, 0);
        current
    }
}

} // verus!
