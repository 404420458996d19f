use vstd::prelude::*;

use crate::types::{CampaignId, Error};

verus! {

/// The identifiers of the campaigns that are active, in order of insertion,
/// never more than a fixed capacity.
pub struct ActiveSet {
    pub ids: Vec<CampaignId>,
    pub capacity: u32,
}

/// Keeping only what `pred` accepts leaves no duplicate where there was none.
pub proof fn lemma_filter_no_duplicates(s: Seq<CampaignId>, pred: spec_fn(CampaignId) -> bool)
    requires
        s.no_duplicates(),
    ensures
        s.filter(pred).no_duplicates(),
    decreases s.len(),
{
    reveal(Seq::filter);
    if s.len() > 0 {
        let init = s.drop_last();
        assert(init.no_duplicates());
        lemma_filter_no_duplicates(init, pred);
        if pred(s.last()) {
            if init.filter(pred).contains(s.last()) {
                init.lemma_filter_contains_rev(pred, s.last());
            }
        }
    }
}

impl ActiveSet {
    /// Within capacity and without a repeated identifier.
    pub open spec fn wf(&self) -> bool {
        &&& self.ids@.len() <= self.capacity
        &&& self.ids@.no_duplicates()
    }

    pub fn new(capacity: u32) -> (r: ActiveSet)
        ensures
            r.wf(),
            r.ids@ == Seq::<CampaignId>::empty(),
            r.capacity == capacity,
    {
        ActiveSet { ids: Vec::new(), capacity }
    }

    pub fn len(&self) -> (r: usize)
        ensures
            r == self.ids@.len(),
    {
        self.ids.len()
    }

    /// Appends `id`, or fails when the set is full.
    pub fn try_insert(&mut self, id: CampaignId) -> (r: Result<(), Error>)
        requires
            old(self).wf(),
            !old(self).ids@.contains(id),
        ensures
            final(self).wf(),
            final(self).capacity == old(self).capacity,
            old(self).ids@.len() < old(self).capacity ==> r is Ok && final(self).ids@ == old(
                self,
            ).ids@.push(id),
            old(self).ids@.len() >= old(self).capacity ==> r == Err::<(), Error>(
                Error::TooManyActiveCampaigns,
            ) && *final(self) == *old(self),
    {
        if (self.ids.len() as u64) < (self.capacity as u64) {
            self.ids.push(id);
            Ok(())
        } else {
            Err(Error::TooManyActiveCampaigns)
        }
    }

    /// Drops `id`; nothing changes when it is absent.
    pub fn remove(&mut self, id: CampaignId)
        requires
            old(self).wf(),
        ensures
            final(self).wf(),
            final(self).capacity == old(self).capacity,
            final(self).ids@ == old(self).ids@.filter(|x: CampaignId| x != id),
    {
        let ghost pred = |x: CampaignId| x != id;
        let mut kept: Vec<CampaignId> = Vec::new();
        let mut i: usize = 0;
        while i < self.ids.len()
            invariant
                i <= self.ids@.len(),
                kept@ == self.ids@.subrange(0, i as int).filter(pred),
                pred == (|x: CampaignId| x != id),
            decreases self.ids@.len() - i,
        {
            if self.ids[i] != id {
                kept.push(self.ids[i]);
            }
            proof {
                reveal(Seq::filter);
                let next = self.ids@.subrange(0, i + 1);
                assert(next.drop_last() =~= self.ids@.subrange(0, i as int));
                assert(next.last() == self.ids@[i as int]);
            }
            i = i + 1;
        }
        proof {
            assert(self.ids@.subrange(0, self.ids@.len() as int) =~= self.ids@);
            lemma_filter_no_duplicates(self.ids@, pred);
            self.ids@.lemma_filter_len(pred);
        }
        self.ids = kept;
    }
}

} // verus!
