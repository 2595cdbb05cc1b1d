//! The proposal store: a small CRUD collection outside consensus.

use vstd::prelude::*;

verus! {

/// Where a proposal stands.
#[derive(Clone, Copy, Debug, PartialEq, Eq, Structural)]
pub enum ProposalStatus {
    Active,
    Passed,
    Rejected,
}

/// One governance proposal.
#[derive(Clone, Debug)]
pub struct Proposal {
    pub id: u64,
    pub title: String,
    pub description: String,
    pub votes_yes: u64,
    pub votes_no: u64,
    pub status: ProposalStatus,
}

/// The proposal store: proposals in creation order, ids strictly increasing.
pub struct NeuroDAO {
    proposals: Vec<Proposal>,
    next_id: u64,
}

impl NeuroDAO {
    /// The stored proposals, in creation order.
    pub closed spec fn view(&self) -> Seq<Proposal> {
        self.proposals@
    }

    /// The id the next proposal will get.
    pub closed spec fn spec_next_id(&self) -> u64 {
        self.next_id
    }

    /// Well-formedness: ids run strictly increasing and below the next id.
    pub open spec fn wf(&self) -> bool {
        &&& forall|i: int, j: int|
            0 <= i < j < self.view().len() ==> #[trigger] self.view()[i].id < #[trigger] self.view()[j].id
        &&& forall|i: int| 0 <= i < self.view().len() ==> #[trigger] self.view()[i].id < self.spec_next_id()
        &&& self.spec_next_id() >= 1
    }

    /// An empty store; ids start at one.
    pub fn new() -> (r: NeuroDAO)
        ensures
            r.view() == Seq::<Proposal>::empty(),
            r.spec_next_id() == 1,
            r.wf(),
    {
        let d = NeuroDAO { proposals: Vec::new(), next_id: 1 };
        proof {
            assert(d.view() =~= Seq::<Proposal>::empty());
        }
        d
    }

    /// Files a new active proposal under the next id and returns that id.
    pub fn create_proposal(&mut self, title: String, description: String) -> (id: u64)
        requires
            old(self).wf(),
            old(self).spec_next_id() < u64::MAX,
        ensures
            final(self).wf(),
            id == old(self).spec_next_id(),
            final(self).spec_next_id() == old(self).spec_next_id() + 1,
            final(self).view().len() == old(self).view().len() + 1,
            final(self).view().take(old(self).view().len() as int) == old(self).view(),
            ({
                let p = final(self).view().last();
                &&& p.id == id
                &&& p.title@ == title@
                &&& p.description@ == description@
                &&& p.votes_yes == 0
                &&& p.votes_no == 0
                &&& p.status == ProposalStatus::Active
            }),
    {
        let id = self.next_id;
        self.next_id = id + 1;
        let p = Proposal {
            id,
            title,
            description,
            votes_yes: 0,
            votes_no: 0,
            status: ProposalStatus::Active,
        };
        self.proposals.push(p);
        proof {
            assert(final(self).view().take(old(self).view().len() as int) =~= old(self).view());
        }
        id
    }

    /// The proposals, for listing.
    pub fn list_proposals(&self) -> (r: &Vec<Proposal>)
        ensures
            r@ == self.view(),
    {
        &self.proposals
    }
}

} // verus!
