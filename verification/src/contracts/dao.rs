//! Token-weighted governance: proposals, delegated voting, quorum, a
//! timelock before execution, and cancellation by the proposer.
use vstd::prelude::*;
use crate::keymap::{KeyMap, get_or_zero, entries_map, distinct_keys, sum_values};
use crate::text::{str_eq, push_str, push_decimal, decimal};

verus! {

/// Life-cycle of a proposal.
#[derive(Debug, Clone, Copy, PartialEq, Eq, Structural)]
pub enum ProposalState {
    Pending,
    Active,
    Succeeded,
    Defeated,
    Executed,
    Canceled,
}

/// A proposal with its tally and schedule.
pub struct Proposal {
    pub id: u64,
    pub proposer: String,
    pub title: String,
    pub description: String,
    pub for_votes: u64,
    pub against_votes: u64,
    pub abstain_votes: u64,
    pub start_block: u64,
    pub end_block: u64,
    pub eta: u64,
    pub target: String,
    pub value: u64,
    pub call_data: Vec<u8>,
    pub executed: bool,
    pub canceled: bool,
    pub has_voted: KeyMap<String, bool>,
}

/// Governance parameters, balances, delegations and proposals.
pub struct DAOGovernance {
    pub gov_token: String,
    pub proposals: KeyMap<u64, Proposal>,
    pub next_proposal_id: u64,
    pub voting_delay: u64,
    pub voting_period: u64,
    pub proposal_threshold: u64,
    pub quorum_votes: u64,
    pub timelock_delay: u64,
    pub balances: KeyMap<String, u64>,
    pub delegates: KeyMap<String, String>,
}

/// Balance delegated to `a` by the delegations `es`.
pub open spec fn delegated(es: Seq<(String, String)>, bal: Map<Seq<char>, u64>, a: Seq<char>) -> int
    decreases es.len(),
{
    if es.len() == 0 {
        0
    } else {
        delegated(es.drop_last(), bal, a) + if es.last().1@ == a {
            get_or_zero(bal, es.last().0@) as int
        } else {
            0int
        }
    }
}

proof fn lemma_delegated_prefix(es: Seq<(String, String)>, bal: Map<Seq<char>, u64>, a: Seq<char>, i: int)
    requires
        0 <= i <= es.len(),
    ensures
        0 <= delegated(es.take(i), bal, a) <= delegated(es, bal, a),
    decreases es.len() - i,
{
    lemma_delegated_nonneg(es.take(i), bal, a);
    if i < es.len() {
        lemma_delegated_prefix(es, bal, a, i + 1);
        assert(es.take(i + 1).drop_last() == es.take(i));
    } else {
        assert(es.take(i) == es);
    }
}

proof fn lemma_delegated_nonneg(es: Seq<(String, String)>, bal: Map<Seq<char>, u64>, a: Seq<char>)
    ensures
        delegated(es, bal, a) >= 0,
    decreases es.len(),
{
    if es.len() > 0 {
        lemma_delegated_nonneg(es.drop_last(), bal, a);
    }
}

/// The state of a proposal at `block`, given the token supply and quorum
/// (participation in thousandths of the supply).
pub open spec fn state_of(p: Proposal, block: u64, supply: int, quorum: u64) -> ProposalState {
    if p.canceled {
        ProposalState::Canceled
    } else if p.executed {
        ProposalState::Executed
    } else if block <= p.start_block {
        ProposalState::Pending
    } else if block <= p.end_block {
        ProposalState::Active
    } else {
        let total = p.for_votes + p.against_votes + p.abstain_votes;
        let participation = if supply > 0 {
            ((total * 1000) / supply) as u64
        } else {
            0u64
        };
        if participation < quorum {
            ProposalState::Defeated
        } else if p.for_votes > p.against_votes {
            ProposalState::Succeeded
        } else {
            ProposalState::Defeated
        }
    }
}

impl DAOGovernance {
    /// Voting power of `a`: its own balance plus what is delegated to it.
    pub open spec fn votes(&self, a: Seq<char>) -> int {
        get_or_zero(self.balances@, a) + delegated(self.delegates.entries(), self.balances@, a)
    }

    pub open spec fn supply(&self) -> int {
        self.balances.total()
    }

    /// The parameters and everything but `field` stay as in `other`.
    pub open spec fn same_params(&self, other: &Self) -> bool {
        &&& self.gov_token@ == other.gov_token@
        &&& self.voting_delay == other.voting_delay
        &&& self.voting_period == other.voting_period
        &&& self.proposal_threshold == other.proposal_threshold
        &&& self.quorum_votes == other.quorum_votes
        &&& self.timelock_delay == other.timelock_delay
    }

    /// A DAO with the default parameters: voting starts one block after a
    /// proposal, lasts 100 blocks, proposals need 1000 votes, quorum is 40%,
    /// and execution waits 50 blocks.
    pub fn new(gov_token: String) -> (r: Self)
        ensures
            r.gov_token@ == gov_token@,
            r.proposals@ == Map::<u64, Proposal>::empty(),
            r.next_proposal_id == 1,
            r.voting_delay == 1,
            r.voting_period == 100,
            r.proposal_threshold == 1000,
            r.quorum_votes == 400,
            r.timelock_delay == 50,
            r.balances@ == Map::<Seq<char>, u64>::empty(),
            r.delegates@ == Map::<Seq<char>, String>::empty(),
    {
        DAOGovernance {
            gov_token,
            proposals: KeyMap::new(),
            next_proposal_id: 1,
            voting_delay: 1,
            voting_period: 100,
            proposal_threshold: 1000,
            quorum_votes: 400,
            timelock_delay: 50,
            balances: KeyMap::new(),
            delegates: KeyMap::new(),
        }
    }

    /// Credits `amount` governance tokens to `to`.
    pub fn mint(&mut self, to: &str, amount: u64)
        requires
            get_or_zero(old(self).balances@, to@) + amount <= u64::MAX,
        ensures
            final(self).balances@ == old(self).balances@.insert(
                to@,
                (get_or_zero(old(self).balances@, to@) + amount) as u64,
            ),
            final(self).balances.total() == old(self).balances.total() + amount,
            final(self).same_params(old(self)),
            final(self).proposals@ == old(self).proposals@,
            final(self).next_proposal_id == old(self).next_proposal_id,
            final(self).delegates@ == old(self).delegates@,
    {
        let b = self.balances.amount(to);
        self.balances.set_amount(to, b + amount);
    }

    pub fn balance_of(&self, account: &str) -> (r: u64)
        ensures
            r == get_or_zero(self.balances@, account@),
    {
        self.balances.amount(account)
    }

    /// `delegator` hands its voting power to `delegatee` (replacing any earlier choice).
    pub fn delegate(&mut self, delegator: &str, delegatee: &str)
        ensures
            final(self).delegates@.dom() == old(self).delegates@.dom().insert(delegator@),
            final(self).delegates@[delegator@]@ == delegatee@,
            forall|k: Seq<char>| k != delegator@ && #[trigger] old(self).delegates@.contains_key(k)
                ==> final(self).delegates@[k] == old(self).delegates@[k],
            final(self).balances@ == old(self).balances@,
            final(self).same_params(old(self)),
            final(self).proposals@ == old(self).proposals@,
            final(self).next_proposal_id == old(self).next_proposal_id,
    {
        self.delegates.insert(delegator.to_owned(), delegatee.to_owned());
    }

    /// Voting power of `account`.
    pub fn get_votes(&self, account: &str) -> (r: u64)
        requires
            self.votes(account@) <= u64::MAX,
        ensures
            r == self.votes(account@),
    {
        let own_balance = self.balances.amount(account);
        let n = self.delegates.len();
        let mut delegated_balance: u64 = 0;
        let mut i: usize = 0;
        proof {
            lemma_delegated_nonneg(self.delegates.entries(), self.balances@, account@);
        }
        while i < n
            invariant
                n == self.delegates.entries().len(),
                i <= n,
                own_balance == get_or_zero(self.balances@, account@),
                delegated_balance == delegated(
                    self.delegates.entries().take(i as int),
                    self.balances@,
                    account@,
                ),
                own_balance + delegated(self.delegates.entries(), self.balances@, account@)
                    <= u64::MAX,
            decreases n - i,
        {
            let e = self.delegates.entry_at(i);
            proof {
                assert(self.delegates.entries().take(i + 1).drop_last() == self.delegates.entries().take(
                    i as int,
                ));
                lemma_delegated_prefix(self.delegates.entries(), self.balances@, account@, i + 1);
            }
            if str_eq(e.1.as_str(), account) {
                let b = self.balances.amount(e.0.as_str());
                delegated_balance = delegated_balance + b;
            }
            i = i + 1;
        }
        assert(self.delegates.entries().take(n as int) == self.delegates.entries());
        own_balance + delegated_balance
    }

    /// Creates a proposal; `proposer` needs at least `proposal_threshold` votes.
    /// Voting runs from `current_block + voting_delay` for `voting_period` blocks.
    pub fn propose(
        &mut self,
        proposer: &str,
        title: &str,
        description: &str,
        target: &str,
        value: u64,
        call_data: Vec<u8>,
        current_block: u64,
    ) -> (r: Result<u64, String>)
        requires
            old(self).votes(proposer@) <= u64::MAX,
            old(self).votes(proposer@) >= old(self).proposal_threshold ==> {
                &&& old(self).next_proposal_id < u64::MAX
                &&& current_block + old(self).voting_delay + old(self).voting_period <= u64::MAX
            },
        ensures
            final(self).same_params(old(self)),
            final(self).balances@ == old(self).balances@,
            final(self).delegates@ == old(self).delegates@,
            r is Err <==> old(self).votes(proposer@) < old(self).proposal_threshold,
            r matches Err(m) ==> m@ == "需要 "@ + decimal(old(self).proposal_threshold as nat)
                + " 代币才能创建提案，当前只有 "@ + decimal(old(self).votes(proposer@) as nat)
                && final(self).proposals@ == old(self).proposals@ && final(self).next_proposal_id
                == old(self).next_proposal_id,
            r matches Ok(id) ==> {
                let p = final(self).proposals@[id];
                &&& id == old(self).next_proposal_id
                &&& final(self).next_proposal_id == id + 1
                &&& final(self).proposals@.dom() == old(self).proposals@.dom().insert(id)
                &&& forall|k: u64| k != id ==> #[trigger] final(self).proposals@.contains_key(k)
                    ==> final(self).proposals@[k] == old(self).proposals@[k]
                &&& p.id == id
                &&& p.proposer@ == proposer@
                &&& p.title@ == title@
                &&& p.description@ == description@
                &&& p.target@ == target@
                &&& p.value == value
                &&& p.call_data@ == call_data@
                &&& p.for_votes == 0 && p.against_votes == 0 && p.abstain_votes == 0
                &&& p.start_block == current_block + old(self).voting_delay
                &&& p.end_block == current_block + old(self).voting_delay + old(self).voting_period
                &&& p.eta == 0
                &&& !p.executed && !p.canceled
                &&& p.has_voted@ == Map::<Seq<char>, bool>::empty()
            },
    {
        let proposer_votes = self.get_votes(proposer);
        if proposer_votes < self.proposal_threshold {
            let mut m = String::new();
            push_str(&mut m, "需要 ");
            push_decimal(&mut m, self.proposal_threshold);
            push_str(&mut m, " 代币才能创建提案，当前只有 ");
            push_decimal(&mut m, proposer_votes);
            return Err(m);
        }
        let proposal_id = self.next_proposal_id;
        let proposal = Proposal {
            id: proposal_id,
            proposer: proposer.to_owned(),
            title: title.to_owned(),
            description: description.to_owned(),
            for_votes: 0,
            against_votes: 0,
            abstain_votes: 0,
            start_block: current_block + self.voting_delay,
            end_block: current_block + self.voting_delay + self.voting_period,
            eta: 0,
            target: target.to_owned(),
            value,
            call_data,
            executed: false,
            canceled: false,
            has_voted: KeyMap::new(),
        };
        let ghost old_props = self.proposals@;
        self.proposals.insert(proposal_id, proposal);
        assert(self.proposals@.dom() =~= old_props.dom().insert(proposal_id));
        self.next_proposal_id = self.next_proposal_id + 1;
        Ok(proposal_id)
    }

    /// Records `voter`'s vote on a proposal while voting is open: 0 against,
    /// 1 for, 2 abstain, weighted by its voting power; one vote per account.
    pub fn cast_vote(&mut self, voter: &str, proposal_id: u64, support: u8, current_block: u64) -> (r:
        Result<(), String>)
        requires
            old(self).votes(voter@) <= u64::MAX,
            old(self).proposals@.contains_key(proposal_id) ==> ({
                let p = old(self).proposals@[proposal_id];
                &&& support == 0 ==> p.against_votes + old(self).votes(voter@) <= u64::MAX
                &&& support == 1 ==> p.for_votes + old(self).votes(voter@) <= u64::MAX
                &&& support == 2 ==> p.abstain_votes + old(self).votes(voter@) <= u64::MAX
            }),
        ensures
            final(self).same_params(old(self)),
            final(self).balances@ == old(self).balances@,
            final(self).delegates@ == old(self).delegates@,
            final(self).next_proposal_id == old(self).next_proposal_id,
            final(self).proposals@.dom() == old(self).proposals@.dom(),
            forall|k: u64| k != proposal_id ==> #[trigger] final(self).proposals@.contains_key(k)
                ==> final(self).proposals@[k] == old(self).proposals@[k],
            r is Err ==> final(self).proposals@ == old(self).proposals@,
            !old(self).proposals@.contains_key(proposal_id) ==> (r matches Err(m) && m@
                == "提案不存在"@),
            old(self).proposals@.contains_key(proposal_id) ==> ({
                let p = old(self).proposals@[proposal_id];
                let q = final(self).proposals@[proposal_id];
                let voted = p.has_voted@.contains_key(voter@) && p.has_voted@[voter@];
                let w = old(self).votes(voter@);
                &&& current_block < p.start_block ==> (r matches Err(m) && m@ == "投票尚未开始"@)
                &&& p.start_block <= current_block && current_block > p.end_block ==> (r matches Err(
                    m,
                ) && m@ == "投票已结束"@)
                &&& p.start_block <= current_block <= p.end_block && voted ==> (r matches Err(m)
                    && m@ == "已经投过票了"@)
                &&& p.start_block <= current_block <= p.end_block && !voted && w == 0 ==> (r matches Err(
                    m,
                ) && m@ == "没有投票权"@)
                &&& p.start_block <= current_block <= p.end_block && !voted && w > 0 && support > 2
                    ==> (r matches Err(m) && m@ == "无效的投票选项"@)
                &&& r is Ok <==> (p.start_block <= current_block <= p.end_block && !voted && w > 0
                    && support <= 2)
                &&& r is Ok ==> q.against_votes == p.against_votes + (if support == 0 {
                    w
                } else {
                    0
                }) && q.for_votes == p.for_votes + (if support == 1 {
                    w
                } else {
                    0
                }) && q.abstain_votes == p.abstain_votes + (if support == 2 {
                    w
                } else {
                    0
                }) && q.has_voted@ == p.has_voted@.insert(voter@, true) && q.start_block
                    == p.start_block && q.end_block == p.end_block && q.eta == p.eta && q.executed
                    == p.executed && q.canceled == p.canceled && q.proposer@ == p.proposer@
            }),
    {
        let idx = match self.proposals.find(&proposal_id) {
            Some(i) => i,
            None => {
                return Err("提案不存在".to_owned());
            },
        };
        let p = &self.proposals.entry_at(idx).1;
        if current_block < p.start_block {
            return Err("投票尚未开始".to_owned());
        }
        if current_block > p.end_block {
            return Err("投票已结束".to_owned());
        }
        let voter_key = voter.to_owned();
        let already = match p.has_voted.get(&voter_key) {
            Some(b) => *b,
            None => false,
        };
        if already {
            return Err("已经投过票了".to_owned());
        }
        let votes = self.get_votes(voter);
        if votes == 0 {
            return Err("没有投票权".to_owned());
        }
        if support > 2 {
            return Err("无效的投票选项".to_owned());
        }
        let ghost old_props = self.proposals@;
        let (k, mut prop) = self.proposals.remove_at(idx);
        if support == 0 {
            prop.against_votes = prop.against_votes + votes;
        } else if support == 1 {
            prop.for_votes = prop.for_votes + votes;
        } else {
            prop.abstain_votes = prop.abstain_votes + votes;
        }
        prop.has_voted.insert(voter_key, true);
        self.proposals.insert(k, prop);
        assert(self.proposals@.dom() =~= old_props.dom());
        Ok(())
    }

    /// State of a proposal at `current_block` (see `state_of`).
    pub fn state(&self, proposal_id: u64, current_block: u64) -> (r: Result<ProposalState, String>)
        requires
            self.supply() <= u64::MAX,
            self.proposals@.contains_key(proposal_id) ==> ({
                let p = self.proposals@[proposal_id];
                p.for_votes + p.against_votes + p.abstain_votes <= u64::MAX
            }),
        ensures
            !self.proposals@.contains_key(proposal_id) ==> (r matches Err(m) && m@ == "提案不存在"@),
            self.proposals@.contains_key(proposal_id) ==> r == Ok::<ProposalState, String>(
                state_of(self.proposals@[proposal_id], current_block, self.supply(), self.quorum_votes),
            ),
    {
        let proposal = match self.proposals.get(&proposal_id) {
            Some(p) => p,
            None => {
                return Err("提案不存在".to_owned());
            },
        };
        if proposal.canceled {
            return Ok(ProposalState::Canceled);
        }
        if proposal.executed {
            return Ok(ProposalState::Executed);
        }
        if current_block <= proposal.start_block {
            return Ok(ProposalState::Pending);
        }
        if current_block <= proposal.end_block {
            return Ok(ProposalState::Active);
        }
        let total_votes = proposal.for_votes + proposal.against_votes + proposal.abstain_votes;
        let quorum = self.quorum_votes;
        let total_supply = self.balances.sum();
        let participation = if total_supply > 0 {
            (total_votes as u128 * 1000 / total_supply as u128) as u64
        } else {
            0
        };
        if participation < quorum {
            return Ok(ProposalState::Defeated);
        }
        if proposal.for_votes > proposal.against_votes {
            Ok(ProposalState::Succeeded)
        } else {
            Ok(ProposalState::Defeated)
        }
    }

    /// Puts a succeeded proposal in the timelock: executable from
    /// `current_block + timelock_delay`.
    pub fn queue(&mut self, proposal_id: u64, current_block: u64) -> (r: Result<(), String>)
        requires
            old(self).supply() <= u64::MAX,
            old(self).proposals@.contains_key(proposal_id) ==> ({
                let p = old(self).proposals@[proposal_id];
                p.for_votes + p.against_votes + p.abstain_votes <= u64::MAX
            }),
            current_block + old(self).timelock_delay <= u64::MAX,
        ensures
            final(self).same_params(old(self)),
            final(self).balances@ == old(self).balances@,
            final(self).delegates@ == old(self).delegates@,
            final(self).next_proposal_id == old(self).next_proposal_id,
            final(self).proposals@.dom() == old(self).proposals@.dom(),
            forall|k: u64| k != proposal_id ==> #[trigger] final(self).proposals@.contains_key(k)
                ==> final(self).proposals@[k] == old(self).proposals@[k],
            r is Err ==> final(self).proposals@ == old(self).proposals@,
            !old(self).proposals@.contains_key(proposal_id) ==> (r matches Err(m) && m@
                == "提案不存在"@),
            old(self).proposals@.contains_key(proposal_id) ==> ({
                let p = old(self).proposals@[proposal_id];
                let q = final(self).proposals@[proposal_id];
                let st = state_of(p, current_block, old(self).supply(), old(self).quorum_votes);
                &&& st != ProposalState::Succeeded ==> (r matches Err(m) && m@ == "提案未通过"@)
                &&& st == ProposalState::Succeeded ==> r is Ok && q.eta == current_block + old(
                    self,
                ).timelock_delay && q.executed == p.executed && q.canceled == p.canceled
                    && q.proposer@ == p.proposer@ && q.for_votes == p.for_votes
                    && q.against_votes == p.against_votes
            }),
    {
        let state = match self.state(proposal_id, current_block) {
            Ok(s) => s,
            Err(e) => {
                return Err(e);
            },
        };
        if state != ProposalState::Succeeded {
            return Err("提案未通过".to_owned());
        }
        let idx = match self.proposals.find(&proposal_id) {
            Some(i) => i,
            None => {
                return Err("提案不存在".to_owned());
            },
        };
        let ghost old_props = self.proposals@;
        let (k, mut prop) = self.proposals.remove_at(idx);
        prop.eta = current_block + self.timelock_delay;
        self.proposals.insert(k, prop);
        assert(self.proposals@.dom() =~= old_props.dom());
        Ok(())
    }

    /// Executes a queued proposal once its timelock has passed.
    pub fn execute(&mut self, proposal_id: u64, current_block: u64) -> (r: Result<(), String>)
        ensures
            final(self).same_params(old(self)),
            final(self).balances@ == old(self).balances@,
            final(self).delegates@ == old(self).delegates@,
            final(self).next_proposal_id == old(self).next_proposal_id,
            final(self).proposals@.dom() == old(self).proposals@.dom(),
            forall|k: u64| k != proposal_id ==> #[trigger] final(self).proposals@.contains_key(k)
                ==> final(self).proposals@[k] == old(self).proposals@[k],
            r is Err ==> final(self).proposals@ == old(self).proposals@,
            !old(self).proposals@.contains_key(proposal_id) ==> (r matches Err(m) && m@
                == "提案不存在"@),
            old(self).proposals@.contains_key(proposal_id) ==> ({
                let p = old(self).proposals@[proposal_id];
                let q = final(self).proposals@[proposal_id];
                &&& p.executed ==> (r matches Err(m) && m@ == "提案已执行"@)
                &&& !p.executed && p.eta == 0 ==> (r matches Err(m) && m@ == "提案未进入时间锁"@)
                &&& !p.executed && p.eta != 0 && current_block < p.eta ==> (r matches Err(m) && m@
                    == "时间锁未到期"@)
                &&& r is Ok <==> (!p.executed && p.eta != 0 && current_block >= p.eta)
                &&& r is Ok ==> q.executed && q.canceled == p.canceled && q.eta == p.eta
                    && q.proposer@ == p.proposer@
            }),
    {
        let idx = match self.proposals.find(&proposal_id) {
            Some(i) => i,
            None => {
                return Err("提案不存在".to_owned());
            },
        };
        let p = &self.proposals.entry_at(idx).1;
        if p.executed {
            return Err("提案已执行".to_owned());
        }
        if p.eta == 0 {
            return Err("提案未进入时间锁".to_owned());
        }
        if current_block < p.eta {
            return Err("时间锁未到期".to_owned());
        }
        let ghost old_props = self.proposals@;
        let (k, mut prop) = self.proposals.remove_at(idx);
        prop.executed = true;
        self.proposals.insert(k, prop);
        assert(self.proposals@.dom() =~= old_props.dom());
        Ok(())
    }

    /// Cancels a proposal that has not been executed; only its proposer may.
    pub fn cancel(&mut self, proposal_id: u64, caller: &str) -> (r: Result<(), String>)
        ensures
            final(self).same_params(old(self)),
            final(self).balances@ == old(self).balances@,
            final(self).delegates@ == old(self).delegates@,
            final(self).next_proposal_id == old(self).next_proposal_id,
            final(self).proposals@.dom() == old(self).proposals@.dom(),
            forall|k: u64| k != proposal_id ==> #[trigger] final(self).proposals@.contains_key(k)
                ==> final(self).proposals@[k] == old(self).proposals@[k],
            r is Err ==> final(self).proposals@ == old(self).proposals@,
            !old(self).proposals@.contains_key(proposal_id) ==> (r matches Err(m) && m@
                == "提案不存在"@),
            old(self).proposals@.contains_key(proposal_id) ==> ({
                let p = old(self).proposals@[proposal_id];
                let q = final(self).proposals@[proposal_id];
                &&& p.proposer@ != caller@ ==> (r matches Err(m) && m@ == "无权取消"@)
                &&& p.proposer@ == caller@ && p.executed ==> (r matches Err(m) && m@
                    == "已执行，无法取消"@)
                &&& r is Ok <==> (p.proposer@ == caller@ && !p.executed)
                &&& r is Ok ==> q.canceled && q.executed == p.executed && q.eta == p.eta
                    && q.proposer@ == p.proposer@
            }),
    {
        let idx = match self.proposals.find(&proposal_id) {
            Some(i) => i,
            None => {
                return Err("提案不存在".to_owned());
            },
        };
        let p = &self.proposals.entry_at(idx).1;
        if !str_eq(p.proposer.as_str(), caller) {
            return Err("无权取消".to_owned());
        }
        if p.executed {
            return Err("已执行，无法取消".to_owned());
        }
        let ghost old_props = self.proposals@;
        let (k, mut prop) = self.proposals.remove_at(idx);
        prop.canceled = true;
        self.proposals.insert(k, prop);
        assert(self.proposals@.dom() =~= old_props.dom());
        Ok(())
    }

    pub fn get_proposal(&self, proposal_id: u64) -> (r: Option<&Proposal>)
        ensures
            r matches Some(p) ==> self.proposals@.contains_key(proposal_id) && *p == self.proposals@[proposal_id],
            r is None ==> !self.proposals@.contains_key(proposal_id),
    {
        self.proposals.get(&proposal_id)
    }
}

} // verus!

verus! {

/// The life of a proposal: a canceled one is Canceled, an executed one
/// Executed; otherwise it is Pending up to its start block and Active up to
/// its end block. After that it has Succeeded exactly when it has more votes
/// for than against and enough turnout: the votes cast, in thousandths of
/// the supply, reach the quorum (when the supply is empty, only a zero
/// quorum is met); else it is Defeated.
pub proof fn lemma_proposal_states(g: &DAOGovernance, id: u64, block: u64)
    requires
        g.proposals@.contains_key(id),
    ensures
        ({
            let p = g.proposals@[id];
            let total = p.for_votes + p.against_votes + p.abstain_votes;
            let st = state_of(p, block, g.supply(), g.quorum_votes);
            let turnout = if g.supply() > 0 { total * 1000 / g.supply() } else { 0 };
            &&& p.canceled ==> st == ProposalState::Canceled
            &&& !p.canceled && p.executed ==> st == ProposalState::Executed
            &&& !p.canceled && !p.executed && block <= p.start_block ==> st == ProposalState::Pending
            &&& !p.canceled && !p.executed && p.start_block < block <= p.end_block ==> st
                == ProposalState::Active
            &&& st == ProposalState::Succeeded ==> {
                &&& !p.canceled && !p.executed
                &&& block > p.end_block
                &&& p.for_votes > p.against_votes
                &&& g.supply() <= 0 ==> g.quorum_votes == 0
                &&& turnout <= u64::MAX ==> turnout >= g.quorum_votes
            }
            &&& !p.canceled && !p.executed && block > p.start_block && block > p.end_block
                && turnout <= u64::MAX ==> (st == ProposalState::Succeeded <==> (turnout >= g.quorum_votes
                && p.for_votes > p.against_votes)) && (st == ProposalState::Succeeded || st
                == ProposalState::Defeated)
        }),
{
}

} // verus!
