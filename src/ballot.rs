//! Validation and tallying of one ballot.
use crate::error::ErrorCode;
use crate::identity::Address;
use crate::state::{Candidate, CandidateAccount, Poll, VoteAllocation, VoterRecord};
use vstd::prelude::*;

verus! {

/// The total of the votes in a list of allocations.
pub open spec fn sum_votes(allocs: Seq<VoteAllocation>) -> nat
    decreases allocs.len(),
{
    if allocs.len() == 0 {
        0
    } else {
        sum_votes(allocs.drop_last()) + allocs.last().votes as nat
    }
}

/// The first index at or after `i` of an account kept at `key`, or -1.
pub open spec fn match_from(accounts: Seq<CandidateAccount>, key: Seq<u8>, i: int) -> int
    decreases accounts.len() - i,
{
    if i < 0 || i >= accounts.len() {
        -1
    } else if accounts[i].key@ == key {
        i
    } else {
        match_from(accounts, key, i + 1)
    }
}

proof fn lemma_match_from_range(accounts: Seq<CandidateAccount>, key: Seq<u8>, i: int)
    requires
        0 <= i,
    ensures
        match_from(accounts, key, i) == -1 || (i <= match_from(accounts, key, i) < accounts.len()
            && accounts[match_from(accounts, key, i)].key@ == key),
    decreases accounts.len() - i,
{
    if 0 <= i < accounts.len() && accounts[i].key@ != key {
        lemma_match_from_range(accounts, key, i + 1);
    }
}

/// The first index of an account kept at `key`, or -1.
pub open spec fn find_account(accounts: Seq<CandidateAccount>, key: Seq<u8>) -> int {
    match_from(accounts, key, 0)
}

/// `c` with `votes` more positive or negative votes.
pub open spec fn add_votes(c: Candidate, votes: u8, plus: bool) -> Candidate {
    if plus {
        Candidate { name: c.name, plus_votes: (c.plus_votes + votes) as u64, minus_votes: c.minus_votes }
    } else {
        Candidate { name: c.name, plus_votes: c.plus_votes, minus_votes: (c.minus_votes + votes) as u64 }
    }
}

/// Whether adding `votes` to the chosen counter of `c` leaves 64 bits.
pub open spec fn counter_overflows(c: Candidate, votes: u8, plus: bool) -> bool {
    if plus {
        c.plus_votes + votes > u64::MAX
    } else {
        c.minus_votes + votes > u64::MAX
    }
}

/// Applies one allocation to the first account kept at its address.
pub open spec fn apply_one(accounts: Seq<CandidateAccount>, a: VoteAllocation, plus: bool) -> Result<
    Seq<CandidateAccount>,
    ErrorCode,
> {
    let i = find_account(accounts, a.candidate@);
    if i < 0 {
        Err(ErrorCode::MissingCandidate)
    } else if counter_overflows(accounts[i].candidate, a.votes, plus) {
        Err(ErrorCode::Overflow)
    } else {
        Ok(
            accounts.update(
                i,
                CandidateAccount { key: accounts[i].key, candidate: add_votes(accounts[i].candidate, a.votes, plus) },
            ),
        )
    }
}

/// Applies a list of allocations in order, stopping at the first failure.
pub open spec fn apply_all(accounts: Seq<CandidateAccount>, allocs: Seq<VoteAllocation>, plus: bool) -> Result<
    Seq<CandidateAccount>,
    ErrorCode,
>
    decreases allocs.len(),
{
    if allocs.len() == 0 {
        Ok(accounts)
    } else {
        match apply_all(accounts, allocs.drop_last(), plus) {
            Ok(s) => apply_one(s, allocs.last(), plus),
            Err(e) => Err(e),
        }
    }
}

/// The first rule of the D21 method that a ballot breaks, in the order in
/// which they are checked, if any.
pub open spec fn ballot_rule_error(
    poll: Poll,
    voter: VoterRecord,
    plus: Seq<VoteAllocation>,
    minus: Seq<VoteAllocation>,
) -> Option<ErrorCode> {
    let sp = sum_votes(plus);
    let sm = sum_votes(minus);
    if voter.has_voted {
        Some(ErrorCode::AlreadyVoted)
    } else if sp > u8::MAX || sm > u8::MAX {
        Some(ErrorCode::Overflow)
    } else if sp > poll.plus_votes_allowed {
        Some(ErrorCode::TooManyPlus)
    } else if sm > poll.minus_votes_allowed {
        Some(ErrorCode::TooManyMinus)
    } else if sp + sm >= poll.candidate_count {
        Some(ErrorCode::InvalidTotal)
    } else if sm > 0 && sp < 2 {
        Some(ErrorCode::MinusRequiresTwoPlus)
    } else {
        None
    }
}

/// The candidate accounts after a ballot, or the error that rejects it.
pub open spec fn tally(
    poll: Poll,
    voter: VoterRecord,
    accounts: Seq<CandidateAccount>,
    plus: Seq<VoteAllocation>,
    minus: Seq<VoteAllocation>,
) -> Result<Seq<CandidateAccount>, ErrorCode> {
    match ballot_rule_error(poll, voter, plus, minus) {
        Some(e) => Err(e),
        None => match apply_all(accounts, plus, true) {
            Ok(s) => apply_all(s, minus, false),
            Err(e) => Err(e),
        },
    }
}

proof fn lemma_sum_prefix(allocs: Seq<VoteAllocation>, i: int)
    requires
        0 <= i <= allocs.len(),
    ensures
        sum_votes(allocs.take(i)) <= sum_votes(allocs),
    decreases allocs.len() - i,
{
    if i < allocs.len() {
        lemma_sum_prefix(allocs, i + 1);
        assert(allocs.take(i + 1).drop_last() =~= allocs.take(i));
    } else {
        assert(allocs.take(i) =~= allocs);
    }
}

/// The total of the votes of `allocs`, or `None` where it exceeds 8 bits.
pub fn sum_allocations(allocs: &Vec<VoteAllocation>) -> (r: Option<u8>)
    ensures
        r matches Some(s) ==> s == sum_votes(allocs@),
        r is None <==> sum_votes(allocs@) > u8::MAX,
{
    let mut total: u8 = 0;
    let mut i: usize = 0;
    while i < allocs.len()
        invariant
            i <= allocs@.len(),
            total == sum_votes(allocs@.take(i as int)),
        decreases allocs@.len() - i,
    {
        let v = allocs[i].votes;
        assert(allocs@.take(i + 1).drop_last() =~= allocs@.take(i as int));
        match total.checked_add(v) {
            Some(t) => {
                total = t;
            },
            None => {
                proof {
                    lemma_sum_prefix(allocs@, i + 1);
                }
                return None;
            },
        }
        i = i + 1;
    }
    assert(allocs@.take(i as int) =~= allocs@);
    Some(total)
}

/// Whether two addresses hold the same bytes.
pub fn same_address(a: &Address, b: &Address) -> (r: bool)
    ensures
        r == (a@ == b@),
{
    let mut i: usize = 0;
    while i < 32
        invariant
            i <= 32,
            forall|j: int| 0 <= j < i ==> a@[j] == b@[j],
        decreases 32 - i,
    {
        if a.bytes[i] != b.bytes[i] {
            return false;
        }
        i = i + 1;
    }
    assert(a@ =~= b@);
    true
}

/// The index of the first account kept at `key`.
pub fn position(accounts: &Vec<CandidateAccount>, key: &Address) -> (r: Option<usize>)
    ensures
        r matches Some(i) ==> i == find_account(accounts@, key@),
        r is None <==> find_account(accounts@, key@) < 0,
{
    let mut i: usize = 0;
    while i < accounts.len()
        invariant
            i <= accounts@.len(),
            match_from(accounts@, key@, 0) == match_from(accounts@, key@, i as int),
        decreases accounts@.len() - i,
    {
        if same_address(&accounts[i].key, key) {
            proof {
                lemma_match_from_range(accounts@, key@, 0);
            }
            return Some(i);
        }
        i = i + 1;
    }
    proof {
        lemma_match_from_range(accounts@, key@, 0);
    }
    None
}

proof fn lemma_apply_err_stays(
    accounts: Seq<CandidateAccount>,
    allocs: Seq<VoteAllocation>,
    plus: bool,
    i: int,
    j: int,
)
    requires
        0 <= i <= j <= allocs.len(),
        apply_all(accounts, allocs.take(i), plus) is Err,
    ensures
        apply_all(accounts, allocs.take(j), plus) == apply_all(accounts, allocs.take(i), plus),
    decreases j - i,
{
    if j > i {
        lemma_apply_err_stays(accounts, allocs, plus, i, j - 1);
        assert(allocs.take(j).drop_last() =~= allocs.take(j - 1));
    }
}

/// Applies `allocs` in order to the accounts; on failure `accounts` may be
/// left part-way, so callers work on a copy.
fn apply_allocations(accounts: &mut Vec<CandidateAccount>, allocs: &Vec<VoteAllocation>, plus: bool) -> (r:
    Result<(), ErrorCode>)
    ensures
        match apply_all(old(accounts)@, allocs@, plus) {
            Ok(s) => r is Ok && final(accounts)@ == s,
            Err(e) => r == Err::<(), ErrorCode>(e),
        },
{
    let ghost start = accounts@;
    let mut i: usize = 0;
    assert(allocs@.take(0) =~= Seq::<VoteAllocation>::empty());
    while i < allocs.len()
        invariant
            i <= allocs@.len(),
            start == old(accounts)@,
            apply_all(start, allocs@.take(i as int), plus) == Ok::<Seq<CandidateAccount>, ErrorCode>(
                accounts@,
            ),
        decreases allocs@.len() - i,
    {
        let a = allocs[i];
        assert(allocs@.take(i + 1).drop_last() =~= allocs@.take(i as int));
        assert(allocs@.take(i + 1).last() == a);
        match position(accounts, &a.candidate) {
            None => {
                proof {
                    assert(apply_all(start, allocs@.take(i + 1), plus) == Err::<Seq<CandidateAccount>, ErrorCode>(
                        ErrorCode::MissingCandidate,
                    ));
                    lemma_apply_err_stays(start, allocs@, plus, i + 1, allocs@.len() as int);
                    assert(allocs@.take(allocs@.len() as int) =~= allocs@);
                }
                return Err(ErrorCode::MissingCandidate);
            },
            Some(k) => {
                proof {
                    lemma_match_from_range(accounts@, a.candidate@, 0);
                }
                let mut acc = accounts[k];
                let added = if plus {
                    acc.candidate.plus_votes.checked_add(a.votes as u64)
                } else {
                    acc.candidate.minus_votes.checked_add(a.votes as u64)
                };
                match added {
                    None => {
                        proof {
                            lemma_apply_err_stays(start, allocs@, plus, i + 1, allocs@.len() as int);
                            assert(allocs@.take(allocs@.len() as int) =~= allocs@);
                        }
                        return Err(ErrorCode::Overflow);
                    },
                    Some(n) => {
                        if plus {
                            acc.candidate.plus_votes = n;
                        } else {
                            acc.candidate.minus_votes = n;
                        }
                        accounts.set(k, acc);
                    },
                }
            },
        }
        i = i + 1;
    }
    assert(allocs@.take(i as int) =~= allocs@);
    Ok(())
}

/// Checks a ballot against the poll's budget and applies it to the supplied
/// candidate accounts, all or nothing: on failure `accounts` is unchanged.
pub fn tally_ballot(
    poll: &Poll,
    voter: &VoterRecord,
    accounts: &mut Vec<CandidateAccount>,
    plus_allocations: &Vec<VoteAllocation>,
    minus_allocations: &Vec<VoteAllocation>,
) -> (r: Result<(u8, u8), ErrorCode>)
    ensures
        match tally(*poll, *voter, old(accounts)@, plus_allocations@, minus_allocations@) {
            Ok(s) => r == Ok::<(u8, u8), ErrorCode>(
                (sum_votes(plus_allocations@) as u8, sum_votes(minus_allocations@) as u8),
            ) && final(accounts)@ == s,
            Err(e) => r == Err::<(u8, u8), ErrorCode>(e) && final(accounts)@ == old(accounts)@,
        },
{
    if voter.has_voted {
        return Err(ErrorCode::AlreadyVoted);
    }
    let sum_plus = match sum_allocations(plus_allocations) {
        Some(s) => s,
        None => {
            return Err(ErrorCode::Overflow);
        },
    };
    let sum_minus = match sum_allocations(minus_allocations) {
        Some(s) => s,
        None => {
            return Err(ErrorCode::Overflow);
        },
    };
    if sum_plus > poll.plus_votes_allowed {
        return Err(ErrorCode::TooManyPlus);
    }
    if sum_minus > poll.minus_votes_allowed {
        return Err(ErrorCode::TooManyMinus);
    }
    if sum_plus as u64 + sum_minus as u64 >= poll.candidate_count {
        return Err(ErrorCode::InvalidTotal);
    }
    if sum_minus > 0 && sum_plus < 2 {
        return Err(ErrorCode::MinusRequiresTwoPlus);
    }
    let mut work: Vec<CandidateAccount> = Vec::new();
    let mut i: usize = 0;
    while i < accounts.len()
        invariant
            i <= accounts@.len(),
            work@ == accounts@.take(i as int),
        decreases accounts@.len() - i,
    {
        work.push(accounts[i]);
        i = i + 1;
        assert(work@ =~= accounts@.take(i as int));
    }
    assert(work@ =~= accounts@);
    apply_allocations(&mut work, plus_allocations, true)?;
    apply_allocations(&mut work, minus_allocations, false)?;
    *accounts = work;
    Ok((sum_plus, sum_minus))
}

/// The positive or the negative counter of `c`.
pub open spec fn counter(c: Candidate, plus: bool) -> int {
    if plus {
        c.plus_votes as int
    } else {
        c.minus_votes as int
    }
}

/// Whether `s` holds the accounts of `base` at the same addresses, with the
/// chosen counter raised by at most `extra` and the other one unchanged.
pub open spec fn raised_by_at_most(
    base: Seq<CandidateAccount>,
    s: Seq<CandidateAccount>,
    extra: int,
    plus: bool,
) -> bool {
    &&& s.len() == base.len()
    &&& forall|i: int| 0 <= i < s.len() ==> #[trigger] s[i].key == base[i].key
    &&& forall|i: int|
        0 <= i < s.len() ==> #[trigger] counter(s[i].candidate, plus) <= counter(base[i].candidate, plus)
            + extra
    &&& forall|i: int|
        #![trigger s[i]]
        0 <= i < s.len() ==> counter(s[i].candidate, !plus) == counter(base[i].candidate, !plus)
}

/// Whether the chosen counter of every account has room for 255 more votes.
pub open spec fn room_for(accounts: Seq<CandidateAccount>, plus: bool) -> bool {
    forall|i: int| 0 <= i < accounts.len() ==> #[trigger] counter(accounts[i].candidate, plus) + u8::MAX <= u64::MAX
}

/// Whether every counter of every account has room for 255 more votes.
pub open spec fn counters_have_room(accounts: Seq<CandidateAccount>) -> bool {
    room_for(accounts, true) && room_for(accounts, false)
}

proof fn lemma_match_from_keys(s: Seq<CandidateAccount>, t: Seq<CandidateAccount>, key: Seq<u8>, i: int)
    requires
        s.len() == t.len(),
        forall|j: int| 0 <= j < s.len() ==> #[trigger] s[j].key == t[j].key,
    ensures
        match_from(s, key, i) == match_from(t, key, i),
    decreases s.len() - i,
{
    if 0 <= i < s.len() {
        assert(s[i].key == t[i].key);
        lemma_match_from_keys(s, t, key, i + 1);
    }
}

proof fn lemma_apply_all_room(accounts: Seq<CandidateAccount>, allocs: Seq<VoteAllocation>, plus: bool)
    requires
        room_for(accounts, plus),
        sum_votes(allocs) <= u8::MAX,
    ensures
        apply_all(accounts, allocs, plus) is Ok || apply_all(accounts, allocs, plus) == Err::<
            Seq<CandidateAccount>,
            ErrorCode,
        >(ErrorCode::MissingCandidate),
        apply_all(accounts, allocs, plus) matches Ok(s) ==> raised_by_at_most(
            accounts,
            s,
            sum_votes(allocs) as int,
            plus,
        ),
        (exists|j: int| 0 <= j < allocs.len() && find_account(accounts, #[trigger] allocs[j].candidate@) < 0)
            ==> apply_all(accounts, allocs, plus) == Err::<Seq<CandidateAccount>, ErrorCode>(
            ErrorCode::MissingCandidate,
        ),
    decreases allocs.len(),
{
    if allocs.len() > 0 {
        let pre = allocs.drop_last();
        let a = allocs.last();
        lemma_apply_all_room(accounts, pre, plus);
        assert forall|j: int| 0 <= j < pre.len() implies pre[j] == allocs[j] by {}
        match apply_all(accounts, pre, plus) {
            Ok(s) => {
                lemma_match_from_keys(s, accounts, a.candidate@, 0);
                lemma_match_from_range(s, a.candidate@, 0);
                let k = find_account(s, a.candidate@);
                if k >= 0 {
                    assert(s[k].key == accounts[k].key);
                    assert(counter(s[k].candidate, plus) <= counter(accounts[k].candidate, plus) + sum_votes(pre));
                    assert(counter(accounts[k].candidate, plus) + u8::MAX <= u64::MAX);
                    let t = apply_one(s, a, plus)->Ok_0;
                    assert forall|i: int| 0 <= i < t.len() implies #[trigger] t[i].key == accounts[i].key by {
                        assert(s[i].key == accounts[i].key);
                    }
                    assert forall|i: int| 0 <= i < t.len() implies #[trigger] counter(t[i].candidate, plus)
                        <= counter(accounts[i].candidate, plus) + sum_votes(allocs) as int by {
                        assert(counter(s[i].candidate, plus) <= counter(accounts[i].candidate, plus) + sum_votes(pre));
                    }
                    assert forall|i: int| 0 <= i < t.len() implies counter(#[trigger] t[i].candidate, !plus)
                        == counter(accounts[i].candidate, !plus) by {
                        assert(counter(s[i].candidate, !plus) == counter(accounts[i].candidate, !plus));
                    }
                }
                if exists|j: int| 0 <= j < allocs.len() && find_account(accounts, #[trigger] allocs[j].candidate@) < 0 {
                    let j = choose|j: int| 0 <= j < allocs.len() && find_account(accounts, #[trigger] allocs[j].candidate@) < 0;
                    if j < pre.len() {
                        assert(find_account(accounts, pre[j].candidate@) < 0);
                    }
                }
            },
            Err(e) => {
            },
        }
    }
}

/// A ballot that keeps the poll's rules but names a candidate whose record
/// was not supplied fails with `MissingCandidate`, so no tally changes, as
/// long as every supplied counter has room for the largest ballot.
pub proof fn lemma_absent_candidate_rejected(
    poll: Poll,
    voter: VoterRecord,
    accounts: Seq<CandidateAccount>,
    plus: Seq<VoteAllocation>,
    minus: Seq<VoteAllocation>,
    key: Address,
)
    requires
        ballot_rule_error(poll, voter, plus, minus) is None,
        counters_have_room(accounts),
        find_account(accounts, key@) < 0,
        exists|j: int| 0 <= j < plus.len() && #[trigger] plus[j].candidate == key
            || exists|j: int| 0 <= j < minus.len() && #[trigger] minus[j].candidate == key,
    ensures
        tally(poll, voter, accounts, plus, minus) == Err::<Seq<CandidateAccount>, ErrorCode>(
            ErrorCode::MissingCandidate,
        ),
{
    lemma_apply_all_room(accounts, plus, true);
    if exists|j: int| 0 <= j < plus.len() && #[trigger] plus[j].candidate == key {
        let j = choose|j: int| 0 <= j < plus.len() && #[trigger] plus[j].candidate == key;
        assert(find_account(accounts, plus[j].candidate@) < 0);
    } else {
        let j = choose|j: int| 0 <= j < minus.len() && #[trigger] minus[j].candidate == key;
        if let Ok(s) = apply_all(accounts, plus, true) {
            assert(room_for(s, false)) by {
                assert forall|i: int| 0 <= i < s.len() implies #[trigger] counter(s[i].candidate, false) + u8::MAX
                    <= u64::MAX by {
                    assert(counter(s[i].candidate, !true) == counter(accounts[i].candidate, !true));
                    assert(counter(accounts[i].candidate, false) + u8::MAX <= u64::MAX);
                }
            }
            lemma_match_from_keys(s, accounts, key@, 0);
            lemma_apply_all_room(s, minus, false);
            assert(find_account(s, minus[j].candidate@) < 0);
        }
    }
}

} // verus!
