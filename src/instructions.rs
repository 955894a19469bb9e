//! The operations of the ballot, each on the records that the host store
//! loaded for it. A record slot holds `None` where no record exists yet at
//! its derived address; an operation that fails changes no slot.
use crate::ballot::{sum_votes, tally, tally_ballot};
use crate::budget::{minus_budget, minus_votes_allowed_for, plus_budget, plus_votes_allowed_for};
use crate::error::ErrorCode;
use crate::state::{Candidate, CandidateAccount, Poll, VoteAllocation, VoterRecord, VoterRecordData};
use vstd::prelude::*;
use vstd::utf8::encode_utf8;

verus! {

/// The largest length of a poll's description, in bytes.
pub const MAX_DESCRIPTION_LEN: usize = 100;

/// The length of a candidate's stored name, in bytes.
pub const NAME_LEN: usize = 32;

/// The records that creating a poll touches.
pub struct InitializePoll {
    /// The slot at the poll's address.
    pub poll: Option<Poll>,
}

/// The records that registering a candidate touches.
pub struct InitializeCandidate {
    /// The poll the candidate joins.
    pub poll: Option<Poll>,
    /// The slot at the candidate's address.
    pub candidate: Option<Candidate>,
}

/// The records that casting a ballot touches.
pub struct CastBallot {
    /// The poll voted in.
    pub poll: Option<Poll>,
    /// The slot at the voter's record address; created on a first vote.
    pub voter_record: Option<VoterRecord>,
    /// Every candidate record the ballot may change, with its address.
    pub remaining_accounts: Vec<CandidateAccount>,
}

/// The record that closing a voter record touches.
pub struct CloseVoterRecord {
    pub voter_record: Option<VoterRecordData>,
}

/// The poll that a successful creation stores.
pub open spec fn new_poll(
    poll_id: u32,
    poll_description: String,
    poll_start: u64,
    poll_end: u64,
    winners: u8,
) -> Poll {
    Poll {
        poll_id,
        poll_description,
        poll_start,
        poll_end,
        candidate_count: 0,
        winners,
        plus_votes_allowed: plus_budget(winners as int) as u8,
        minus_votes_allowed: minus_budget(plus_budget(winners as int)) as u8,
    }
}

/// Creates the poll `poll_id` with its D21 budget, computed once from the
/// number of seats. Start and end are stored as given.
pub fn initialize_poll(
    ctx: &mut InitializePoll,
    poll_id: u32,
    poll_description: String,
    poll_start: u64,
    poll_end: u64,
    winners: u8,
) -> (r: Result<(), ErrorCode>)
    ensures
        old(ctx).poll is Some ==> r == Err::<(), ErrorCode>(ErrorCode::AlreadyExists),
        old(ctx).poll is None && encode_utf8(poll_description@).len() > MAX_DESCRIPTION_LEN ==> r
            == Err::<(), ErrorCode>(ErrorCode::InvalidInput),
        r is Err ==> final(ctx).poll == old(ctx).poll,
        old(ctx).poll is None && encode_utf8(poll_description@).len() <= MAX_DESCRIPTION_LEN ==> r is Ok
            && final(ctx).poll == Some(
            new_poll(poll_id, poll_description, poll_start, poll_end, winners),
        ),
{
    if ctx.poll.is_some() {
        return Err(ErrorCode::AlreadyExists);
    }
    if poll_description.as_str().as_bytes().len() > MAX_DESCRIPTION_LEN {
        return Err(ErrorCode::InvalidInput);
    }
    let plus_votes_allowed = plus_votes_allowed_for(winners);
    let minus_votes_allowed = minus_votes_allowed_for(plus_votes_allowed);
    ctx.poll = Some(
        Poll {
            poll_id,
            poll_description,
            poll_start,
            poll_end,
            candidate_count: 0,
            winners,
            plus_votes_allowed,
            minus_votes_allowed,
        },
    );
    Ok(())
}

/// The stored form of a name: its first 32 bytes, padded with zeros.
pub open spec fn stored_name(name: Seq<u8>) -> Seq<u8> {
    Seq::new(NAME_LEN as nat, |i: int| if i < name.len() { name[i] } else { 0u8 })
}

/// The stored form of a name: its first 32 bytes, padded with zeros.
pub fn name_array(name: &str) -> (r: [u8; 32])
    ensures
        r@ == stored_name(encode_utf8(name@)),
{
    let bytes = name.as_bytes();
    let mut a: [u8; 32] = [0u8; 32];
    let mut i: usize = 0;
    while i < NAME_LEN && i < bytes.len()
        invariant
            i <= NAME_LEN,
            i <= bytes@.len(),
            bytes@ == encode_utf8(name@),
            forall|j: int| 0 <= j < i ==> a@[j] == bytes@[j],
            forall|j: int| i <= j < NAME_LEN ==> a@[j] == 0,
        decreases NAME_LEN - i,
    {
        a[i] = bytes[i];
        i = i + 1;
    }
    assert(a@ =~= stored_name(encode_utf8(name@)));
    a
}

/// The first failure of a registration in the poll `poll_id`, if any.
pub open spec fn registration_error(ctx: InitializeCandidate, poll_id: u32) -> Option<ErrorCode> {
    match ctx.poll {
        None => Some(ErrorCode::NotFound),
        Some(p) => if p.poll_id != poll_id {
            Some(ErrorCode::InvalidInput)
        } else if ctx.candidate is Some {
            Some(ErrorCode::AlreadyExists)
        } else if p.candidate_count == u64::MAX {
            Some(ErrorCode::Overflow)
        } else {
            None
        },
    }
}

/// `p` with its candidate counter set to `n`.
pub open spec fn with_count(p: Poll, n: u64) -> Poll {
    Poll {
        poll_id: p.poll_id,
        poll_description: p.poll_description,
        poll_start: p.poll_start,
        poll_end: p.poll_end,
        candidate_count: n,
        winners: p.winners,
        plus_votes_allowed: p.plus_votes_allowed,
        minus_votes_allowed: p.minus_votes_allowed,
    }
}

/// Registration of a candidate named by the bytes `name` in the poll
/// `poll_id` takes `pre` to `post` with result `r`.
pub open spec fn registered(
    pre: InitializeCandidate,
    post: InitializeCandidate,
    name: Seq<u8>,
    poll_id: u32,
    r: Result<(), ErrorCode>,
) -> bool {
    match registration_error(pre, poll_id) {
        Some(e) => r == Err::<(), ErrorCode>(e) && post == pre,
        None => {
            &&& r is Ok
            &&& post.poll == Some(with_count(pre.poll->0, (pre.poll->0.candidate_count + 1) as u64))
            &&& post.candidate is Some
            &&& post.candidate->0.name@ == stored_name(name)
            &&& post.candidate->0.plus_votes == 0
            &&& post.candidate->0.minus_votes == 0
        },
    }
}

/// Registers a candidate in the poll `poll_id` with zero votes and counts it.
/// A name longer than 32 bytes is stored cut to 32 bytes.
pub fn initialize_candidate(ctx: &mut InitializeCandidate, candidate_name: String, poll_id: u32) -> (r:
    Result<(), ErrorCode>)
    ensures
        registered(*old(ctx), *final(ctx), encode_utf8(candidate_name@), poll_id, r),
{
    let count = match &ctx.poll {
        None => {
            return Err(ErrorCode::NotFound);
        },
        Some(p) => {
            if p.poll_id != poll_id {
                return Err(ErrorCode::InvalidInput);
            }
            p.candidate_count
        },
    };
    if ctx.candidate.is_some() {
        return Err(ErrorCode::AlreadyExists);
    }
    let candidate_count = match count.checked_add(1) {
        Some(n) => n,
        None => {
            return Err(ErrorCode::Overflow);
        },
    };
    let name = name_array(candidate_name.as_str());
    let mut poll = ctx.poll.take().unwrap();
    poll.candidate_count = candidate_count;
    ctx.poll = Some(poll);
    ctx.candidate = Some(Candidate { name, plus_votes: 0, minus_votes: 0 });
    Ok(())
}

/// A voter record that has not voted yet.
pub open spec fn fresh_voter() -> VoterRecord {
    VoterRecord { has_voted: false, plus_used: 0, minus_used: 0 }
}

/// The voter record in a slot, or a fresh one where the slot is empty.
pub open spec fn voter_of(slot: Option<VoterRecord>) -> VoterRecord {
    match slot {
        Some(v) => v,
        None => fresh_voter(),
    }
}

/// The candidate accounts after a ballot in the poll `poll_id`, or the
/// error that rejects it.
pub open spec fn ballot_outcome(
    ctx: CastBallot,
    poll_id: u32,
    plus: Seq<VoteAllocation>,
    minus: Seq<VoteAllocation>,
) -> Result<Seq<CandidateAccount>, ErrorCode> {
    match ctx.poll {
        None => Err(ErrorCode::NotFound),
        Some(p) => if p.poll_id != poll_id {
            Err(ErrorCode::InvalidInput)
        } else {
            tally(p, voter_of(ctx.voter_record), ctx.remaining_accounts@, plus, minus)
        },
    }
}

/// A ballot in the poll `poll_id` takes `pre` to `post` with result `r`.
pub open spec fn voted(
    pre: CastBallot,
    post: CastBallot,
    poll_id: u32,
    plus: Seq<VoteAllocation>,
    minus: Seq<VoteAllocation>,
    r: Result<(), ErrorCode>,
) -> bool {
    match ballot_outcome(pre, poll_id, plus, minus) {
        Ok(s) => r is Ok && post.poll == pre.poll && post.remaining_accounts@ == s && post.voter_record
            == Some(
            VoterRecord {
                has_voted: true,
                plus_used: sum_votes(plus) as u8,
                minus_used: sum_votes(minus) as u8,
            },
        ),
        Err(e) => unchanged(pre, post) && r == Err::<(), ErrorCode>(e),
    }
}

/// Every record of `post` is as in `pre`.
pub open spec fn unchanged(pre: CastBallot, post: CastBallot) -> bool {
    &&& post.poll == pre.poll
    &&& post.voter_record == pre.voter_record
    &&& post.remaining_accounts@ == pre.remaining_accounts@
}

/// Casts a ballot: checks the allocations against the poll's budget, adds
/// them to the candidates' counters and marks the voter as having voted,
/// all or nothing.
pub fn vote(
    ctx: &mut CastBallot,
    poll_id: u32,
    plus_allocations: Vec<VoteAllocation>,
    minus_allocations: Vec<VoteAllocation>,
) -> (r: Result<(), ErrorCode>)
    ensures
        voted(*old(ctx), *final(ctx), poll_id, plus_allocations@, minus_allocations@, r),
{
    let voter = match ctx.voter_record {
        Some(v) => v,
        None => VoterRecord { has_voted: false, plus_used: 0, minus_used: 0 },
    };
    let (plus_used, minus_used) = match &ctx.poll {
        None => {
            return Err(ErrorCode::NotFound);
        },
        Some(p) => {
            if p.poll_id != poll_id {
                return Err(ErrorCode::InvalidInput);
            }
            match tally_ballot(p, &voter, &mut ctx.remaining_accounts, &plus_allocations, &minus_allocations) {
                Ok(used) => used,
                Err(e) => {
                    return Err(e);
                },
            }
        },
    };
    ctx.voter_record = Some(VoterRecord { has_voted: true, plus_used, minus_used });
    Ok(())
}

/// Closes a voter record, releasing its slot.
pub fn close_voter_record(ctx: &mut CloseVoterRecord) -> (r: Result<(), ErrorCode>)
    ensures
        old(ctx).voter_record is None ==> r == Err::<(), ErrorCode>(ErrorCode::NotFound)
            && final(ctx).voter_record is None,
        old(ctx).voter_record is Some ==> r is Ok && final(ctx).voter_record is None,
{
    if ctx.voter_record.is_none() {
        return Err(ErrorCode::NotFound);
    }
    ctx.voter_record = None;
    Ok(())
}

/// Each successful registration adds exactly one to the poll's candidate
/// count, and registering again at the same candidate address fails with
/// `AlreadyExists` and changes nothing.
pub proof fn lemma_register_twice(
    c0: InitializeCandidate,
    c1: InitializeCandidate,
    c2: InitializeCandidate,
    name1: Seq<u8>,
    name2: Seq<u8>,
    poll_id: u32,
    r2: Result<(), ErrorCode>,
)
    requires
        registered(c0, c1, name1, poll_id, Ok(())),
        registered(c1, c2, name2, poll_id, r2),
    ensures
        c1.poll->0.candidate_count == c0.poll->0.candidate_count + 1,
        r2 == Err::<(), ErrorCode>(ErrorCode::AlreadyExists),
        c2 == c1,
{
}

/// Once a voter's ballot in a poll has been applied, a further ballot by
/// the same voter in that poll fails with `AlreadyVoted` and leaves every
/// record as it was.
pub proof fn lemma_second_ballot_rejected(
    c0: CastBallot,
    c1: CastBallot,
    c2: CastBallot,
    poll_id: u32,
    plus1: Seq<VoteAllocation>,
    minus1: Seq<VoteAllocation>,
    plus2: Seq<VoteAllocation>,
    minus2: Seq<VoteAllocation>,
    r2: Result<(), ErrorCode>,
)
    requires
        voted(c0, c1, poll_id, plus1, minus1, Ok(())),
        voted(c1, c2, poll_id, plus2, minus2, r2),
    ensures
        r2 == Err::<(), ErrorCode>(ErrorCode::AlreadyVoted),
        unchanged(c1, c2),
{
}

} // verus!
