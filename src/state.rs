//! The records that the ballot keeps, and the allocations a voter submits.
use crate::identity::Address;
use vstd::prelude::*;

verus! {

/// One candidate of one poll, kept at the address derived from the poll
/// and the candidate's name.
#[derive(Clone, Copy, Debug, PartialEq, Eq)]
pub struct Candidate {
    /// The name's UTF-8 bytes, cut or padded with zeros to 32 bytes.
    pub name: [u8; 32],
    pub plus_votes: u64,
    pub minus_votes: u64,
}

/// One election: its seats and the budget each ballot has.
#[derive(Clone, Debug)]
pub struct Poll {
    pub poll_id: u32,
    /// At most 100 bytes of UTF-8.
    pub poll_description: String,
    pub poll_start: u64,
    pub poll_end: u64,
    /// How many candidates have been registered.
    pub candidate_count: u64,
    pub winners: u8,
    pub plus_votes_allowed: u8,
    pub minus_votes_allowed: u8,
}

/// Whether, and how, one voter has voted in one poll.
#[derive(Clone, Copy, Debug, PartialEq, Eq, Structural)]
pub struct VoterRecord {
    pub has_voted: bool,
    pub plus_used: u8,
    pub minus_used: u8,
}

/// The layout of a voter record as its owner closes it.
#[derive(Clone, Copy, Debug, PartialEq, Eq, Structural)]
pub struct VoterRecordData {
    pub has_voted: bool,
    pub plus_used: u8,
    pub minus_used: u8,
}

/// A number of votes given to the candidate at an address.
#[derive(Clone, Copy, Debug, PartialEq, Eq)]
pub struct VoteAllocation {
    pub candidate: Address,
    pub votes: u8,
}

/// A candidate record together with the address it is kept at.
#[derive(Clone, Copy, Debug, PartialEq, Eq)]
pub struct CandidateAccount {
    pub key: Address,
    pub candidate: Candidate,
}

} // verus!
