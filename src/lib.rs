//! A multi-winner D21 ballot: poll budgets, candidate registration and
//! vote tallying over records kept at derived addresses.

pub mod ballot;
pub mod budget;
pub mod error;
pub mod identity;
pub mod instructions;
pub mod state;

pub use ballot::{position, same_address, sum_allocations, tally_ballot};
pub use budget::{minus_votes_allowed_for, plus_votes_allowed_for};
pub use error::ErrorCode;
pub use identity::{candidate_address, poll_address, to_le_bytes, voter_address, Address};
pub use instructions::{
    close_voter_record, initialize_candidate, initialize_poll, name_array, vote, CastBallot,
    CloseVoterRecord, InitializeCandidate, InitializePoll,
};
pub use state::{Candidate, CandidateAccount, Poll, VoteAllocation, VoterRecord, VoterRecordData};
