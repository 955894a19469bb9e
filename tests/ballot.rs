use votingdapp::{
    close_voter_record, initialize_candidate, initialize_poll, minus_votes_allowed_for,
    plus_votes_allowed_for, position, same_address, sum_allocations, tally_ballot, vote, Address,
    CandidateAccount, CastBallot, CloseVoterRecord, ErrorCode, InitializeCandidate,
    InitializePoll, Poll, VoteAllocation, VoterRecord, VoterRecordData,
};

fn addr(b: u8) -> Address {
    Address { bytes: [b; 32] }
}

fn make_poll(poll_id: u32, winners: u8) -> Poll {
    let mut ctx = InitializePoll { poll: None };
    initialize_poll(&mut ctx, poll_id, "Board election".to_string(), 10, 20, winners).unwrap();
    ctx.poll.unwrap()
}

fn register(poll: Poll, names: &[&str]) -> (Poll, Vec<CandidateAccount>) {
    let mut poll = poll;
    let mut accounts = Vec::new();
    for (i, name) in names.iter().enumerate() {
        let poll_id = poll.poll_id;
        let mut ctx = InitializeCandidate { poll: Some(poll), candidate: None };
        initialize_candidate(&mut ctx, name.to_string(), poll_id).unwrap();
        accounts.push(CandidateAccount { key: addr(i as u8 + 1), candidate: ctx.candidate.unwrap() });
        poll = ctx.poll.unwrap();
    }
    (poll, accounts)
}

fn give(b: u8, votes: u8) -> VoteAllocation {
    VoteAllocation { candidate: addr(b), votes }
}

fn ballot(poll: Poll, accounts: Vec<CandidateAccount>) -> CastBallot {
    CastBallot { poll: Some(poll), voter_record: None, remaining_accounts: accounts }
}

fn seven_candidate_ballot() -> CastBallot {
    let (poll, accounts) = register(make_poll(1, 5), &["a", "b", "c", "d", "e", "f", "g"]);
    ballot(poll, accounts)
}

fn tallies(ctx: &CastBallot) -> Vec<(u64, u64)> {
    ctx.remaining_accounts
        .iter()
        .map(|a| (a.candidate.plus_votes, a.candidate.minus_votes))
        .collect()
}

#[test]
fn budget_matches_double_precision_formula() {
    for w in 2u8..=100 {
        let raw = 2.0 * w as f64 - (w as f64 - 2.0) * 1.618_f64;
        let plus = raw.floor() as u8;
        assert_eq!(plus_votes_allowed_for(w), plus, "winners {}", w);
        assert_eq!(minus_votes_allowed_for(plus), plus / 3, "winners {}", w);
    }
}

#[test]
fn budget_for_five_winners() {
    assert_eq!(plus_votes_allowed_for(5), 5);
    assert_eq!(minus_votes_allowed_for(5), 1);
    assert_eq!(plus_votes_allowed_for(2), 4);
    assert_eq!(plus_votes_allowed_for(100), 41);
    assert_eq!(minus_votes_allowed_for(41), 13);
}

#[test]
fn initialize_poll_stores_budget() {
    let poll = make_poll(9, 5);
    assert_eq!(poll.poll_id, 9);
    assert_eq!(poll.poll_description, "Board election");
    assert_eq!((poll.poll_start, poll.poll_end), (10, 20));
    assert_eq!(poll.candidate_count, 0);
    assert_eq!(poll.winners, 5);
    assert_eq!(poll.plus_votes_allowed, 5);
    assert_eq!(poll.minus_votes_allowed, 1);
}

#[test]
fn initialize_poll_twice_already_exists() {
    let mut ctx = InitializePoll { poll: Some(make_poll(3, 4)) };
    let r = initialize_poll(&mut ctx, 3, "other".to_string(), 0, 0, 7);
    assert_eq!(r, Err(ErrorCode::AlreadyExists));
    assert_eq!(ctx.poll.unwrap().winners, 4);
}

#[test]
fn initialize_poll_description_bound() {
    let mut ctx = InitializePoll { poll: None };
    let r = initialize_poll(&mut ctx, 3, "x".repeat(101), 0, 0, 5);
    assert_eq!(r, Err(ErrorCode::InvalidInput));
    assert!(ctx.poll.is_none());
    let r = initialize_poll(&mut ctx, 3, "x".repeat(100), 0, 0, 5);
    assert_eq!(r, Ok(()));
    // 50 two-byte characters are 100 bytes; 51 are too many.
    let mut ctx = InitializePoll { poll: None };
    let r = initialize_poll(&mut ctx, 3, "é".repeat(51), 0, 0, 5);
    assert_eq!(r, Err(ErrorCode::InvalidInput));
}

#[test]
fn registration_counts_each_candidate() {
    let mut poll = make_poll(1, 3);
    for n in 1..=4u64 {
        let mut ctx = InitializeCandidate { poll: Some(poll), candidate: None };
        assert_eq!(initialize_candidate(&mut ctx, format!("c{}", n), 1), Ok(()));
        let c = ctx.candidate.unwrap();
        assert_eq!((c.plus_votes, c.minus_votes), (0, 0));
        poll = ctx.poll.unwrap();
        assert_eq!(poll.candidate_count, n);
    }
}

#[test]
fn registering_same_name_twice_already_exists() {
    let mut ctx = InitializeCandidate { poll: Some(make_poll(1, 3)), candidate: None };
    assert_eq!(initialize_candidate(&mut ctx, "alice".to_string(), 1), Ok(()));
    let r = initialize_candidate(&mut ctx, "alice".to_string(), 1);
    assert_eq!(r, Err(ErrorCode::AlreadyExists));
    assert_eq!(ctx.poll.unwrap().candidate_count, 1);
}

#[test]
fn registration_needs_poll() {
    let mut ctx = InitializeCandidate { poll: None, candidate: None };
    assert_eq!(initialize_candidate(&mut ctx, "a".to_string(), 1), Err(ErrorCode::NotFound));
    let mut ctx = InitializeCandidate { poll: Some(make_poll(1, 3)), candidate: None };
    assert_eq!(initialize_candidate(&mut ctx, "a".to_string(), 2), Err(ErrorCode::InvalidInput));
    assert!(ctx.candidate.is_none());
}

#[test]
fn registration_counter_overflow() {
    let mut poll = make_poll(1, 3);
    poll.candidate_count = u64::MAX;
    let mut ctx = InitializeCandidate { poll: Some(poll), candidate: None };
    assert_eq!(initialize_candidate(&mut ctx, "a".to_string(), 1), Err(ErrorCode::Overflow));
    assert!(ctx.candidate.is_none());
    assert_eq!(ctx.poll.unwrap().candidate_count, u64::MAX);
}

#[test]
fn candidate_name_padded_and_cut() {
    let mut ctx = InitializeCandidate { poll: Some(make_poll(1, 3)), candidate: None };
    initialize_candidate(&mut ctx, "bob".to_string(), 1).unwrap();
    let mut expected = [0u8; 32];
    expected[..3].copy_from_slice(b"bob");
    assert_eq!(ctx.candidate.unwrap().name, expected);

    let long = "abcdefghijklmnopqrstuvwxyz0123456789";
    let mut ctx = InitializeCandidate { poll: Some(make_poll(1, 3)), candidate: None };
    initialize_candidate(&mut ctx, long.to_string(), 1).unwrap();
    assert_eq!(&ctx.candidate.unwrap().name[..], &long.as_bytes()[..32]);
}

#[test]
fn valid_ballot_is_tallied() {
    let mut ctx = seven_candidate_ballot();
    let plus = vec![give(1, 2), give(2, 2), give(3, 1)];
    let minus = vec![give(4, 1)];
    assert_eq!(vote(&mut ctx, 1, plus, minus), Ok(()));
    assert_eq!(
        tallies(&ctx),
        vec![(2, 0), (2, 0), (1, 0), (0, 1), (0, 0), (0, 0), (0, 0)]
    );
    assert_eq!(
        ctx.voter_record,
        Some(VoterRecord { has_voted: true, plus_used: 5, minus_used: 1 })
    );
}

#[test]
fn second_ballot_already_voted() {
    let mut ctx = seven_candidate_ballot();
    vote(&mut ctx, 1, vec![give(1, 3), give(2, 2)], vec![give(3, 1)]).unwrap();
    let before = tallies(&ctx);
    let r = vote(&mut ctx, 1, vec![give(5, 1)], vec![]);
    assert_eq!(r, Err(ErrorCode::AlreadyVoted));
    assert_eq!(tallies(&ctx), before);
    assert_eq!(
        ctx.voter_record,
        Some(VoterRecord { has_voted: true, plus_used: 5, minus_used: 1 })
    );
}

#[test]
fn minus_requires_two_plus() {
    let mut ctx = seven_candidate_ballot();
    let r = vote(&mut ctx, 1, vec![give(1, 1)], vec![give(2, 1)]);
    assert_eq!(r, Err(ErrorCode::MinusRequiresTwoPlus));
    assert!(ctx.voter_record.is_none());
    assert!(tallies(&ctx).iter().all(|t| *t == (0, 0)));
}

#[test]
fn total_equal_to_candidate_count_invalid() {
    let (poll, accounts) = register(make_poll(1, 5), &["a", "b", "c", "d"]);
    let mut ctx = ballot(poll, accounts);
    let r = vote(&mut ctx, 1, vec![give(1, 2), give(2, 1)], vec![give(3, 1)]);
    assert_eq!(r, Err(ErrorCode::InvalidTotal));
    assert!(tallies(&ctx).iter().all(|t| *t == (0, 0)));
    let r = vote(&mut ctx, 1, vec![give(1, 2), give(2, 1)], vec![]);
    assert_eq!(r, Ok(()));
}

#[test]
fn too_many_plus() {
    let mut ctx = seven_candidate_ballot();
    let r = vote(&mut ctx, 1, vec![give(1, 3), give(2, 3)], vec![]);
    assert_eq!(r, Err(ErrorCode::TooManyPlus));
    assert!(ctx.voter_record.is_none());
}

#[test]
fn too_many_minus() {
    let mut ctx = seven_candidate_ballot();
    let r = vote(&mut ctx, 1, vec![give(1, 3)], vec![give(2, 1), give(3, 1)]);
    assert_eq!(r, Err(ErrorCode::TooManyMinus));
}

#[test]
fn missing_candidate_changes_nothing() {
    let mut ctx = seven_candidate_ballot();
    let r = vote(&mut ctx, 1, vec![give(1, 2), give(9, 1)], vec![give(2, 1)]);
    assert_eq!(r, Err(ErrorCode::MissingCandidate));
    assert!(tallies(&ctx).iter().all(|t| *t == (0, 0)));
    assert!(ctx.voter_record.is_none());
    let r = vote(&mut ctx, 1, vec![give(1, 2), give(2, 1)], vec![give(9, 1)]);
    assert_eq!(r, Err(ErrorCode::MissingCandidate));
    assert!(tallies(&ctx).iter().all(|t| *t == (0, 0)));
}

#[test]
fn sum_overflow_rejected() {
    let mut ctx = seven_candidate_ballot();
    let r = vote(&mut ctx, 1, vec![give(1, 200), give(2, 100)], vec![]);
    assert_eq!(r, Err(ErrorCode::Overflow));
    let r = vote(&mut ctx, 1, vec![give(1, 2)], vec![give(2, 255), give(3, 1)]);
    assert_eq!(r, Err(ErrorCode::Overflow));
}

#[test]
fn counter_overflow_changes_nothing() {
    let mut ctx = seven_candidate_ballot();
    ctx.remaining_accounts[1].candidate.plus_votes = u64::MAX;
    let r = vote(&mut ctx, 1, vec![give(1, 1), give(2, 1)], vec![]);
    assert_eq!(r, Err(ErrorCode::Overflow));
    assert_eq!(ctx.remaining_accounts[0].candidate.plus_votes, 0);
    assert!(ctx.voter_record.is_none());
}

#[test]
fn duplicate_allocations_accumulate() {
    let mut ctx = seven_candidate_ballot();
    assert_eq!(vote(&mut ctx, 1, vec![give(1, 2), give(1, 3)], vec![]), Ok(()));
    assert_eq!(ctx.remaining_accounts[0].candidate.plus_votes, 5);
}

#[test]
fn vote_needs_poll() {
    let mut ctx = CastBallot { poll: None, voter_record: None, remaining_accounts: vec![] };
    assert_eq!(vote(&mut ctx, 1, vec![], vec![]), Err(ErrorCode::NotFound));
    let mut ctx = seven_candidate_ballot();
    assert_eq!(vote(&mut ctx, 2, vec![], vec![]), Err(ErrorCode::InvalidInput));
}

#[test]
fn existing_unvoted_record_can_vote() {
    let mut ctx = seven_candidate_ballot();
    ctx.voter_record = Some(VoterRecord { has_voted: false, plus_used: 0, minus_used: 0 });
    assert_eq!(vote(&mut ctx, 1, vec![give(7, 1)], vec![]), Ok(()));
    assert_eq!(ctx.remaining_accounts[6].candidate.plus_votes, 1);
}

#[test]
fn tally_ballot_reports_sums() {
    let (poll, mut accounts) = register(make_poll(1, 5), &["a", "b", "c", "d", "e", "f", "g"]);
    let voter = VoterRecord { has_voted: false, plus_used: 0, minus_used: 0 };
    let r = tally_ballot(&poll, &voter, &mut accounts, &vec![give(1, 4)], &vec![give(2, 1)]);
    assert_eq!(r, Ok((4, 1)));
    assert_eq!(accounts[1].candidate.minus_votes, 1);
}

#[test]
fn close_voter_record_releases() {
    let data = VoterRecordData { has_voted: true, plus_used: 3, minus_used: 0 };
    let mut ctx = CloseVoterRecord { voter_record: Some(data) };
    assert_eq!(close_voter_record(&mut ctx), Ok(()));
    assert!(ctx.voter_record.is_none());
    assert_eq!(close_voter_record(&mut ctx), Err(ErrorCode::NotFound));
}

#[test]
fn helpers() {
    assert_eq!(sum_allocations(&vec![give(1, 3), give(2, 4)]), Some(7));
    assert_eq!(sum_allocations(&vec![give(1, 255), give(2, 1)]), None);
    assert!(same_address(&addr(4), &addr(4)));
    let mut b = [4u8; 32];
    b[31] = 5;
    assert!(!same_address(&addr(4), &Address { bytes: b }));
    let (_, accounts) = register(make_poll(1, 5), &["a", "b", "c"]);
    assert_eq!(position(&accounts, &addr(3)), Some(2));
    assert_eq!(position(&accounts, &addr(8)), None);
    assert_eq!(votingdapp::to_le_bytes(0x0403_0201), vec![1, 2, 3, 4]);
}
