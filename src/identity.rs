//! Deterministic record addresses, derived from a tag and the fields that
//! key a record, under the program that owns the records.
use anchor_lang::solana_program::pubkey::Pubkey;
use vstd::prelude::*;
use vstd::string::StringSliceAdditionalSpecFns;

verus! {

/// A 32-byte record address.
#[derive(Clone, Copy, Debug, PartialEq, Eq)]
pub struct Address {
    pub bytes: [u8; 32],
}

impl View for Address {
    type V = Seq<u8>;

    open spec fn view(&self) -> Seq<u8> {
        self.bytes@
    }
}

/// The address that a program derives from a list of seeds: the first
/// address off the ed25519 curve found by a bump-seed search, or `None`.
pub uninterp spec fn program_address(seeds: Seq<Seq<u8>>, program: Seq<u8>) -> Option<Seq<u8>>;

/// The largest number of seeds that a derivation takes besides its bump.
pub const MAX_SEEDS: usize = 15;

/// The largest length of one seed.
pub const MAX_SEED_LEN: usize = 32;

/// Whether a derivation from `seeds` is refused before any search.
pub open spec fn seeds_refused(seeds: Seq<Seq<u8>>) -> bool {
    seeds.len() > MAX_SEEDS || exists|i: int| 0 <= i < seeds.len() && seeds[i].len() > MAX_SEED_LEN
}

/// Relies on `Pubkey::try_find_program_address`: its result depends on the
/// seeds and the program alone, and it is `None` when there are 16 seeds or
/// more with the bump, or a seed longer than 32 bytes. The bump is dropped.
#[verifier::external_body]
fn find_program_address(seeds: &Vec<Vec<u8>>, program: &Address) -> (r: Option<Address>)
    ensures
        r matches Some(a) ==> program_address(seeds_view(seeds@), program@) == Some(a@),
        r is None ==> program_address(seeds_view(seeds@), program@) is None,
        seeds_refused(seeds_view(seeds@)) ==> r is None,
{
    let slices: Vec<&[u8]> = seeds.iter().map(|s| s.as_slice()).collect();
    let program_key = Pubkey::new_from_array(program.bytes);
    Pubkey::try_find_program_address(&slices, &program_key).map(|(key, _bump)| Address { bytes: key.to_bytes() })
}

/// The byte strings held by a list of seeds.
pub open spec fn seeds_view(seeds: Seq<Vec<u8>>) -> Seq<Seq<u8>> {
    seeds.map_values(|s: Vec<u8>| s@)
}

/// The four little-endian bytes of `x`.
pub open spec fn le_bytes(x: u32) -> Seq<u8> {
    seq![
        (x % 0x100) as u8,
        (x / 0x100 % 0x100) as u8,
        (x / 0x1_0000 % 0x100) as u8,
        (x / 0x100_0000 % 0x100) as u8,
    ]
}

/// The four little-endian bytes of `x`.
pub fn to_le_bytes(x: u32) -> (r: Vec<u8>)
    ensures
        r@ == le_bytes(x),
{
    let mut r: Vec<u8> = Vec::new();
    r.push((x % 0x100) as u8);
    r.push((x / 0x100 % 0x100) as u8);
    r.push((x / 0x1_0000 % 0x100) as u8);
    r.push((x / 0x100_0000 % 0x100) as u8);
    assert(r@ =~= le_bytes(x));
    r
}

/// The tag of poll addresses: "poll".
pub open spec fn poll_tag() -> Seq<u8> {
    seq![0x70u8, 0x6f, 0x6c, 0x6c]
}

/// The tag of candidate addresses: "cand".
pub open spec fn candidate_tag() -> Seq<u8> {
    seq![0x63u8, 0x61, 0x6e, 0x64]
}

/// The tag of voter-record addresses: "voter".
pub open spec fn voter_tag() -> Seq<u8> {
    seq![0x76u8, 0x6f, 0x74, 0x65, 0x72]
}

/// The seeds of a poll's address.
pub open spec fn poll_seeds(poll_id: u32) -> Seq<Seq<u8>> {
    seq![poll_tag(), le_bytes(poll_id)]
}

/// The seeds of a candidate's address: the poll and the candidate's name.
pub open spec fn candidate_seeds(poll_id: u32, name: Seq<u8>) -> Seq<Seq<u8>> {
    seq![candidate_tag(), le_bytes(poll_id), name]
}

/// The seeds of a voter record's address: the voter and the poll.
pub open spec fn voter_seeds(voter: Seq<u8>, poll_id: u32) -> Seq<Seq<u8>> {
    seq![voter_tag(), voter, le_bytes(poll_id)]
}

fn poll_tag_vec() -> (r: Vec<u8>)
    ensures
        r@ == poll_tag(),
{
    let mut r: Vec<u8> = Vec::new();
    r.push(0x70u8);
    r.push(0x6fu8);
    r.push(0x6cu8);
    r.push(0x6cu8);
    assert(r@ =~= poll_tag());
    r
}

fn candidate_tag_vec() -> (r: Vec<u8>)
    ensures
        r@ == candidate_tag(),
{
    let mut r: Vec<u8> = Vec::new();
    r.push(0x63u8);
    r.push(0x61u8);
    r.push(0x6eu8);
    r.push(0x64u8);
    assert(r@ =~= candidate_tag());
    r
}

fn voter_tag_vec() -> (r: Vec<u8>)
    ensures
        r@ == voter_tag(),
{
    let mut r: Vec<u8> = Vec::new();
    r.push(0x76u8);
    r.push(0x6fu8);
    r.push(0x74u8);
    r.push(0x65u8);
    r.push(0x72u8);
    assert(r@ =~= voter_tag());
    r
}

fn derive_address(seeds: Vec<Vec<u8>>, program_id: &Address, expected: Ghost<Seq<Seq<u8>>>) -> (r: Option<Address>)
    requires
        seeds_view(seeds@) == expected@,
    ensures
        r matches Some(a) ==> program_address(expected@, program_id@) == Some(a@),
        r is None ==> program_address(expected@, program_id@) is None,
        seeds_refused(expected@) ==> r is None,
{
    find_program_address(&seeds, program_id)
}

/// The address of the poll `poll_id` under `program_id`.
pub fn poll_address(poll_id: u32, program_id: &Address) -> (r: Option<Address>)
    ensures
        r matches Some(a) ==> program_address(poll_seeds(poll_id), program_id@) == Some(a@),
        r is None ==> program_address(poll_seeds(poll_id), program_id@) is None,
{
    let mut seeds: Vec<Vec<u8>> = Vec::new();
    seeds.push(poll_tag_vec());
    seeds.push(to_le_bytes(poll_id));
    proof {
        assert(seeds_view(seeds@) =~= poll_seeds(poll_id));
    }
    derive_address(seeds, program_id, Ghost(poll_seeds(poll_id)))
}

fn slice_to_vec(b: &[u8]) -> (r: Vec<u8>)
    ensures
        r@ == b@,
{
    let mut r: Vec<u8> = Vec::new();
    let mut i: usize = 0;
    while i < b.len()
        invariant
            i <= b@.len(),
            r@ == b@.subrange(0, i as int),
        decreases b@.len() - i,
    {
        r.push(b[i]);
        i = i + 1;
        assert(r@ =~= b@.subrange(0, i as int));
    }
    assert(b@.subrange(0, i as int) =~= b@);
    r
}

/// The address of the candidate named `name` in the poll `poll_id`. A name
/// longer than 32 bytes derives no address.
pub fn candidate_address(poll_id: u32, name: &str, program_id: &Address) -> (r: Option<Address>)
    ensures
        r matches Some(a) ==> program_address(
            candidate_seeds(poll_id, name.spec_bytes()),
            program_id@,
        ) == Some(a@),
        r is None ==> program_address(candidate_seeds(poll_id, name.spec_bytes()), program_id@) is None,
        name.spec_bytes().len() > MAX_SEED_LEN ==> r is None,
{
    let mut seeds: Vec<Vec<u8>> = Vec::new();
    seeds.push(candidate_tag_vec());
    seeds.push(to_le_bytes(poll_id));
    seeds.push(slice_to_vec(name.as_bytes()));
    let ghost expected = candidate_seeds(poll_id, name.spec_bytes());
    proof {
        assert(seeds_view(seeds@) =~= expected);
        if name.spec_bytes().len() > MAX_SEED_LEN {
            assert(expected[2].len() > MAX_SEED_LEN);
        }
    }
    derive_address(seeds, program_id, Ghost(expected))
}

/// The address of the record of `voter`'s ballot in the poll `poll_id`.
pub fn voter_address(voter: &Address, poll_id: u32, program_id: &Address) -> (r: Option<Address>)
    ensures
        r matches Some(a) ==> program_address(voter_seeds(voter@, poll_id), program_id@) == Some(a@),
        r is None ==> program_address(voter_seeds(voter@, poll_id), program_id@) is None,
{
    let mut seeds: Vec<Vec<u8>> = Vec::new();
    seeds.push(voter_tag_vec());
    seeds.push(slice_to_vec(voter.bytes.as_slice()));
    seeds.push(to_le_bytes(poll_id));
    proof {
        assert(seeds_view(seeds@) =~= voter_seeds(voter@, poll_id));
    }
    derive_address(seeds, program_id, Ghost(voter_seeds(voter@, poll_id)))
}

/// Distinct poll identifiers have distinct little-endian encodings.
pub proof fn lemma_le_bytes_injective(x: u32, y: u32)
    requires
        le_bytes(x) == le_bytes(y),
    ensures
        x == y,
{
    assert(le_bytes(x)[0] == le_bytes(y)[0]);
    assert(le_bytes(x)[1] == le_bytes(y)[1]);
    assert(le_bytes(x)[2] == le_bytes(y)[2]);
    assert(le_bytes(x)[3] == le_bytes(y)[3]);
    assert(x == x % 0x100 + 0x100 * (x / 0x100 % 0x100) + 0x1_0000 * (x / 0x1_0000 % 0x100)
        + 0x100_0000 * (x / 0x100_0000 % 0x100)) by (nonlinear_arith);
    assert(y == y % 0x100 + 0x100 * (y / 0x100 % 0x100) + 0x1_0000 * (y / 0x1_0000 % 0x100)
        + 0x100_0000 * (y / 0x100_0000 % 0x100)) by (nonlinear_arith);
}

/// Deriving a candidate's address is deterministic: the same poll and name
/// under the same program give the same outcome.
pub proof fn lemma_candidate_address_deterministic(
    poll_id: u32,
    name1: Seq<u8>,
    name2: Seq<u8>,
    program: Seq<u8>,
)
    requires
        name1 == name2,
    ensures
        program_address(candidate_seeds(poll_id, name1), program) == program_address(
            candidate_seeds(poll_id, name2),
            program,
        ),
{
}

/// Candidates of distinct polls are derived from distinct seeds, and the
/// three kinds of record are derived from seeds with distinct tags.
pub proof fn lemma_seeds_distinct(p1: u32, p2: u32, name1: Seq<u8>, name2: Seq<u8>, voter: Seq<u8>)
    requires
        p1 != p2,
    ensures
        candidate_seeds(p1, name1) != candidate_seeds(p2, name2),
        poll_seeds(p1) != poll_seeds(p2),
        candidate_seeds(p1, name1)[0] != poll_seeds(p2)[0],
        candidate_seeds(p1, name1)[0] != voter_seeds(voter, p2)[0],
        poll_seeds(p1)[0] != voter_seeds(voter, p2)[0],
{
    if le_bytes(p1) == le_bytes(p2) {
        lemma_le_bytes_injective(p1, p2);
    }
    assert(candidate_seeds(p1, name1)[1] != candidate_seeds(p2, name2)[1]);
    assert(poll_seeds(p1)[1] != poll_seeds(p2)[1]);
    assert(candidate_tag()[0] != poll_tag()[0]);
    assert(candidate_tag()[0] != voter_tag()[0]);
    assert(poll_tag().len() != voter_tag().len());
}

} // verus!
