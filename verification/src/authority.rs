use vstd::prelude::*;
use vstd::bytes::lemma_auto_spec_u64_to_from_le_bytes;
use vstd::bytes::spec_u64_from_le_bytes;
use vstd::bytes::spec_u64_to_le_bytes;
use vstd::bytes::u64_to_le_bytes;
use anchor_lang::solana_program::pubkey::Pubkey;
use anchor_lang::solana_program::pubkey::PubkeyError;
use crate::address::Address;

verus! {

/// The reason `Pubkey::create_program_address` gives when it yields no
/// address.
#[verifier::external_type_specification]
#[verifier::external_body]
pub struct ExPubkeyError(anchor_lang::solana_program::pubkey::PubkeyError);

/// What `Pubkey::try_find_program_address` returns for the given seeds and
/// program: the derived address and the bump that was appended to the seeds to
/// obtain it, if there is one.
pub uninterp spec fn found_address(seeds: Seq<Seq<u8>>, program: Seq<u8>) -> Option<(Seq<u8>, u8)>;

/// The address that `Pubkey::create_program_address` returns for the given
/// seeds and program, `None` where it returns an error.
pub uninterp spec fn created_address(seeds: Seq<Seq<u8>>, program: Seq<u8>) -> Option<Seq<u8>>;

/// Calls `Pubkey::try_find_program_address` on three seeds. The search
/// appends a one-byte bump to the seeds, from 255 downwards, and returns the
/// first address that `Pubkey::create_program_address` yields for them,
/// together with that bump; so an address it finds is the one created from
/// the seeds followed by the bump. Nothing is claimed about when it finds
/// one.
#[verifier::external_body]
fn try_find_program_address(s0: &[u8], s1: &[u8], s2: &[u8], program: &Address) -> (r: Option<
    (Address, u8),
>)
    ensures
        match r {
            Some((a, b)) => {
                &&& found_address(seq![s0@, s1@, s2@], program@) == Some((a@, b))
                &&& created_address(seq![s0@, s1@, s2@, seq![b]], program@) == Some(a@)
            },
            None => found_address(seq![s0@, s1@, s2@], program@) is None,
        },
{
    match Pubkey::try_find_program_address(&[s0, s1, s2], &Pubkey::new_from_array(program.bytes)) {
        Some((key, bump)) => Some((Address { bytes: key.to_bytes() }, bump)),
        None => None,
    }
}

/// Calls `Pubkey::create_program_address` on four seeds. Nothing is claimed
/// about which seeds it accepts.
#[verifier::external_body]
fn create_program_address(
    s0: &[u8],
    s1: &[u8],
    s2: &[u8],
    s3: &[u8],
    program: &Address,
) -> (r: Result<Address, PubkeyError>)
    ensures
        match r {
            Ok(a) => created_address(seq![s0@, s1@, s2@, s3@], program@) == Some(a@),
            Err(_) => created_address(seq![s0@, s1@, s2@, s3@], program@) is None,
        },
{
    match Pubkey::create_program_address(
        &[s0, s1, s2, s3],
        &Pubkey::new_from_array(program.bytes),
    ) {
        Ok(key) => Ok(Address { bytes: key.to_bytes() }),
        Err(e) => Err(e),
    }
}

/// The first seed of every escrow: the ASCII letters of `escrow`.
pub open spec fn escrow_tag() -> Seq<u8> {
    seq![0x65u8, 0x73u8, 0x63u8, 0x72u8, 0x6fu8, 0x77u8]
}

/// The seeds that identify the escrow which `maker` opens under `seed`: the
/// tag, the maker's address, and the seed as eight little-endian bytes.
pub open spec fn escrow_seeds(maker: Seq<u8>, seed: u64) -> Seq<Seq<u8>> {
    seq![escrow_tag(), maker, spec_u64_to_le_bytes(seed)]
}

/// Different makers or different seeds never share their list of seeds.
pub proof fn lemma_seeds_tell_apart(maker: Seq<u8>, seed: u64, other_maker: Seq<u8>, other_seed: u64)
    requires
        maker != other_maker || seed != other_seed,
    ensures
        escrow_seeds(maker, seed) != escrow_seeds(other_maker, other_seed),
{
    let one = escrow_seeds(maker, seed);
    let two = escrow_seeds(other_maker, other_seed);
    if one == two {
        assert(one[1] == maker && two[1] == other_maker);
        assert(one[2] == spec_u64_to_le_bytes(seed) && two[2] == spec_u64_to_le_bytes(other_seed));
        lemma_auto_spec_u64_to_from_le_bytes();
        assert(spec_u64_from_le_bytes(spec_u64_to_le_bytes(seed)) == seed);
        assert(spec_u64_from_le_bytes(spec_u64_to_le_bytes(other_seed)) == other_seed);
    }
}

/// The authority derived for the escrow of `(maker, seed)` under `program`:
/// its address, and the bump that proves the derivation.
pub open spec fn derived_authority(program: Seq<u8>, maker: Seq<u8>, seed: u64) -> Option<
    (Seq<u8>, u8),
> {
    found_address(escrow_seeds(maker, seed), program)
}

/// The bump of a derived authority, `0` where there is none.
pub open spec fn bump_of(found: Option<(Seq<u8>, u8)>) -> u8 {
    match found {
        Some((_, bump)) => bump,
        None => 0,
    }
}

/// Whether an authority was derived and stands at `at`.
pub open spec fn stands_at(found: Option<(Seq<u8>, u8)>, at: Seq<u8>) -> bool {
    match found {
        Some((address, _)) => address == at,
        None => false,
    }
}

/// The address that the seeds of `(maker, seed)` and a stored bump lead back
/// to, if they lead to one.
pub open spec fn escrow_address(program: Seq<u8>, maker: Seq<u8>, seed: u64, bump: u8) -> Option<
    Seq<u8>,
> {
    created_address(escrow_seeds(maker, seed).push(seq![bump]), program)
}

/// The first seed of every escrow, as bytes.
fn tag_bytes() -> (r: [u8; 6])
    ensures
        r@ == escrow_tag(),
{
    let r: [u8; 6] = [0x65, 0x73, 0x63, 0x72, 0x6f, 0x77];
    assert(r@ =~= escrow_tag());
    r
}

/// Derives the authority of the escrow that `maker` opens under `seed`.
pub fn find_authority(program: &Address, maker: &Address, seed: u64) -> (r: Option<(Address, u8)>)
    ensures
        r.deep_view() == derived_authority(program@, maker@, seed),
        r matches Some((a, b)) ==> escrow_address(program@, maker@, seed, b) == Some(a@),
{
    let tag = tag_bytes();
    let number = u64_to_le_bytes(seed);
    let r = try_find_program_address(
        tag.as_slice(),
        (&maker.bytes).as_slice(),
        number.as_slice(),
        program,
    );
    proof {
        assert(seq![tag@, maker@, number@] =~= escrow_seeds(maker@, seed));
        if let Some((a, b)) = r {
            assert(seq![tag@, maker@, number@, seq![b]] =~= escrow_seeds(maker@, seed).push(
                seq![b],
            ));
        }
    }
    r
}

/// Rebuilds the authority of the escrow of `(maker, seed)` from its stored
/// bump, without searching.
pub fn recreate_authority(program: &Address, maker: &Address, seed: u64, bump: u8) -> (r: Option<
    Address,
>)
    ensures
        r.deep_view() == escrow_address(program@, maker@, seed, bump),
{
    let tag = tag_bytes();
    let number = u64_to_le_bytes(seed);
    let proof_byte: [u8; 1] = [bump];
    let r = create_program_address(
        tag.as_slice(),
        (&maker.bytes).as_slice(),
        number.as_slice(),
        proof_byte.as_slice(),
        program,
    );
    proof {
        assert(proof_byte@ =~= seq![bump]);
        assert(seq![tag@, maker@, number@, proof_byte@] =~= escrow_seeds(maker@, seed).push(
            seq![bump],
        ));
    }
    match r {
        Ok(a) => Some(a),
        Err(_) => None,
    }
}

} // verus!
