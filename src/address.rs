//! Account addresses and the derivation of program addresses from seeds.
use vstd::prelude::*;
use vstd::string::*;
use crate::bytes::{le_bytes, u64_to_le};

verus! {

/// Number of bytes in an address.
pub const ADDRESS_LEN: usize = 32;

/// A 32-byte account address.
#[derive(Clone, Copy, Debug)]
pub struct Address {
    pub bytes: [u8; 32],
}

impl View for Address {
    type V = Seq<u8>;

    open spec fn view(&self) -> Seq<u8> {
        self.bytes@
    }
}

impl Address {
    pub fn new(bytes: [u8; 32]) -> (r: Address)
        ensures
            r.bytes == bytes,
    {
        Address { bytes }
    }

    /// Whether two addresses hold the same bytes.
    pub fn same(&self, other: &Address) -> (r: bool)
        ensures
            r == (self@ == other@),
    {
        let mut i: usize = 0;
        while i < ADDRESS_LEN
            invariant
                i <= ADDRESS_LEN,
                self@.len() == ADDRESS_LEN,
                other@.len() == ADDRESS_LEN,
                forall|j: int| 0 <= j < i ==> self@[j] == other@[j],
            decreases ADDRESS_LEN - i,
        {
            if self.bytes[i] != other.bytes[i] {
                return false;
            }
            i = i + 1;
        }
        assert(self@ =~= other@);
        true
    }
}

impl PartialEq for Address {
    fn eq(&self, other: &Address) -> (r: bool) {
        self.same(other)
    }
}

impl vstd::std_specs::cmp::PartialEqSpecImpl for Address {
    open spec fn obeys_eq_spec() -> bool {
        true
    }

    open spec fn eq_spec(&self, other: &Address) -> bool {
        self@ == other@
    }
}

impl Eq for Address {
}

/// The program address and bump seed that the derivation finds for `seeds`
/// under `program_id`, or `None` where no bump seed gives an address off the
/// curve.
pub uninterp spec fn program_address_of(seeds: Seq<Seq<u8>>, program_id: Seq<u8>) -> Option<(Seq<u8>, u8)>;

/// The view of a derived address and its bump seed.
pub open spec fn found_view(found: Option<(Address, u8)>) -> Option<(Seq<u8>, u8)> {
    match found {
        Some((a, bump)) => Some((a@, bump)),
        None => None,
    }
}

/// Whether `key` is the address derived from `seeds` under `program_id`.
pub open spec fn derives(key: Seq<u8>, seeds: Seq<Seq<u8>>, program_id: Seq<u8>) -> bool {
    match program_address_of(seeds, program_id) {
        Some((a, _)) => a == key,
        None => false,
    }
}

/// Relies on `solana_program::pubkey::Pubkey::try_find_program_address`: the
/// search over bump seeds is a function of the seeds and the program id alone
/// (a hash of them), and it returns `None` instead of panicking where no bump
/// seed works.
#[verifier::external_body]
fn try_find_address(seeds: &Vec<Vec<u8>>, program_id: &Address) -> (r: Option<(Address, u8)>)
    ensures
        found_view(r) == program_address_of(seeds@.map_values(|s: Vec<u8>| s@), program_id@),
{
    let slices: Vec<&[u8]> = seeds.iter().map(|s| s.as_slice()).collect();
    let program = solana_program::pubkey::Pubkey::new_from_array(program_id.bytes);
    solana_program::pubkey::Pubkey::try_find_program_address(&slices, &program)
        .map(|(a, bump)| (Address { bytes: a.to_bytes() }, bump))
}

/// Seed tag of position records.
pub open spec fn position_tag() -> Seq<u8> {
    "uranus_position".spec_bytes()
}

/// Seed tag of market liquidity pools.
pub open spec fn market_tag() -> Seq<u8> {
    "uranus_market".spec_bytes()
}

/// Version tag that closes the seeds of a market pool.
pub open spec fn market_version() -> Seq<u8> {
    "v1".spec_bytes()
}

/// Seed tag of the program vault.
pub open spec fn vault_tag() -> Seq<u8> {
    "uranus_program_vault".spec_bytes()
}

/// Seeds of the record of `owner` with the given nonce.
pub open spec fn position_seeds(owner: Seq<u8>, nonce: u64) -> Seq<Seq<u8>> {
    seq![position_tag(), owner, le_bytes(nonce as nat, 8)]
}

/// Seeds of the liquidity pool of an instrument.
pub open spec fn market_seeds(mint: Seq<u8>) -> Seq<Seq<u8>> {
    seq![market_tag(), mint, market_version()]
}

/// Seeds of the program vault.
pub open spec fn vault_seeds() -> Seq<Seq<u8>> {
    seq![vault_tag()]
}

fn address_bytes(a: &Address) -> (r: Vec<u8>)
    ensures
        r@ == a@,
{
    let mut out: Vec<u8> = Vec::new();
    let mut i: usize = 0;
    while i < ADDRESS_LEN
        invariant
            i <= ADDRESS_LEN,
            a@.len() == ADDRESS_LEN,
            out@ == a@.subrange(0, i as int),
        decreases ADDRESS_LEN - i,
    {
        out.push(a.bytes[i]);
        assert(out@ =~= a@.subrange(0, i + 1));
        i = i + 1;
    }
    assert(out@ =~= a@);
    out
}

/// Address and bump seed of the record of `owner` with the given nonce.
pub fn find_position_address(owner: &Address, position_nonce: u64, program_id: &Address) -> (r:
    Option<(Address, u8)>)
    ensures
        found_view(r) == program_address_of(position_seeds(owner@, position_nonce), program_id@),
{
    let mut seeds: Vec<Vec<u8>> = Vec::new();
    seeds.push("uranus_position".as_bytes_vec());
    seeds.push(address_bytes(owner));
    seeds.push(u64_to_le(position_nonce));
    assert(seeds@.map_values(|s: Vec<u8>| s@) =~= position_seeds(owner@, position_nonce));
    try_find_address(&seeds, program_id)
}

/// Address and bump seed of the liquidity pool of an instrument.
pub fn find_market_address(market_mint: &Address, program_id: &Address) -> (r: Option<(Address, u8)>)
    ensures
        found_view(r) == program_address_of(market_seeds(market_mint@), program_id@),
{
    let mut seeds: Vec<Vec<u8>> = Vec::new();
    seeds.push("uranus_market".as_bytes_vec());
    seeds.push(address_bytes(market_mint));
    seeds.push("v1".as_bytes_vec());
    assert(seeds@.map_values(|s: Vec<u8>| s@) =~= market_seeds(market_mint@));
    try_find_address(&seeds, program_id)
}

/// Address and bump seed of the program vault.
pub fn find_program_vault_address(program_id: &Address) -> (r: Option<(Address, u8)>)
    ensures
        found_view(r) == program_address_of(vault_seeds(), program_id@),
{
    let mut seeds: Vec<Vec<u8>> = Vec::new();
    seeds.push("uranus_program_vault".as_bytes_vec());
    assert(seeds@.map_values(|s: Vec<u8>| s@) =~= vault_seeds());
    try_find_address(&seeds, program_id)
}

/// Whether `key` is the address that `found` holds.
pub fn matches_found(key: &Address, found: &Option<(Address, u8)>) -> (r: bool)
    ensures
        r == match found_view(*found) {
            Some((a, _)) => a == key@,
            None => false,
        },
{
    match found {
        Some((a, _)) => a.same(key),
        None => false,
    }
}

} // verus!
