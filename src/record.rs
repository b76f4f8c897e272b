//! The persisted position record and its fixed-width binary layout.
use vstd::prelude::*;
use crate::address::Address;
use crate::bytes::{
    i64_at, le_bytes, lemma_cast_round_trip, lemma_signed_round_trip, lemma_u64_at_round_trip,
    lemma_u64_written_reads_back, push_all, push_u64, read_address, read_array, read_u64, u64_at,
};

verus! {

/// Number of bytes in a market symbol slot.
pub const MAX_SYMBOL_LENGTH: usize = 32;
/// Number of bytes in an encoded position record.
pub const POSITION_RECORD_LEN: usize = 147;
/// Direction of a long position.
pub const POSITION_LONG: i8 = 1;
/// Direction of a short position.
pub const POSITION_SHORT: i8 = -1;

/// One trader's leveraged position.
#[derive(Clone, Copy, Debug)]
pub struct PositionAccount {
    pub owner: Address,
    pub market_mint: Address,
    pub market_symbol: [u8; 32],
    pub entry_price: u64,
    pub liquidation_price: u64,
    pub paid_amount: u64,
    pub position_size: u64,
    pub leverage: u8,
    pub closed: u8,
    pub position_nonce: u64,
    pub pnl: i64,
    pub direction: i8,
}

/// The bytes of a record: owner, instrument, symbol, entry price, liquidation
/// price, collateral, notional, leverage, closed flag, nonce, pnl and
/// direction, in that order, integers little-endian.
pub open spec fn record_bytes(p: PositionAccount) -> Seq<u8> {
    p.owner@ + p.market_mint@ + p.market_symbol@ + le_bytes(p.entry_price as nat, 8) + le_bytes(
        p.liquidation_price as nat,
        8,
    ) + le_bytes(p.paid_amount as nat, 8) + le_bytes(p.position_size as nat, 8) + seq![
        p.leverage,
        p.closed,
    ] + le_bytes(p.position_nonce as nat, 8) + le_bytes((p.pnl as u64) as nat, 8) + seq![
        p.direction as u8,
    ]
}

/// Whether `p` is what the record bytes `s` hold.
pub open spec fn decodes_to(s: Seq<u8>, p: PositionAccount) -> bool {
    &&& s.len() == POSITION_RECORD_LEN
    &&& p.owner@ == s.subrange(0, 32)
    &&& p.market_mint@ == s.subrange(32, 64)
    &&& p.market_symbol@ == s.subrange(64, 96)
    &&& p.entry_price == u64_at(s, 96)
    &&& p.liquidation_price == u64_at(s, 104)
    &&& p.paid_amount == u64_at(s, 112)
    &&& p.position_size == u64_at(s, 120)
    &&& p.leverage == s[128]
    &&& p.closed == s[129]
    &&& p.position_nonce == u64_at(s, 130)
    &&& p.pnl == i64_at(s, 138)
    &&& p.direction == s[146] as i8
}

impl PositionAccount {
    /// The record in its persisted layout.
    pub fn encode(&self) -> (r: Vec<u8>)
        ensures
            r@ == record_bytes(*self),
            r@.len() == POSITION_RECORD_LEN,
    {
        let mut out: Vec<u8> = Vec::new();
        push_all(&mut out, self.owner.bytes.as_slice());
        push_all(&mut out, self.market_mint.bytes.as_slice());
        push_all(&mut out, self.market_symbol.as_slice());
        push_u64(&mut out, self.entry_price);
        push_u64(&mut out, self.liquidation_price);
        push_u64(&mut out, self.paid_amount);
        push_u64(&mut out, self.position_size);
        out.push(self.leverage);
        out.push(self.closed);
        push_u64(&mut out, self.position_nonce);
        push_u64(&mut out, self.pnl as u64);
        out.push(self.direction as u8);
        proof {
            lemma_le_bytes_len(self.entry_price as nat, 8);
            lemma_le_bytes_len(self.liquidation_price as nat, 8);
            lemma_le_bytes_len(self.paid_amount as nat, 8);
            lemma_le_bytes_len(self.position_size as nat, 8);
            lemma_le_bytes_len(self.position_nonce as nat, 8);
            lemma_le_bytes_len((self.pnl as u64) as nat, 8);
            assert(out@ =~= record_bytes(*self));
        }
        out
    }

    /// The record that `data` holds; `None` where it is not a whole record.
    pub fn decode(data: &[u8]) -> (r: Option<PositionAccount>)
        ensures
            r is Some <==> data@.len() == POSITION_RECORD_LEN,
            r matches Some(p) ==> decodes_to(data@, p),
    {
        if data.len() != POSITION_RECORD_LEN {
            return None;
        }
        Some(
            PositionAccount {
                owner: read_address(data, 0),
                market_mint: read_address(data, 32),
                market_symbol: read_array(data, 64),
                entry_price: read_u64(data, 96),
                liquidation_price: read_u64(data, 104),
                paid_amount: read_u64(data, 112),
                position_size: read_u64(data, 120),
                leverage: data[128],
                closed: data[129],
                position_nonce: read_u64(data, 130),
                pnl: read_u64(data, 138) as i64,
                direction: data[146] as i8,
            },
        )
    }
}

/// `le_bytes` gives as many bytes as asked for.
pub proof fn lemma_le_bytes_len(n: nat, len: nat)
    ensures
        le_bytes(n, len).len() == len,
    decreases len,
{
    if len > 0 {
        lemma_le_bytes_len(n / 256, (len - 1) as nat);
    }
}

/// Encoding the record that bytes hold gives back those bytes.
pub proof fn lemma_record_round_trip(s: Seq<u8>, p: PositionAccount)
    requires
        decodes_to(s, p),
    ensures
        record_bytes(p) == s,
{
    lemma_u64_at_round_trip(s, 96);
    lemma_u64_at_round_trip(s, 104);
    lemma_u64_at_round_trip(s, 112);
    lemma_u64_at_round_trip(s, 120);
    lemma_u64_at_round_trip(s, 130);
    lemma_u64_at_round_trip(s, 138);
    lemma_cast_round_trip(u64_at(s, 138), s[146]);
    lemma_le_bytes_len(p.entry_price as nat, 8);
    assert(record_bytes(p) =~= s);
}

/// Decoding the bytes of an encoded record gives the record back.
pub proof fn lemma_encoded_record_decodes(p: PositionAccount)
    ensures
        decodes_to(record_bytes(p), p),
{
    let s = record_bytes(p);
    lemma_le_bytes_len(p.entry_price as nat, 8);
    lemma_le_bytes_len(p.liquidation_price as nat, 8);
    lemma_le_bytes_len(p.paid_amount as nat, 8);
    lemma_le_bytes_len(p.position_size as nat, 8);
    lemma_le_bytes_len(p.position_nonce as nat, 8);
    lemma_le_bytes_len((p.pnl as u64) as nat, 8);
    assert(s.subrange(0, 32) =~= p.owner@);
    assert(s.subrange(32, 64) =~= p.market_mint@);
    assert(s.subrange(64, 96) =~= p.market_symbol@);
    assert(s.subrange(96, 104) =~= le_bytes(p.entry_price as nat, 8));
    assert(s.subrange(104, 112) =~= le_bytes(p.liquidation_price as nat, 8));
    assert(s.subrange(112, 120) =~= le_bytes(p.paid_amount as nat, 8));
    assert(s.subrange(120, 128) =~= le_bytes(p.position_size as nat, 8));
    assert(s.subrange(130, 138) =~= le_bytes(p.position_nonce as nat, 8));
    assert(s.subrange(138, 146) =~= le_bytes((p.pnl as u64) as nat, 8));
    lemma_u64_written_reads_back(s, 96, p.entry_price);
    lemma_u64_written_reads_back(s, 104, p.liquidation_price);
    lemma_u64_written_reads_back(s, 112, p.paid_amount);
    lemma_u64_written_reads_back(s, 120, p.position_size);
    lemma_u64_written_reads_back(s, 130, p.position_nonce);
    lemma_u64_written_reads_back(s, 138, p.pnl as u64);
    lemma_signed_round_trip(p.pnl, p.direction);
}

} // verus!
