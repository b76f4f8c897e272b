//! Transitions of a position record: open, authority update, close mark,
//! settlement and forced recovery close; and pool rebalancing.
use vstd::prelude::*;
use crate::address::{
    derives, find_market_address, find_position_address, find_program_vault_address,
    market_seeds, matches_found, position_seeds, program_address_of,
    vault_seeds, Address,
};
use crate::bytes::{le_bytes, lemma_u64_at_round_trip, u64_at};
use crate::error::PositionError;
use crate::fees::{
    clamp_leverage, clamped_leverage, compute_fee, fee_of, MAXIMUM_LEVERAGE,
    MIN_POSITION_SIZE_LAMPORTS,
};
use crate::instruction::{
    DexModifyData, InitializePositionData, MarketTransferData, ProcessPnlData, UserModifyData,
};
use crate::record::{
    decodes_to, lemma_record_round_trip, record_bytes, PositionAccount, POSITION_LONG,
    POSITION_RECORD_LEN, POSITION_SHORT,
};
use crate::settlement::{
    apply_settlement, fee_sink_after, owner_after, plan_applies, plan_settlement, pool_after,
    settlement_of, Balances,
};

verus! {

/// Identities the program runs with: its own id, which holds its records and
/// pools, and the trading authority.
#[derive(Clone, Copy, Debug)]
pub struct ProgramConfig {
    pub program_id: Address,
    pub authority: Address,
}

/// An account as an operation sees it: its address, the program that holds
/// it, whether it signed, its balance and its data.
#[derive(Clone, Debug)]
pub struct AccountState {
    pub key: Address,
    pub owner: Address,
    pub is_signer: bool,
    pub lamports: u64,
    pub data: Vec<u8>,
}

/// Whether two account states are the same.
pub open spec fn same_account(a: AccountState, b: AccountState) -> bool {
    &&& a.key == b.key
    &&& a.owner == b.owner
    &&& a.is_signer == b.is_signer
    &&& a.lamports == b.lamports
    &&& a.data@ == b.data@
}

/// Whether `a` is the trading authority and signed.
pub open spec fn authorized(config: ProgramConfig, a: AccountState) -> bool {
    a.is_signer && a.key@ == config.authority@
}

/// Whether the program holds `a`.
pub open spec fn held_by_program(config: ProgramConfig, a: AccountState) -> bool {
    a.owner@ == config.program_id@
}

/// The result of an operation that fails with the first error found, if any.
pub open spec fn outcome(e: Option<PositionError>) -> Result<(), PositionError> {
    match e {
        Some(e) => Err(e),
        None => Ok(()),
    }
}

/// Owner stored in record bytes.
pub open spec fn stored_owner(s: Seq<u8>) -> Seq<u8> {
    s.subrange(0, 32)
}

/// Instrument stored in record bytes.
pub open spec fn stored_mint(s: Seq<u8>) -> Seq<u8> {
    s.subrange(32, 64)
}

/// Leverage stored in record bytes.
pub open spec fn stored_leverage(s: Seq<u8>) -> u8 {
    s[128]
}

/// Closed flag stored in record bytes.
pub open spec fn stored_closed(s: Seq<u8>) -> u8 {
    s[129]
}

/// Nonce stored in record bytes.
pub open spec fn stored_nonce(s: Seq<u8>) -> u64 {
    u64_at(s, 130)
}

/// Whether every byte of `s` is zero.
pub open spec fn all_zero(s: Seq<u8>) -> bool {
    forall|i: int| 0 <= i < s.len() ==> s[i] == 0
}

fn is_authority(config: &ProgramConfig, a: &AccountState) -> (r: bool)
    ensures
        r == authorized(*config, *a),
{
    a.is_signer && a.key.same(&config.authority)
}

/// Overwrites every byte of `data` with zero.
pub fn zero_account_data(data: &mut Vec<u8>)
    ensures
        final(data)@.len() == old(data)@.len(),
        all_zero(final(data)@),
{
    let len = data.len();
    let mut i: usize = 0;
    while i < len
        invariant
            i <= len,
            data@.len() == len,
            forall|j: int| 0 <= j < i ==> data@[j] == 0,
        decreases len - i,
    {
        data.set(i, 0);
        i = i + 1;
    }
}

// ---------------------------------------------------------------------------
// Open
// ---------------------------------------------------------------------------

/// Sizing of a new position.
#[derive(Clone, Copy, Debug, PartialEq, Eq, Structural)]
pub struct OpenTerms {
    /// Leverage after clamping.
    pub leverage: u8,
    /// Origination fee.
    pub fee: u64,
    /// What is locked after the fee.
    pub collateral: u64,
    /// `collateral * leverage`.
    pub notional: u64,
}

/// Notional of a position opened with `paid_amount` at the requested leverage.
pub open spec fn notional_of(paid_amount: u64, requested_leverage: u8) -> int {
    let leverage = clamped_leverage(requested_leverage);
    (paid_amount - fee_of(paid_amount, leverage)) * leverage
}

/// Sizes a position: clamps the leverage, takes the fee from the paid amount
/// and multiplies what is left by the leverage. Fails only where the notional
/// would not fit in a `u64`.
pub fn open_terms(paid_amount: u64, requested_leverage: u8) -> (r: Result<OpenTerms, PositionError>)
    ensures
        r is Ok <==> notional_of(paid_amount, requested_leverage) <= u64::MAX,
        r matches Err(e) ==> e == PositionError::ArithmeticOverflow,
        r matches Ok(t) ==> {
            &&& t.leverage == clamped_leverage(requested_leverage)
            &&& 1 <= t.leverage <= MAXIMUM_LEVERAGE
            &&& t.fee == fee_of(paid_amount, t.leverage)
            &&& t.collateral + t.fee == paid_amount
            &&& t.notional == t.collateral * t.leverage
        },
{
    let leverage = clamp_leverage(requested_leverage);
    let fee = compute_fee(paid_amount, leverage);
    let collateral = paid_amount - fee;
    match collateral.checked_mul(leverage as u64) {
        Some(notional) => Ok(OpenTerms { leverage, fee, collateral, notional }),
        None => Err(PositionError::ArithmeticOverflow),
    }
}

/// What opening a position asks of the ledger: take `fee` from the payer to
/// the fee sink, create the pool if `market_bump` is set, and create the
/// record at its derived address holding the collateral and `record_data`.
#[derive(Clone, Debug)]
pub struct OpenPlan {
    pub record: PositionAccount,
    pub record_data: Vec<u8>,
    pub fee: u64,
    pub market_bump: Option<u8>,
    pub position_bump: u8,
}

/// The first check that opening a position fails, if any.
pub open spec fn initialize_error(
    config: ProgramConfig,
    payer_is_signer: bool,
    owner: Seq<u8>,
    position_key: Seq<u8>,
    market: AccountState,
    dex_key: Seq<u8>,
    d: InitializePositionData,
) -> Option<PositionError> {
    let notional = notional_of(d.paid_amount, d.leverage);
    if !payer_is_signer {
        Some(PositionError::AuthorizationFailure)
    } else if d.position_size < MIN_POSITION_SIZE_LAMPORTS {
        Some(PositionError::InvalidArgument)
    } else if notional > u64::MAX {
        Some(PositionError::ArithmeticOverflow)
    } else if notional < MIN_POSITION_SIZE_LAMPORTS {
        Some(PositionError::InvalidArgument)
    } else if d.direction != POSITION_LONG && d.direction != POSITION_SHORT {
        Some(PositionError::InvalidArgument)
    } else if !derives(market.key@, market_seeds(d.market_mint@), config.program_id@) {
        Some(PositionError::AddressMismatch)
    } else if dex_key != config.authority@ {
        Some(PositionError::InvalidArgument)
    } else if !derives(position_key, position_seeds(owner, d.position_nonce), config.program_id@) {
        Some(PositionError::AddressMismatch)
    } else {
        None
    }
}

/// Opens a position: validates the request, sizes it and describes the
/// record to create. The record is open, unpriced, and carries the clamped
/// leverage, the collateral left after the fee and the notional.
pub fn process_initialize(
    config: &ProgramConfig,
    payer_is_signer: bool,
    owner: &Address,
    position_key: &Address,
    market: &AccountState,
    dex_key: &Address,
    d: &InitializePositionData,
) -> (r: Result<OpenPlan, PositionError>)
    ensures
        r is Ok <==> initialize_error(
            *config,
            payer_is_signer,
            owner@,
            position_key@,
            *market,
            dex_key@,
            *d,
        ) is None,
        r matches Err(e) ==> Some(e) == initialize_error(
            *config,
            payer_is_signer,
            owner@,
            position_key@,
            *market,
            dex_key@,
            *d,
        ),
        r matches Ok(plan) ==> {
            let p = plan.record;
            &&& p.owner == *owner
            &&& p.market_mint == d.market_mint
            &&& p.market_symbol == d.market_symbol
            &&& p.entry_price == 0
            &&& p.liquidation_price == 0
            &&& p.leverage == clamped_leverage(d.leverage)
            &&& 1 <= p.leverage <= MAXIMUM_LEVERAGE
            &&& plan.fee == fee_of(d.paid_amount, p.leverage)
            &&& p.paid_amount + plan.fee == d.paid_amount
            &&& p.position_size == p.paid_amount * p.leverage
            &&& p.position_size >= MIN_POSITION_SIZE_LAMPORTS
            &&& p.closed == 0
            &&& p.position_nonce == d.position_nonce
            &&& p.pnl == 0
            &&& p.direction == d.direction
            &&& plan.record_data@ == record_bytes(p)
            &&& program_address_of(position_seeds(owner@, d.position_nonce), config.program_id@)
                == Some((position_key@, plan.position_bump))
            &&& (plan.market_bump is Some <==> market.data@.len() == 0 && market.lamports == 0)
            &&& (plan.market_bump matches Some(b) ==> program_address_of(
                market_seeds(d.market_mint@),
                config.program_id@,
            ) == Some((market.key@, b)))
        },
{
    if !payer_is_signer {
        return Err(PositionError::AuthorizationFailure);
    }
    if d.position_size < MIN_POSITION_SIZE_LAMPORTS {
        return Err(PositionError::InvalidArgument);
    }
    let terms = match open_terms(d.paid_amount, d.leverage) {
        Ok(t) => t,
        Err(e) => {
            return Err(e);
        },
    };
    if terms.notional < MIN_POSITION_SIZE_LAMPORTS {
        return Err(PositionError::InvalidArgument);
    }
    if d.direction != POSITION_LONG && d.direction != POSITION_SHORT {
        return Err(PositionError::InvalidArgument);
    }
    let market_found = find_market_address(&d.market_mint, &config.program_id);
    if !matches_found(&market.key, &market_found) {
        return Err(PositionError::AddressMismatch);
    }
    if !dex_key.same(&config.authority) {
        return Err(PositionError::InvalidArgument);
    }
    let position_found = find_position_address(owner, d.position_nonce, &config.program_id);
    if !matches_found(position_key, &position_found) {
        return Err(PositionError::AddressMismatch);
    }
    let position_bump = match position_found {
        Some((_, b)) => b,
        None => {
            return Err(PositionError::AddressMismatch);
        },
    };
    let market_bump = if market.data.len() == 0 && market.lamports == 0 {
        match market_found {
            Some((_, b)) => Some(b),
            None => None,
        }
    } else {
        None
    };
    let record = PositionAccount {
        owner: *owner,
        market_mint: d.market_mint,
        market_symbol: d.market_symbol,
        entry_price: 0,
        liquidation_price: 0,
        paid_amount: terms.collateral,
        position_size: terms.notional,
        leverage: terms.leverage,
        closed: 0,
        position_nonce: d.position_nonce,
        pnl: 0,
        direction: d.direction,
    };
    let record_data = record.encode();
    Ok(OpenPlan { record, record_data, fee: terms.fee, market_bump, position_bump })
}

// ---------------------------------------------------------------------------
// Authority update and close mark
// ---------------------------------------------------------------------------

/// The first check that an authority update fails, if any.
pub open spec fn dex_modify_error(
    config: ProgramConfig,
    position: AccountState,
    dex: AccountState,
    d: DexModifyData,
) -> Option<PositionError> {
    if !authorized(config, dex) {
        Some(PositionError::AuthorizationFailure)
    } else if !held_by_program(config, position) {
        Some(PositionError::RecordOwnershipMismatch)
    } else if position.data@.len() != POSITION_RECORD_LEN {
        Some(PositionError::CorruptedRecord)
    } else if stored_nonce(position.data@) != d.position_nonce {
        Some(PositionError::InvalidArgument)
    } else {
        None
    }
}

/// Record bytes `s` after an authority update: instrument, prices, closed
/// flag and pnl are overwritten, every other field is kept.
pub open spec fn authority_update_bytes(s: Seq<u8>, d: DexModifyData) -> Seq<u8> {
    s.subrange(0, 32) + d.new_market_mint@ + s.subrange(64, 96) + le_bytes(
        d.new_entry_price as nat,
        8,
    ) + le_bytes(d.new_liquidation_price as nat, 8) + s.subrange(112, 129) + seq![
        d.new_close_state,
    ] + s.subrange(130, 138) + le_bytes((d.new_pnl as u64) as nat, 8) + s.subrange(146, 147)
}

proof fn lemma_authority_update(
    s: Seq<u8>,
    before: PositionAccount,
    after: PositionAccount,
    d: DexModifyData,
)
    requires
        decodes_to(s, before),
        after == (PositionAccount {
            entry_price: d.new_entry_price,
            liquidation_price: d.new_liquidation_price,
            closed: d.new_close_state,
            pnl: d.new_pnl,
            market_mint: d.new_market_mint,
            ..before
        }),
    ensures
        record_bytes(after) == authority_update_bytes(s, d),
{
    lemma_u64_at_round_trip(s, 112);
    lemma_u64_at_round_trip(s, 120);
    lemma_u64_at_round_trip(s, 130);
    crate::record::lemma_le_bytes_len(d.new_entry_price as nat, 8);
    crate::record::lemma_le_bytes_len(d.new_liquidation_price as nat, 8);
    crate::record::lemma_le_bytes_len((d.new_pnl as u64) as nat, 8);
    crate::record::lemma_le_bytes_len(after.paid_amount as nat, 8);
    crate::record::lemma_le_bytes_len(after.position_size as nat, 8);
    crate::record::lemma_le_bytes_len(after.position_nonce as nat, 8);
    assert(s.subrange(112, 129) =~= s.subrange(112, 120) + s.subrange(120, 128) + seq![s[128]]);
    assert(s.subrange(146, 147) =~= seq![s[146]]);
    crate::bytes::lemma_cast_round_trip(0, s[146]);
    assert(record_bytes(after) =~= authority_update_bytes(s, d));
}

/// Authority update: the trading authority overwrites a record's prices,
/// closed flag, pnl and instrument.
pub fn process_dex_modify(
    config: &ProgramConfig,
    position: &mut AccountState,
    dex: &AccountState,
    d: &DexModifyData,
) -> (r: Result<(), PositionError>)
    ensures
        r == outcome(dex_modify_error(*config, *old(position), *dex, *d)),
        r is Ok ==> final(position).data@ == authority_update_bytes(old(position).data@, *d),
        r is Ok ==> final(position).key == old(position).key && final(position).owner == old(
            position,
        ).owner && final(position).is_signer == old(position).is_signer
            && final(position).lamports == old(position).lamports,
        r is Err ==> same_account(*final(position), *old(position)),
{
    if !is_authority(config, dex) {
        return Err(PositionError::AuthorizationFailure);
    }
    if !position.owner.same(&config.program_id) {
        return Err(PositionError::RecordOwnershipMismatch);
    }
    let mut record = match PositionAccount::decode(position.data.as_slice()) {
        Some(p) => p,
        None => {
            return Err(PositionError::CorruptedRecord);
        },
    };
    if record.position_nonce != d.position_nonce {
        return Err(PositionError::InvalidArgument);
    }
    let ghost before = record;
    record.entry_price = d.new_entry_price;
    record.liquidation_price = d.new_liquidation_price;
    record.closed = d.new_close_state;
    record.pnl = d.new_pnl;
    record.market_mint = d.new_market_mint;
    let data = record.encode();
    proof {
        lemma_authority_update(old(position).data@, before, record, *d);
    }
    position.data = data;
    Ok(())
}

/// The first check that a close mark fails, if any.
pub open spec fn user_modify_error(
    config: ProgramConfig,
    position: AccountState,
    user: AccountState,
    d: UserModifyData,
) -> Option<PositionError> {
    if !user.is_signer {
        Some(PositionError::AuthorizationFailure)
    } else if !held_by_program(config, position) {
        Some(PositionError::RecordOwnershipMismatch)
    } else if position.data@.len() != POSITION_RECORD_LEN {
        Some(PositionError::CorruptedRecord)
    } else if stored_nonce(position.data@) != d.position_nonce {
        Some(PositionError::InvalidArgument)
    } else if stored_owner(position.data@) != user.key@ && user.key@ != config.authority@ {
        Some(PositionError::AuthorizationFailure)
    } else if stored_closed(position.data@) != 0 {
        Some(PositionError::AlreadyClosed)
    } else {
        None
    }
}

/// Close mark: the owner or the authority marks an open record for
/// settlement. The closed flag goes from 0 to 1 and nothing else changes.
pub fn process_user_modify(
    config: &ProgramConfig,
    position: &mut AccountState,
    user: &AccountState,
    d: &UserModifyData,
) -> (r: Result<(), PositionError>)
    ensures
        r == outcome(user_modify_error(*config, *old(position), *user, *d)),
        r is Ok ==> stored_closed(old(position).data@) == 0,
        r is Ok && d.close_position ==> final(position).data@ == old(position).data@.update(129, 1),
        r is Ok ==> final(position).key == old(position).key && final(position).owner == old(
            position,
        ).owner && final(position).is_signer == old(position).is_signer
            && final(position).lamports == old(position).lamports,
        !(r is Ok && d.close_position) ==> same_account(*final(position), *old(position)),
{
    if !user.is_signer {
        return Err(PositionError::AuthorizationFailure);
    }
    if !position.owner.same(&config.program_id) {
        return Err(PositionError::RecordOwnershipMismatch);
    }
    let mut record = match PositionAccount::decode(position.data.as_slice()) {
        Some(p) => p,
        None => {
            return Err(PositionError::CorruptedRecord);
        },
    };
    if record.position_nonce != d.position_nonce {
        return Err(PositionError::InvalidArgument);
    }
    if !record.owner.same(&user.key) && !user.key.same(&config.authority) {
        return Err(PositionError::AuthorizationFailure);
    }
    if record.closed != 0 {
        return Err(PositionError::AlreadyClosed);
    }
    if d.close_position {
        let ghost before = record;
        record.closed = 1;
        let data = record.encode();
        proof {
            lemma_record_round_trip(old(position).data@, before);
            crate::record::lemma_le_bytes_len(before.entry_price as nat, 8);
            crate::record::lemma_le_bytes_len(before.liquidation_price as nat, 8);
            crate::record::lemma_le_bytes_len(before.paid_amount as nat, 8);
            crate::record::lemma_le_bytes_len(before.position_size as nat, 8);
            assert(data@ =~= old(position).data@.update(129, 1));
        }
        position.data = data;
    }
    Ok(())
}

// ---------------------------------------------------------------------------
// Settlement and forced close
// ---------------------------------------------------------------------------

/// The first check that a settlement fails before any funds move, if any.
pub open spec fn pnl_error(
    config: ProgramConfig,
    position: AccountState,
    dex: AccountState,
    owner: AccountState,
    market: AccountState,
    d: ProcessPnlData,
) -> Option<PositionError> {
    let s = position.data@;
    if !authorized(config, dex) {
        Some(PositionError::AuthorizationFailure)
    } else if !held_by_program(config, position) {
        Some(PositionError::RecordOwnershipMismatch)
    } else if s.len() != POSITION_RECORD_LEN {
        Some(PositionError::CorruptedRecord)
    } else if stored_nonce(s) != d.position_nonce {
        Some(PositionError::InvalidArgument)
    } else if stored_closed(s) != 1 {
        Some(PositionError::InvalidArgument)
    } else if stored_owner(s) != owner.key@ {
        Some(PositionError::InvalidArgument)
    } else if !derives(position.key@, position_seeds(stored_owner(s), stored_nonce(s)), config.program_id@) {
        Some(PositionError::AddressMismatch)
    } else if !derives(market.key@, market_seeds(stored_mint(s)), config.program_id@) {
        Some(PositionError::AddressMismatch)
    } else if !held_by_program(config, market) {
        Some(PositionError::RecordOwnershipMismatch)
    } else {
        None
    }
}

/// Balances of the accounts that a settlement touches.
pub open spec fn balances_of(
    position: AccountState,
    owner: AccountState,
    market: AccountState,
    fee_sink: AccountState,
) -> Balances {
    Balances {
        position: position.lamports,
        owner: owner.lamports,
        pool: market.lamports,
        fee_sink: fee_sink.lamports,
    }
}

/// Settle: the authority settles a record marked for settlement with its
/// realized pnl. The position's whole balance is distributed as the
/// settlement plan says and its data is wiped.
pub fn process_pnl(
    config: &ProgramConfig,
    position: &mut AccountState,
    dex: &AccountState,
    owner: &mut AccountState,
    market: &mut AccountState,
    fee_sink: &mut AccountState,
    d: &ProcessPnlData,
) -> (r: Result<(), PositionError>)
    ensures
        ({
            let before = balances_of(*old(position), *old(owner), *old(market), *old(fee_sink));
            let plan = settlement_of(
                d.final_pnl,
                old(position).lamports,
                stored_leverage(old(position).data@),
                old(market).lamports,
            );
            let e = pnl_error(*config, *old(position), *dex, *old(owner), *old(market), *d);
            &&& r is Ok <==> e is None && plan_applies(plan, before)
            &&& r matches Err(err) ==> (e matches Some(x) ==> err == x)
            &&& r matches Err(err) ==> (e is None ==> err == PositionError::ArithmeticOverflow)
            &&& r is Ok ==> {
                &&& final(position).lamports == 0
                &&& final(owner).lamports == owner_after(plan, before)
                &&& final(market).lamports == pool_after(plan, before)
                &&& final(fee_sink).lamports == fee_sink_after(plan, before)
                &&& final(position).data@.len() == old(position).data@.len()
                &&& all_zero(final(position).data@)
                &&& (final(owner).lamports - old(owner).lamports) + (final(market).lamports - old(
                    market,
                ).lamports) + (final(fee_sink).lamports - old(fee_sink).lamports)
                    == old(position).lamports
            }
            &&& r is Err ==> {
                &&& same_account(*final(position), *old(position))
                &&& same_account(*final(owner), *old(owner))
                &&& same_account(*final(market), *old(market))
                &&& same_account(*final(fee_sink), *old(fee_sink))
            }
        }),
        final(position).key == old(position).key,
        final(owner).key == old(owner).key && final(owner).data@ == old(owner).data@,
        final(market).key == old(market).key && final(market).data@ == old(market).data@,
        final(fee_sink).key == old(fee_sink).key && final(fee_sink).data@ == old(fee_sink).data@,
{
    if !is_authority(config, dex) {
        return Err(PositionError::AuthorizationFailure);
    }
    if !position.owner.same(&config.program_id) {
        return Err(PositionError::RecordOwnershipMismatch);
    }
    let record = match PositionAccount::decode(position.data.as_slice()) {
        Some(p) => p,
        None => {
            return Err(PositionError::CorruptedRecord);
        },
    };
    if record.position_nonce != d.position_nonce {
        return Err(PositionError::InvalidArgument);
    }
    if record.closed != 1 {
        return Err(PositionError::InvalidArgument);
    }
    if !record.owner.same(&owner.key) {
        return Err(PositionError::InvalidArgument);
    }
    let position_found = find_position_address(&record.owner, record.position_nonce, &config.program_id);
    if !matches_found(&position.key, &position_found) {
        return Err(PositionError::AddressMismatch);
    }
    let market_found = find_market_address(&record.market_mint, &config.program_id);
    if !matches_found(&market.key, &market_found) {
        return Err(PositionError::AddressMismatch);
    }
    if !market.owner.same(&config.program_id) {
        return Err(PositionError::RecordOwnershipMismatch);
    }
    let plan = plan_settlement(d.final_pnl, position.lamports, record.leverage, market.lamports);
    let mut balances = Balances {
        position: position.lamports,
        owner: owner.lamports,
        pool: market.lamports,
        fee_sink: fee_sink.lamports,
    };
    match apply_settlement(&plan, &mut balances) {
        Ok(()) => {},
        Err(e) => {
            return Err(e);
        },
    }
    proof {
        crate::settlement::lemma_settlement_conserves(
            d.final_pnl,
            record.leverage,
            balances_of(*old(position), *old(owner), *old(market), *old(fee_sink)),
            balances,
        );
    }
    position.lamports = balances.position;
    owner.lamports = balances.owner;
    market.lamports = balances.pool;
    fee_sink.lamports = balances.fee_sink;
    zero_account_data(&mut position.data);
    Ok(())
}

/// The first check that a forced close fails, if any.
pub open spec fn force_close_error(
    config: ProgramConfig,
    position: AccountState,
    owner: AccountState,
    dex: AccountState,
) -> Option<PositionError> {
    if !authorized(config, dex) {
        Some(PositionError::AuthorizationFailure)
    } else if !held_by_program(config, position) {
        Some(PositionError::RecordOwnershipMismatch)
    } else if owner.lamports + position.lamports > u64::MAX {
        Some(PositionError::ArithmeticOverflow)
    } else {
        None
    }
}

/// Forced close: the authority drains a record, whatever its bytes hold, to
/// the given owner account and wipes its data.
pub fn process_force_close(
    config: &ProgramConfig,
    position: &mut AccountState,
    owner: &mut AccountState,
    dex: &AccountState,
) -> (r: Result<(), PositionError>)
    ensures
        r == outcome(force_close_error(*config, *old(position), *old(owner), *dex)),
        r is Ok ==> {
            &&& final(owner).lamports == old(owner).lamports + old(position).lamports
            &&& final(position).lamports == 0
            &&& final(position).data@.len() == old(position).data@.len()
            &&& all_zero(final(position).data@)
        },
        r is Err ==> same_account(*final(position), *old(position)) && same_account(
            *final(owner),
            *old(owner),
        ),
        final(position).key == old(position).key,
        final(owner).key == old(owner).key && final(owner).data@ == old(owner).data@,
{
    if !is_authority(config, dex) {
        return Err(PositionError::AuthorizationFailure);
    }
    if !position.owner.same(&config.program_id) {
        return Err(PositionError::RecordOwnershipMismatch);
    }
    let credited = match owner.lamports.checked_add(position.lamports) {
        Some(v) => v,
        None => {
            return Err(PositionError::ArithmeticOverflow);
        },
    };
    owner.lamports = credited;
    position.lamports = 0;
    zero_account_data(&mut position.data);
    Ok(())
}

// ---------------------------------------------------------------------------
// Pool rebalancing and the program vault
// ---------------------------------------------------------------------------

/// The first check that a rebalance fails, if any. `min_balance` is what the
/// ledger requires the source pool to keep.
pub open spec fn market_transfer_error(
    config: ProgramConfig,
    from: AccountState,
    to: AccountState,
    dex: AccountState,
    d: MarketTransferData,
    min_balance: u64,
) -> Option<PositionError> {
    if !authorized(config, dex) {
        Some(PositionError::AuthorizationFailure)
    } else if !derives(from.key@, market_seeds(d.from_market_mint@), config.program_id@) {
        Some(PositionError::AddressMismatch)
    } else if !derives(to.key@, market_seeds(d.to_market_mint@), config.program_id@) {
        Some(PositionError::AddressMismatch)
    } else if !held_by_program(config, from) || !held_by_program(config, to) {
        Some(PositionError::RecordOwnershipMismatch)
    } else if from.data@.len() != 0 || to.data@.len() != 0 {
        Some(PositionError::InvalidArgument)
    } else if from.lamports == 0 || from.lamports < d.amount || from.lamports - d.amount
        < min_balance {
        Some(PositionError::InsufficientFunds)
    } else if from.key@ == to.key@ {
        Some(PositionError::InvalidArgument)
    } else if to.lamports + d.amount > u64::MAX {
        Some(PositionError::ArithmeticOverflow)
    } else {
        None
    }
}

/// Rebalance: the authority moves `amount` from one instrument's pool to
/// another's, keeping at least `min_balance` in the source.
pub fn process_market_transfer(
    config: &ProgramConfig,
    from: &mut AccountState,
    to: &mut AccountState,
    dex: &AccountState,
    d: &MarketTransferData,
    min_balance: u64,
) -> (r: Result<(), PositionError>)
    ensures
        r == outcome(market_transfer_error(*config, *old(from), *old(to), *dex, *d, min_balance)),
        r is Ok ==> final(from).lamports == old(from).lamports - d.amount && final(to).lamports
            == old(to).lamports + d.amount,
        r is Ok ==> final(from).lamports >= min_balance,
        r is Err ==> same_account(*final(from), *old(from)) && same_account(*final(to), *old(to)),
        final(from).key == old(from).key && final(from).owner == old(from).owner
            && final(from).data@ == old(from).data@,
        final(to).key == old(to).key && final(to).owner == old(to).owner && final(to).data@ == old(
            to,
        ).data@,
{
    if !is_authority(config, dex) {
        return Err(PositionError::AuthorizationFailure);
    }
    let from_found = find_market_address(&d.from_market_mint, &config.program_id);
    let to_found = find_market_address(&d.to_market_mint, &config.program_id);
    if !matches_found(&from.key, &from_found) {
        return Err(PositionError::AddressMismatch);
    }
    if !matches_found(&to.key, &to_found) {
        return Err(PositionError::AddressMismatch);
    }
    if !from.owner.same(&config.program_id) || !to.owner.same(&config.program_id) {
        return Err(PositionError::RecordOwnershipMismatch);
    }
    if from.data.len() != 0 || to.data.len() != 0 {
        return Err(PositionError::InvalidArgument);
    }
    if from.lamports == 0 || from.lamports < d.amount || from.lamports - d.amount < min_balance {
        return Err(PositionError::InsufficientFunds);
    }
    if from.key.same(&to.key) {
        return Err(PositionError::InvalidArgument);
    }
    let credited = match to.lamports.checked_add(d.amount) {
        Some(v) => v,
        None => {
            return Err(PositionError::ArithmeticOverflow);
        },
    };
    from.lamports = from.lamports - d.amount;
    to.lamports = credited;
    Ok(())
}

/// Whether the program vault must be created, and with which bump seed:
/// `Ok(Some(bump))` where the vault holds no data yet and sits at its derived
/// address, `Ok(None)` where it already holds data.
pub fn create_program_vault_if_needed(
    config: &ProgramConfig,
    payer_is_signer: bool,
    vault: &AccountState,
) -> (r: Result<Option<u8>, PositionError>)
    ensures
        !payer_is_signer ==> r == Err::<Option<u8>, PositionError>(
            PositionError::AuthorizationFailure,
        ),
        payer_is_signer && vault.data@.len() != 0 ==> r == Ok::<Option<u8>, PositionError>(None),
        payer_is_signer && vault.data@.len() == 0 ==> match program_address_of(
            vault_seeds(),
            config.program_id@,
        ) {
            Some((a, bump)) => if a == vault.key@ {
                r == Ok::<Option<u8>, PositionError>(Some(bump))
            } else {
                r == Err::<Option<u8>, PositionError>(PositionError::AddressMismatch)
            },
            None => r == Err::<Option<u8>, PositionError>(PositionError::AddressMismatch),
        },
{
    if !payer_is_signer {
        return Err(PositionError::AuthorizationFailure);
    }
    if vault.data.len() != 0 {
        return Ok(None);
    }
    match find_program_vault_address(&config.program_id) {
        Some((a, bump)) => if a.same(&vault.key) {
            Ok(Some(bump))
        } else {
            Err(PositionError::AddressMismatch)
        },
        None => Err(PositionError::AddressMismatch),
    }
}

// ---------------------------------------------------------------------------
// Laws of the record state machine
// ---------------------------------------------------------------------------

/// Neither an authority update nor a close mark changes a record's leverage,
/// so the leverage fixed when the record was opened is the one every later
/// state holds.
pub proof fn lemma_updates_keep_leverage(s: Seq<u8>, d: DexModifyData)
    requires
        s.len() == POSITION_RECORD_LEN,
    ensures
        authority_update_bytes(s, d).len() == POSITION_RECORD_LEN,
        stored_leverage(authority_update_bytes(s, d)) == stored_leverage(s),
        stored_leverage(s.update(129, 1)) == stored_leverage(s),
{
    crate::record::lemma_le_bytes_len(d.new_entry_price as nat, 8);
    crate::record::lemma_le_bytes_len(d.new_liquidation_price as nat, 8);
    crate::record::lemma_le_bytes_len((d.new_pnl as u64) as nat, 8);
    let t = authority_update_bytes(s, d);
    assert(t[128] == s.subrange(112, 129)[16]);
}

/// A close mark moves the closed flag from 0 to 1 only: once a close mark
/// has succeeded, the same close mark on the resulting record fails with
/// `AlreadyClosed`, and a failed close mark leaves the record as it was.
pub proof fn lemma_close_mark_once(
    config: ProgramConfig,
    before: AccountState,
    after: AccountState,
    user: AccountState,
    d: UserModifyData,
)
    requires
        user_modify_error(config, before, user, d) is None,
        d.close_position,
        after.owner == before.owner,
        after.data@ == before.data@.update(129, 1),
    ensures
        stored_closed(before.data@) == 0,
        stored_closed(after.data@) == 1,
        user_modify_error(config, after, user, d) == Some(PositionError::AlreadyClosed),
{
    let s = before.data@;
    let t = after.data@;
    assert(t.subrange(130, 138) =~= s.subrange(130, 138));
    assert(t.subrange(0, 32) =~= s.subrange(0, 32));
}

} // verus!
