use uranus_positions::address::{find_market_address, find_position_address, Address};
use uranus_positions::error::PositionError;
use uranus_positions::instruction::{
    DexModifyData, InitializePositionData, MarketTransferData, ProcessPnlData, UserModifyData,
};
use uranus_positions::lifecycle::{
    create_program_vault_if_needed, process_dex_modify, process_force_close, process_initialize,
    process_market_transfer, process_pnl, process_user_modify, AccountState, ProgramConfig,
};
use uranus_positions::record::PositionAccount;

fn key(b: u8) -> Address {
    Address::new([b; 32])
}

fn config() -> ProgramConfig {
    ProgramConfig { program_id: key(7), authority: key(9) }
}

fn account(k: Address, owner: Address, is_signer: bool, lamports: u64, data: Vec<u8>) -> AccountState {
    AccountState { key: k, owner, is_signer, lamports, data }
}

fn market_key(mint: &Address) -> Address {
    find_market_address(mint, &config().program_id).unwrap().0
}

fn position_key(owner: &Address, nonce: u64) -> Address {
    find_position_address(owner, nonce, &config().program_id).unwrap().0
}

fn record(closed: u8, leverage: u8) -> PositionAccount {
    let mut symbol = [0u8; 32];
    symbol[..3].copy_from_slice(b"SOL");
    PositionAccount {
        owner: key(1),
        market_mint: key(2),
        market_symbol: symbol,
        entry_price: 150,
        liquidation_price: 100,
        paid_amount: 15_000_000,
        position_size: 15_000_000 * leverage as u64,
        leverage,
        closed,
        position_nonce: 42,
        pnl: 0,
        direction: 1,
    }
}

fn position_account(closed: u8, lamports: u64) -> AccountState {
    let r = record(closed, 3);
    account(position_key(&r.owner, 42), config().program_id, false, lamports, r.encode())
}

fn authority() -> AccountState {
    account(config().authority, key(0), true, 0, vec![])
}

fn open_request() -> InitializePositionData {
    let mut symbol = [0u8; 32];
    symbol[..3].copy_from_slice(b"ETH");
    InitializePositionData {
        market_mint: key(2),
        market_symbol: symbol,
        paid_amount: 100_000_000,
        position_size: 100_000_000,
        leverage: 3,
        position_nonce: 42,
        direction: -1,
    }
}

#[test]
fn open_sizes_and_describes_record() {
    let c = config();
    let owner = key(1);
    let market = account(market_key(&key(2)), key(0), false, 0, vec![]);
    let plan = process_initialize(&c, true, &owner, &position_key(&owner, 42), &market, &c.authority, &open_request())
        .unwrap();
    assert_eq!(plan.fee, 2_300_000);
    assert_eq!(plan.record.paid_amount, 97_700_000);
    assert_eq!(plan.record.position_size, 293_100_000);
    assert_eq!(plan.record.leverage, 3);
    assert_eq!(plan.record.closed, 0);
    assert_eq!(plan.record.direction, -1);
    assert!(plan.market_bump.is_some());
    assert_eq!(plan.record_data, plan.record.encode());
}

#[test]
fn open_rejects_bad_requests() {
    let c = config();
    let owner = key(1);
    let pos = position_key(&owner, 42);
    let market = account(market_key(&key(2)), c.program_id, false, 5, vec![]);
    let ok = process_initialize(&c, true, &owner, &pos, &market, &c.authority, &open_request()).unwrap();
    assert!(ok.market_bump.is_none());
    assert_eq!(
        process_initialize(&c, false, &owner, &pos, &market, &c.authority, &open_request()).unwrap_err(),
        PositionError::AuthorizationFailure
    );
    let mut small = open_request();
    small.position_size = 9_999_999;
    assert_eq!(
        process_initialize(&c, true, &owner, &pos, &market, &c.authority, &small).unwrap_err(),
        PositionError::InvalidArgument
    );
    let mut eaten = open_request();
    eaten.paid_amount = 3_000_000;
    eaten.leverage = 3;
    assert_eq!(
        process_initialize(&c, true, &owner, &pos, &market, &c.authority, &eaten).unwrap_err(),
        PositionError::InvalidArgument
    );
    let mut direction = open_request();
    direction.direction = 0;
    assert_eq!(
        process_initialize(&c, true, &owner, &pos, &market, &c.authority, &direction).unwrap_err(),
        PositionError::InvalidArgument
    );
    let wrong_market = account(key(3), c.program_id, false, 5, vec![]);
    assert_eq!(
        process_initialize(&c, true, &owner, &pos, &wrong_market, &c.authority, &open_request()).unwrap_err(),
        PositionError::AddressMismatch
    );
    assert_eq!(
        process_initialize(&c, true, &owner, &pos, &market, &key(4), &open_request()).unwrap_err(),
        PositionError::InvalidArgument
    );
    assert_eq!(
        process_initialize(&c, true, &owner, &key(5), &market, &c.authority, &open_request()).unwrap_err(),
        PositionError::AddressMismatch
    );
    let mut huge = open_request();
    huge.paid_amount = u64::MAX;
    huge.leverage = 5;
    assert_eq!(
        process_initialize(&c, true, &owner, &pos, &market, &c.authority, &huge).unwrap_err(),
        PositionError::ArithmeticOverflow
    );
}

#[test]
fn authority_update_overwrites_fields() {
    let c = config();
    let mut pos = position_account(0, 15_000_000);
    let d = DexModifyData {
        new_entry_price: 1_000,
        new_liquidation_price: 900,
        position_nonce: 42,
        new_close_state: 1,
        new_pnl: -77,
        new_market_mint: key(8),
    };
    process_dex_modify(&c, &mut pos, &authority(), &d).unwrap();
    let r = PositionAccount::decode(&pos.data).unwrap();
    assert_eq!(r.entry_price, 1_000);
    assert_eq!(r.liquidation_price, 900);
    assert_eq!(r.closed, 1);
    assert_eq!(r.pnl, -77);
    assert_eq!(r.market_mint, key(8));
    assert_eq!(r.leverage, 3);
    assert_eq!(r.paid_amount, 15_000_000);
    assert_eq!(r.owner, key(1));

    let mut wrong_nonce = d;
    wrong_nonce.position_nonce = 43;
    let before = pos.data.clone();
    assert_eq!(process_dex_modify(&c, &mut pos, &authority(), &wrong_nonce), Err(PositionError::InvalidArgument));
    assert_eq!(pos.data, before);
    let stranger = account(key(9), key(0), false, 0, vec![]);
    assert_eq!(process_dex_modify(&c, &mut pos, &stranger, &d), Err(PositionError::AuthorizationFailure));
    let mut corrupt = position_account(0, 1);
    corrupt.data.pop();
    assert_eq!(process_dex_modify(&c, &mut corrupt, &authority(), &d), Err(PositionError::CorruptedRecord));
    let mut foreign = position_account(0, 1);
    foreign.owner = key(6);
    assert_eq!(process_dex_modify(&c, &mut foreign, &authority(), &d), Err(PositionError::RecordOwnershipMismatch));
}

#[test]
fn close_mark_twice_fails_and_keeps_record() {
    let c = config();
    let mut pos = position_account(0, 15_000_000);
    let owner = account(key(1), key(0), true, 0, vec![]);
    let d = UserModifyData { close_position: true, position_nonce: 42 };
    process_user_modify(&c, &mut pos, &owner, &d).unwrap();
    assert_eq!(PositionAccount::decode(&pos.data).unwrap().closed, 1);
    let after_first = pos.data.clone();
    assert_eq!(process_user_modify(&c, &mut pos, &owner, &d), Err(PositionError::AlreadyClosed));
    assert_eq!(pos.data, after_first);
    assert_eq!(pos.lamports, 15_000_000);
}

#[test]
fn close_mark_by_authority_and_refusals() {
    let c = config();
    let d = UserModifyData { close_position: true, position_nonce: 42 };
    let mut pos = position_account(0, 1);
    process_user_modify(&c, &mut pos, &authority(), &d).unwrap();
    assert_eq!(PositionAccount::decode(&pos.data).unwrap().closed, 1);

    let mut pos = position_account(0, 1);
    let stranger = account(key(4), key(0), true, 0, vec![]);
    assert_eq!(process_user_modify(&c, &mut pos, &stranger, &d), Err(PositionError::AuthorizationFailure));
    let unsigned = account(key(1), key(0), false, 0, vec![]);
    assert_eq!(process_user_modify(&c, &mut pos, &unsigned, &d), Err(PositionError::AuthorizationFailure));
    let owner = account(key(1), key(0), true, 0, vec![]);
    let keep = UserModifyData { close_position: false, position_nonce: 42 };
    let before = pos.data.clone();
    process_user_modify(&c, &mut pos, &owner, &keep).unwrap();
    assert_eq!(pos.data, before);
}

struct Scene {
    position: AccountState,
    owner: AccountState,
    market: AccountState,
    fees: AccountState,
}

fn scene(market_lamports: u64) -> Scene {
    let c = config();
    Scene {
        position: position_account(1, 20_000_000),
        owner: account(key(1), key(0), false, 1_000, vec![]),
        market: account(market_key(&key(2)), c.program_id, false, market_lamports, vec![]),
        fees: account(key(10), key(0), false, 0, vec![]),
    }
}

fn settle(s: &mut Scene, pnl: i64) -> Result<(), PositionError> {
    process_pnl(
        &config(),
        &mut s.position,
        &authority(),
        &mut s.owner,
        &mut s.market,
        &mut s.fees,
        &ProcessPnlData { position_nonce: 42, final_pnl: pnl },
    )
}

#[test]
fn settle_profit_pays_from_pool() {
    let mut s = scene(10_000_000);
    settle(&mut s, 5_000_000).unwrap();
    assert_eq!(s.position.lamports, 0);
    assert_eq!(s.owner.lamports, 1_000 + 20_000_000 + 4_885_000);
    assert_eq!(s.market.lamports, 5_000_000);
    assert_eq!(s.fees.lamports, 115_000);
    assert!(s.position.data.iter().all(|b| *b == 0));
    assert_eq!(s.position.data.len(), 147);
}

#[test]
fn settle_profit_without_liquidity_returns_locked_only() {
    let mut s = scene(1_000_000);
    settle(&mut s, 5_000_000).unwrap();
    assert_eq!(s.owner.lamports, 1_000 + 20_000_000);
    assert_eq!(s.market.lamports, 1_000_000);
    assert_eq!(s.fees.lamports, 0);
    assert_eq!(s.position.lamports, 0);
}

#[test]
fn settle_total_loss() {
    let mut s = scene(3);
    s.position.lamports = 15_000_000;
    settle(&mut s, -20_000_000).unwrap();
    assert_eq!(s.market.lamports, 15_000_003);
    assert_eq!(s.owner.lamports, 1_000);
    assert_eq!(s.position.lamports, 0);
}

#[test]
fn settle_refusals_change_nothing() {
    let mut s = scene(3);
    s.position = position_account(0, 20_000_000);
    assert_eq!(settle(&mut s, 1), Err(PositionError::InvalidArgument));
    assert_eq!(s.position.lamports, 20_000_000);

    let mut s = scene(3);
    s.owner.key = key(4);
    assert_eq!(settle(&mut s, 1), Err(PositionError::InvalidArgument));

    let mut s = scene(3);
    s.market.key = key(4);
    assert_eq!(settle(&mut s, 1), Err(PositionError::AddressMismatch));

    let mut s = scene(3);
    s.market.owner = key(4);
    assert_eq!(settle(&mut s, 1), Err(PositionError::RecordOwnershipMismatch));

    let mut s = scene(3);
    s.position.key = key(4);
    assert_eq!(settle(&mut s, 1), Err(PositionError::AddressMismatch));

    let mut s = scene(3);
    s.owner.lamports = u64::MAX;
    let before = s.position.data.clone();
    assert_eq!(settle(&mut s, 0), Err(PositionError::ArithmeticOverflow));
    assert_eq!(s.position.data, before);
    assert_eq!(s.owner.lamports, u64::MAX);
}

#[test]
fn force_close_drains_corrupted_record() {
    let c = config();
    let mut pos = account(key(20), c.program_id, false, 12_345, vec![9, 9, 9]);
    let mut owner = account(key(1), key(0), false, 5, vec![]);
    process_force_close(&c, &mut pos, &mut owner, &authority()).unwrap();
    assert_eq!(owner.lamports, 12_350);
    assert_eq!(pos.lamports, 0);
    assert_eq!(pos.data, vec![0, 0, 0]);

    let mut open = position_account(0, 777);
    let mut owner = account(key(1), key(0), false, 0, vec![]);
    process_force_close(&c, &mut open, &mut owner, &authority()).unwrap();
    assert_eq!(owner.lamports, 777);
    assert!(open.data.iter().all(|b| *b == 0));

    let mut pos = account(key(20), c.program_id, false, 1, vec![]);
    let stranger = account(key(4), key(0), true, 0, vec![]);
    assert_eq!(process_force_close(&c, &mut pos, &mut owner, &stranger), Err(PositionError::AuthorizationFailure));
    assert_eq!(pos.lamports, 1);
}

fn transfer_scene(from_lamports: u64) -> (AccountState, AccountState, MarketTransferData) {
    let c = config();
    let a = market_key(&key(2));
    let b = market_key(&key(3));
    let d = MarketTransferData {
        amount: 1_000_000,
        from_market_mint: key(2),
        to_market_mint: key(3),
        from_market_pda: a,
        to_market_pda: b,
    };
    (account(a, c.program_id, false, from_lamports, vec![]), account(b, c.program_id, false, 0, vec![]), d)
}

#[test]
fn rebalance_keeps_retention_balance() {
    let c = config();
    let (mut from, mut to, d) = transfer_scene(890_880);
    assert_eq!(
        process_market_transfer(&c, &mut from, &mut to, &authority(), &d, 890_880),
        Err(PositionError::InsufficientFunds)
    );
    assert_eq!(from.lamports, 890_880);
    assert_eq!(to.lamports, 0);
}

#[test]
fn rebalance_moves_funds() {
    let c = config();
    let (mut from, mut to, d) = transfer_scene(5_000_000);
    process_market_transfer(&c, &mut from, &mut to, &authority(), &d, 890_880).unwrap();
    assert_eq!(from.lamports, 4_000_000);
    assert_eq!(to.lamports, 1_000_000);

    let (mut from, mut to, mut d) = transfer_scene(5_000_000);
    d.to_market_mint = key(2);
    to.key = from.key;
    assert_eq!(process_market_transfer(&c, &mut from, &mut to, &authority(), &d, 0), Err(PositionError::InvalidArgument));
    let (mut from, mut to, d) = transfer_scene(0);
    assert_eq!(process_market_transfer(&c, &mut from, &mut to, &authority(), &d, 0), Err(PositionError::InsufficientFunds));
    let (mut from, mut to, d) = transfer_scene(5_000_000);
    from.data = vec![1];
    assert_eq!(process_market_transfer(&c, &mut from, &mut to, &authority(), &d, 0), Err(PositionError::InvalidArgument));
    let (mut from, mut to, d) = transfer_scene(5_000_000);
    to.key = key(4);
    assert_eq!(process_market_transfer(&c, &mut from, &mut to, &authority(), &d, 0), Err(PositionError::AddressMismatch));
}

#[test]
fn vault_creation_is_decided() {
    let c = config();
    let vault_key = uranus_positions::address::find_program_vault_address(&c.program_id).unwrap();
    let vault = account(vault_key.0, key(0), false, 0, vec![]);
    assert_eq!(create_program_vault_if_needed(&c, true, &vault), Ok(Some(vault_key.1)));
    assert_eq!(create_program_vault_if_needed(&c, false, &vault), Err(PositionError::AuthorizationFailure));
    let full = account(vault_key.0, c.program_id, false, 10, vec![1]);
    assert_eq!(create_program_vault_if_needed(&c, true, &full), Ok(None));
    let wrong = account(key(4), key(0), false, 0, vec![]);
    assert_eq!(create_program_vault_if_needed(&c, true, &wrong), Err(PositionError::AddressMismatch));
}

#[test]
fn derived_addresses_differ_from_their_seeds() {
    let c = config();
    let (m, _) = find_market_address(&key(2), &c.program_id).unwrap();
    assert_ne!(m, key(2));
    assert_ne!(m, c.program_id);
    let (p1, _) = find_position_address(&key(1), 1, &c.program_id).unwrap();
    let (p2, _) = find_position_address(&key(1), 2, &c.program_id).unwrap();
    assert_ne!(p1, p2);
    assert_ne!(p1, key(1));
}
