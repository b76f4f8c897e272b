use uranus_positions::address::Address;
use uranus_positions::error::PositionError;
use uranus_positions::instruction::{decode_instruction, Instruction};
use uranus_positions::record::PositionAccount;
use uranus_positions::symbol::fixed_array_to_string;

#[test]
fn record_layout_and_round_trip() {
    let p = PositionAccount {
        owner: Address::new([1; 32]),
        market_mint: Address::new([2; 32]),
        market_symbol: [3; 32],
        entry_price: 0x0102030405060708,
        liquidation_price: 5,
        paid_amount: 6,
        position_size: 7,
        leverage: 4,
        closed: 1,
        position_nonce: 99,
        pnl: -2,
        direction: -1,
    };
    let bytes = p.encode();
    assert_eq!(bytes.len(), 147);
    assert_eq!(&bytes[96..104], &[8, 7, 6, 5, 4, 3, 2, 1]);
    assert_eq!(bytes[128], 4);
    assert_eq!(bytes[129], 1);
    assert_eq!(&bytes[138..146], &[0xfe, 0xff, 0xff, 0xff, 0xff, 0xff, 0xff, 0xff]);
    assert_eq!(bytes[146], 0xff);
    let q = PositionAccount::decode(&bytes).unwrap();
    assert_eq!(q.encode(), bytes);
    assert_eq!(q.pnl, -2);
    assert_eq!(q.direction, -1);
    assert_eq!(q.entry_price, 0x0102030405060708);
    assert!(PositionAccount::decode(&bytes[..146]).is_none());
}

#[test]
fn instructions_decode() {
    assert_eq!(decode_instruction(&[]).unwrap_err(), PositionError::InvalidInstructionData);
    assert_eq!(decode_instruction(&[9, 0]).unwrap_err(), PositionError::UnknownOperation);
    assert!(matches!(decode_instruction(&[4]), Ok(Instruction::ForceClose)));
    assert_eq!(decode_instruction(&[3]).unwrap_err(), PositionError::InvalidInstructionData);

    let mut pnl = vec![3u8];
    pnl.extend_from_slice(&42u64.to_le_bytes());
    pnl.extend_from_slice(&(-5i64).to_le_bytes());
    match decode_instruction(&pnl).unwrap() {
        Instruction::ProcessPnl(d) => {
            assert_eq!(d.position_nonce, 42);
            assert_eq!(d.final_pnl, -5);
        }
        _ => panic!("wrong variant"),
    }
    pnl.push(0);
    assert_eq!(decode_instruction(&pnl).unwrap_err(), PositionError::InvalidInstructionData);

    let mut close = vec![2u8, 1];
    close.extend_from_slice(&7u64.to_le_bytes());
    match decode_instruction(&close).unwrap() {
        Instruction::UserModify(d) => {
            assert!(d.close_position);
            assert_eq!(d.position_nonce, 7);
        }
        _ => panic!("wrong variant"),
    }
    close[1] = 2;
    assert_eq!(decode_instruction(&close).unwrap_err(), PositionError::InvalidInstructionData);

    let mut open = vec![0u8];
    open.extend_from_slice(&[2; 32]);
    open.extend_from_slice(&[b'B'; 32]);
    open.extend_from_slice(&100_000_000u64.to_le_bytes());
    open.extend_from_slice(&50_000_000u64.to_le_bytes());
    open.push(3);
    open.extend_from_slice(&11u64.to_le_bytes());
    open.push(0xff);
    match decode_instruction(&open).unwrap() {
        Instruction::Initialize(d) => {
            assert_eq!(d.market_mint, Address::new([2; 32]));
            assert_eq!(d.paid_amount, 100_000_000);
            assert_eq!(d.position_size, 50_000_000);
            assert_eq!(d.leverage, 3);
            assert_eq!(d.position_nonce, 11);
            assert_eq!(d.direction, -1);
        }
        _ => panic!("wrong variant"),
    }

    let mut modify = vec![1u8];
    modify.extend_from_slice(&10u64.to_le_bytes());
    modify.extend_from_slice(&20u64.to_le_bytes());
    modify.extend_from_slice(&30u64.to_le_bytes());
    modify.push(1);
    modify.extend_from_slice(&(-40i64).to_le_bytes());
    modify.extend_from_slice(&[5; 32]);
    match decode_instruction(&modify).unwrap() {
        Instruction::DexModify(d) => {
            assert_eq!(d.new_entry_price, 10);
            assert_eq!(d.new_liquidation_price, 20);
            assert_eq!(d.position_nonce, 30);
            assert_eq!(d.new_close_state, 1);
            assert_eq!(d.new_pnl, -40);
            assert_eq!(d.new_market_mint, Address::new([5; 32]));
        }
        _ => panic!("wrong variant"),
    }

    let mut transfer = vec![5u8];
    transfer.extend_from_slice(&1_000_000u64.to_le_bytes());
    for b in [1u8, 2, 3, 4] {
        transfer.extend_from_slice(&[b; 32]);
    }
    match decode_instruction(&transfer).unwrap() {
        Instruction::MarketTransfer(d) => {
            assert_eq!(d.amount, 1_000_000);
            assert_eq!(d.from_market_mint, Address::new([1; 32]));
            assert_eq!(d.to_market_pda, Address::new([4; 32]));
        }
        _ => panic!("wrong variant"),
    }
}

#[test]
fn symbols_read_up_to_first_zero() {
    let mut slot = [0u8; 32];
    slot[..4].copy_from_slice(b"BTC1");
    assert_eq!(fixed_array_to_string(&slot).unwrap(), "BTC1");
    assert_eq!(fixed_array_to_string(&[0u8; 32]).unwrap(), "");
    assert_eq!(fixed_array_to_string(&[b'A'; 32]).unwrap(), "A".repeat(32));
    let mut bad = [0u8; 32];
    bad[0] = 0xff;
    assert_eq!(fixed_array_to_string(&bad), Err(PositionError::CorruptedRecord));
}
