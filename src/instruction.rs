//! Payloads of the operations.
use vstd::prelude::*;
use crate::address::Address;
use crate::bytes::{i64_at, read_address, read_array, read_u64, u64_at};
use crate::error::PositionError;

verus! {

/// Payload of `Open`.
#[derive(Clone, Copy, Debug)]
pub struct InitializePositionData {
    pub market_mint: Address,
    pub market_symbol: [u8; 32],
    pub paid_amount: u64,
    pub position_size: u64,
    pub leverage: u8,
    pub position_nonce: u64,
    pub direction: i8,
}

/// Payload of `AuthorityUpdate`.
#[derive(Clone, Copy, Debug)]
pub struct DexModifyData {
    pub new_entry_price: u64,
    pub new_liquidation_price: u64,
    pub position_nonce: u64,
    pub new_close_state: u8,
    pub new_pnl: i64,
    pub new_market_mint: Address,
}

/// Payload of `UserClose`.
#[derive(Clone, Copy, Debug, PartialEq, Eq, Structural)]
pub struct UserModifyData {
    pub close_position: bool,
    pub position_nonce: u64,
}

/// Payload of `Settle`.
#[derive(Clone, Copy, Debug, PartialEq, Eq, Structural)]
pub struct ProcessPnlData {
    pub position_nonce: u64,
    pub final_pnl: i64,
}

/// Payload of `Rebalance`.
#[derive(Clone, Copy, Debug)]
pub struct MarketTransferData {
    pub amount: u64,
    pub from_market_mint: Address,
    pub to_market_mint: Address,
    pub from_market_pda: Address,
    pub to_market_pda: Address,
}

/// Opcode of `Open`.
pub const INSTRUCTION_INITIALIZE: u8 = 0;
/// Opcode of `AuthorityUpdate`.
pub const INSTRUCTION_DEX_MODIFY: u8 = 1;
/// Opcode of `UserClose`.
pub const INSTRUCTION_USER_MODIFY: u8 = 2;
/// Opcode of `Settle`.
pub const INSTRUCTION_PROCESS_PNL: u8 = 3;
/// Opcode of `ForceClose`.
pub const INSTRUCTION_FORCE_CLOSE: u8 = 4;
/// Opcode of `Rebalance`.
pub const INSTRUCTION_MARKET_TRANSFER: u8 = 5;

/// An operation with its payload.
#[derive(Clone, Copy, Debug)]
pub enum Instruction {
    Initialize(InitializePositionData),
    DexModify(DexModifyData),
    UserModify(UserModifyData),
    ProcessPnl(ProcessPnlData),
    ForceClose,
    MarketTransfer(MarketTransferData),
}

/// Length of a whole instruction, opcode included, for each opcode that
/// carries a payload.
pub open spec fn instruction_len(tag: u8) -> int {
    if tag == INSTRUCTION_INITIALIZE {
        91
    } else if tag == INSTRUCTION_DEX_MODIFY {
        66
    } else if tag == INSTRUCTION_USER_MODIFY {
        10
    } else if tag == INSTRUCTION_PROCESS_PNL {
        17
    } else {
        137
    }
}

/// Why the instruction bytes `s` are refused, if they are.
pub open spec fn instruction_error(s: Seq<u8>) -> Option<PositionError> {
    if s.len() == 0 {
        Some(PositionError::InvalidInstructionData)
    } else if s[0] == INSTRUCTION_FORCE_CLOSE {
        None
    } else if s[0] > INSTRUCTION_MARKET_TRANSFER {
        Some(PositionError::UnknownOperation)
    } else if s.len() != instruction_len(s[0]) {
        Some(PositionError::InvalidInstructionData)
    } else if s[0] == INSTRUCTION_USER_MODIFY && s[1] > 1 {
        Some(PositionError::InvalidInstructionData)
    } else {
        None
    }
}

/// Whether the instruction bytes `s` hold `i`: an opcode byte, then each
/// field of the payload in order, integers little-endian, a flag as 0 or 1.
pub open spec fn decodes_instruction(s: Seq<u8>, i: Instruction) -> bool {
    match i {
        Instruction::Initialize(p) => {
            &&& s[0] == INSTRUCTION_INITIALIZE
            &&& p.market_mint@ == s.subrange(1, 33)
            &&& p.market_symbol@ == s.subrange(33, 65)
            &&& p.paid_amount == u64_at(s, 65)
            &&& p.position_size == u64_at(s, 73)
            &&& p.leverage == s[81]
            &&& p.position_nonce == u64_at(s, 82)
            &&& p.direction == s[90] as i8
        },
        Instruction::DexModify(p) => {
            &&& s[0] == INSTRUCTION_DEX_MODIFY
            &&& p.new_entry_price == u64_at(s, 1)
            &&& p.new_liquidation_price == u64_at(s, 9)
            &&& p.position_nonce == u64_at(s, 17)
            &&& p.new_close_state == s[25]
            &&& p.new_pnl == i64_at(s, 26)
            &&& p.new_market_mint@ == s.subrange(34, 66)
        },
        Instruction::UserModify(p) => {
            &&& s[0] == INSTRUCTION_USER_MODIFY
            &&& p.close_position == (s[1] == 1)
            &&& p.position_nonce == u64_at(s, 2)
        },
        Instruction::ProcessPnl(p) => {
            &&& s[0] == INSTRUCTION_PROCESS_PNL
            &&& p.position_nonce == u64_at(s, 1)
            &&& p.final_pnl == i64_at(s, 9)
        },
        Instruction::ForceClose => s[0] == INSTRUCTION_FORCE_CLOSE,
        Instruction::MarketTransfer(p) => {
            &&& s[0] == INSTRUCTION_MARKET_TRANSFER
            &&& p.amount == u64_at(s, 1)
            &&& p.from_market_mint@ == s.subrange(9, 41)
            &&& p.to_market_mint@ == s.subrange(41, 73)
            &&& p.from_market_pda@ == s.subrange(73, 105)
            &&& p.to_market_pda@ == s.subrange(105, 137)
        },
    }
}

/// Decodes an instruction: an opcode byte followed by its payload, which
/// must fill the rest exactly.
pub fn decode_instruction(data: &[u8]) -> (r: Result<Instruction, PositionError>)
    ensures
        r is Ok <==> instruction_error(data@) is None,
        r matches Err(e) ==> instruction_error(data@) == Some(e),
        r matches Ok(i) ==> decodes_instruction(data@, i),
{
    if data.len() == 0 {
        return Err(PositionError::InvalidInstructionData);
    }
    let tag = data[0];
    if tag == INSTRUCTION_FORCE_CLOSE {
        return Ok(Instruction::ForceClose);
    }
    if tag > INSTRUCTION_MARKET_TRANSFER {
        return Err(PositionError::UnknownOperation);
    }
    let expected: usize = if tag == INSTRUCTION_INITIALIZE {
        91
    } else if tag == INSTRUCTION_DEX_MODIFY {
        66
    } else if tag == INSTRUCTION_USER_MODIFY {
        10
    } else if tag == INSTRUCTION_PROCESS_PNL {
        17
    } else {
        137
    };
    if data.len() != expected {
        return Err(PositionError::InvalidInstructionData);
    }
    if tag == INSTRUCTION_INITIALIZE {
        Ok(
            Instruction::Initialize(
                InitializePositionData {
                    market_mint: read_address(data, 1),
                    market_symbol: read_array(data, 33),
                    paid_amount: read_u64(data, 65),
                    position_size: read_u64(data, 73),
                    leverage: data[81],
                    position_nonce: read_u64(data, 82),
                    direction: data[90] as i8,
                },
            ),
        )
    } else if tag == INSTRUCTION_DEX_MODIFY {
        Ok(
            Instruction::DexModify(
                DexModifyData {
                    new_entry_price: read_u64(data, 1),
                    new_liquidation_price: read_u64(data, 9),
                    position_nonce: read_u64(data, 17),
                    new_close_state: data[25],
                    new_pnl: read_u64(data, 26) as i64,
                    new_market_mint: read_address(data, 34),
                },
            ),
        )
    } else if tag == INSTRUCTION_USER_MODIFY {
        if data[1] > 1 {
            return Err(PositionError::InvalidInstructionData);
        }
        Ok(
            Instruction::UserModify(
                UserModifyData { close_position: data[1] == 1, position_nonce: read_u64(data, 2) },
            ),
        )
    } else if tag == INSTRUCTION_PROCESS_PNL {
        Ok(
            Instruction::ProcessPnl(
                ProcessPnlData {
                    position_nonce: read_u64(data, 1),
                    final_pnl: read_u64(data, 9) as i64,
                },
            ),
        )
    } else {
        Ok(
            Instruction::MarketTransfer(
                MarketTransferData {
                    amount: read_u64(data, 1),
                    from_market_mint: read_address(data, 9),
                    to_market_mint: read_address(data, 41),
                    from_market_pda: read_address(data, 73),
                    to_market_pda: read_address(data, 105),
                },
            ),
        )
    }
}

} // verus!
