//! Instructions of the pool program and their wire format.
use vstd::prelude::*;
use vstd::bytes::{
    lemma_auto_spec_u64_to_from_le_bytes, spec_u64_from_le_bytes, spec_u64_to_le_bytes,
    u64_from_le_bytes, u64_to_le_bytes,
};
use crate::error::AmmError;

verus! {

/// Which way a swap trades.
#[derive(Clone, Copy, Debug, PartialEq, Eq, Structural)]
pub enum Direction {
    /// Pay asset A, receive asset B.
    A2B,
    /// Pay asset B, receive asset A.
    B2A,
}

/// The byte that names a direction on the wire.
pub open spec fn direction_byte(d: Direction) -> u8 {
    match d {
        Direction::A2B => 1,
        Direction::B2A => 2,
    }
}

impl Direction {
    /// A readable name of the direction.
    pub fn name(&self) -> (r: &'static str)
        ensures
            r@ == (match *self {
                Direction::A2B => "A to B"@,
                Direction::B2A => "B to A"@,
            }),
    {
        match self {
            Direction::A2B => "A to B",
            Direction::B2A => "B to A",
        }
    }
}

/// Instructions of the pool program.
#[derive(Clone, Debug, PartialEq, Eq, Structural)]
pub enum AmmInstruction {
    Initialize { nonce: u8, fee: u64, amount_a: u64, amount_b: u64, tolerance: u64 },
    UpdateStatus { status: u8 },
    UpdateTolerance { tolerance: u64 },
    Swap { amount: u64, direction: Direction },
    WithdrawalFee {},
    Terminate {},
}

/// The wire bytes of an instruction: an opcode, then its fields, integers little-endian.
pub open spec fn encode_instruction(ix: AmmInstruction) -> Seq<u8> {
    match ix {
        AmmInstruction::Initialize { nonce, fee, amount_a, amount_b, tolerance } => seq![0u8, nonce]
            + spec_u64_to_le_bytes(fee) + spec_u64_to_le_bytes(amount_a) + spec_u64_to_le_bytes(
            amount_b,
        ) + spec_u64_to_le_bytes(tolerance),
        AmmInstruction::UpdateStatus { status } => seq![2u8, status],
        AmmInstruction::UpdateTolerance { tolerance } => seq![3u8] + spec_u64_to_le_bytes(
            tolerance,
        ),
        AmmInstruction::Terminate {  } => seq![9u8],
        AmmInstruction::Swap { amount, direction } => seq![10u8] + spec_u64_to_le_bytes(amount)
            + seq![direction_byte(direction)],
        AmmInstruction::WithdrawalFee {  } => seq![80u8],
    }
}

/// The little-endian integer at `off` of `b`.
pub open spec fn u64_at(b: Seq<u8>, off: int) -> u64 {
    spec_u64_from_le_bytes(b.subrange(off, off + 8))
}

/// The instruction that the wire bytes `b` hold. An empty input, an unknown opcode or
/// a payload shorter than the opcode needs is `InvalidInstruction`; a swap direction
/// byte other than 1 or 2 is `InvalidDirection`. Bytes past the payload are ignored.
pub open spec fn decode_instruction(b: Seq<u8>) -> Result<AmmInstruction, AmmError> {
    if b.len() == 0 {
        Err(AmmError::InvalidInstruction)
    } else if b[0] == 0 {
        if b.len() < 34 {
            Err(AmmError::InvalidInstruction)
        } else {
            Ok(
                AmmInstruction::Initialize {
                    nonce: b[1],
                    fee: u64_at(b, 2),
                    amount_a: u64_at(b, 10),
                    amount_b: u64_at(b, 18),
                    tolerance: u64_at(b, 26),
                },
            )
        }
    } else if b[0] == 2 {
        if b.len() < 2 {
            Err(AmmError::InvalidInstruction)
        } else {
            Ok(AmmInstruction::UpdateStatus { status: b[1] })
        }
    } else if b[0] == 3 {
        if b.len() < 9 {
            Err(AmmError::InvalidInstruction)
        } else {
            Ok(AmmInstruction::UpdateTolerance { tolerance: u64_at(b, 1) })
        }
    } else if b[0] == 9 {
        Ok(AmmInstruction::Terminate {  })
    } else if b[0] == 10 {
        if b.len() < 10 {
            Err(AmmError::InvalidInstruction)
        } else if b[9] == 1 {
            Ok(AmmInstruction::Swap { amount: u64_at(b, 1), direction: Direction::A2B })
        } else if b[9] == 2 {
            Ok(AmmInstruction::Swap { amount: u64_at(b, 1), direction: Direction::B2A })
        } else {
            Err(AmmError::InvalidDirection)
        }
    } else if b[0] == 80 {
        Ok(AmmInstruction::WithdrawalFee {  })
    } else {
        Err(AmmError::InvalidInstruction)
    }
}

/// The little-endian integer at `off` of `input`.
fn read_u64(input: &[u8], off: usize) -> (r: u64)
    requires
        off + 8 <= input@.len(),
    ensures
        r == u64_at(input@, off as int),
{
    let len = input.len();
    assert(off + 8 <= len);
    let part = vstd::slice::slice_subrange(input, off, off + 8);
    u64_from_le_bytes(part)
}

/// Appends the little-endian bytes of `v` to `buf`.
fn push_u64(buf: &mut Vec<u8>, v: u64)
    ensures
        final(buf)@ == old(buf)@ + spec_u64_to_le_bytes(v),
{
    let mut bytes = u64_to_le_bytes(v);
    buf.append(&mut bytes);
}

impl AmmInstruction {
    /// Reads an instruction from its wire bytes.
    pub fn unpack(input: &[u8]) -> (r: Result<Self, AmmError>)
        ensures
            r == decode_instruction(input@),
    {
        let len = input.len();
        if len == 0 {
            return Err(AmmError::InvalidInstruction);
        }
        let tag = input[0];
        if tag == 0 {
            if len < 34 {
                return Err(AmmError::InvalidInstruction);
            }
            Ok(
                AmmInstruction::Initialize {
                    nonce: input[1],
                    fee: read_u64(input, 2),
                    amount_a: read_u64(input, 10),
                    amount_b: read_u64(input, 18),
                    tolerance: read_u64(input, 26),
                },
            )
        } else if tag == 2 {
            if len < 2 {
                return Err(AmmError::InvalidInstruction);
            }
            Ok(AmmInstruction::UpdateStatus { status: input[1] })
        } else if tag == 3 {
            if len < 9 {
                return Err(AmmError::InvalidInstruction);
            }
            Ok(AmmInstruction::UpdateTolerance { tolerance: read_u64(input, 1) })
        } else if tag == 9 {
            Ok(AmmInstruction::Terminate {  })
        } else if tag == 10 {
            if len < 10 {
                return Err(AmmError::InvalidInstruction);
            }
            let direction = match input[9] {
                1 => Direction::A2B,
                2 => Direction::B2A,
                _ => {
                    return Err(AmmError::InvalidDirection);
                },
            };
            Ok(AmmInstruction::Swap { amount: read_u64(input, 1), direction })
        } else if tag == 80 {
            Ok(AmmInstruction::WithdrawalFee {  })
        } else {
            Err(AmmError::InvalidInstruction)
        }
    }

    /// The wire bytes of the instruction.
    pub fn pack(&self) -> (r: Vec<u8>)
        ensures
            r@ == encode_instruction(*self),
    {
        let mut buf: Vec<u8> = Vec::new();
        match self {
            AmmInstruction::Initialize { nonce, fee, amount_a, amount_b, tolerance } => {
                buf.push(0);
                buf.push(*nonce);
                push_u64(&mut buf, *fee);
                push_u64(&mut buf, *amount_a);
                push_u64(&mut buf, *amount_b);
                push_u64(&mut buf, *tolerance);
            },
            AmmInstruction::UpdateStatus { status } => {
                buf.push(2);
                buf.push(*status);
            },
            AmmInstruction::UpdateTolerance { tolerance } => {
                buf.push(3);
                push_u64(&mut buf, *tolerance);
            },
            AmmInstruction::Terminate {  } => {
                buf.push(9);
            },
            AmmInstruction::Swap { amount, direction } => {
                buf.push(10);
                push_u64(&mut buf, *amount);
                match direction {
                    Direction::A2B => buf.push(1),
                    Direction::B2A => buf.push(2),
                }
            },
            AmmInstruction::WithdrawalFee {  } => {
                buf.push(80);
            },
        }
        proof {
            assert(buf@ =~= encode_instruction(*self));
        }
        buf
    }
}

/// Reading back the wire bytes of an instruction gives the instruction.
pub proof fn lemma_instruction_round_trip(ix: AmmInstruction)
    ensures
        decode_instruction(encode_instruction(ix)) == Ok::<AmmInstruction, AmmError>(ix),
{
    lemma_auto_spec_u64_to_from_le_bytes();
    let b = encode_instruction(ix);
    match ix {
        AmmInstruction::Initialize { nonce, fee, amount_a, amount_b, tolerance } => {
            assert(b.subrange(2, 10) =~= spec_u64_to_le_bytes(fee));
            assert(b.subrange(10, 18) =~= spec_u64_to_le_bytes(amount_a));
            assert(b.subrange(18, 26) =~= spec_u64_to_le_bytes(amount_b));
            assert(b.subrange(26, 34) =~= spec_u64_to_le_bytes(tolerance));
        },
        AmmInstruction::UpdateTolerance { tolerance } => {
            assert(b.subrange(1, 9) =~= spec_u64_to_le_bytes(tolerance));
        },
        AmmInstruction::Swap { amount, direction } => {
            assert(b.subrange(1, 9) =~= spec_u64_to_le_bytes(amount));
        },
        _ => {},
    }
}

} // verus!
