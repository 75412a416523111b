//! The artifact format: a small stack-machine bytecode, and its parser.
//!
//! An artifact is a byte string: one format-version byte followed by a
//! sequence of instructions, each one opcode byte plus, for some opcodes, one
//! operand byte. Parsing decodes the instruction list and checks that every
//! jump and call target is in range; anything else is rejected whole, so the
//! detector never works on a partial decode.

use vstd::prelude::*;

use crate::errors::ScanError;

verus! {

/// The only format version this parser accepts.
pub const FORMAT_VERSION: u8 = 1;

pub const OP_HALT: u8 = 0x00;
pub const OP_PUSH: u8 = 0x01;
pub const OP_POP: u8 = 0x02;
pub const OP_ADD: u8 = 0x03;
pub const OP_JUMP: u8 = 0x04;
pub const OP_JUMP_IF_ZERO: u8 = 0x05;
pub const OP_CALL: u8 = 0x06;
pub const OP_RET: u8 = 0x07;
pub const OP_EXT_CALL: u8 = 0x08;
pub const OP_TIME: u8 = 0x09;

/// One decoded instruction. Operands are byte-sized: jump and call targets
/// are instruction indexes, so a program holds at most 256 instructions.
#[derive(Clone, Copy, PartialEq, Eq, Structural, Debug)]
pub enum Instr {
    /// Stop execution.
    Halt,
    /// Push the operand onto the data stack.
    Push(u8),
    /// Discard the top of the data stack.
    Pop,
    /// Pop two values and push their sum modulo 256.
    Add,
    /// Continue at the target instruction index.
    Jump(u8),
    /// Pop one value; continue at the target when it is zero.
    JumpIfZero(u8),
    /// Push the return index and continue at the target.
    Call(u8),
    /// Return to the most recent call site; at top level, stop.
    Ret,
    /// Invoke the external service named by the operand: pops one argument
    /// byte and pushes a status byte.
    ExtCall(u8),
    /// Push a time-dependent byte (a nondeterminism source in the wild; the
    /// sandbox models it deterministically from the instruction counter).
    Time,
}

/// Whether this opcode byte is followed by an operand byte.
pub open spec fn has_operand(op: u8) -> bool {
    op == OP_PUSH || op == OP_JUMP || op == OP_JUMP_IF_ZERO || op == OP_CALL || op == OP_EXT_CALL
}

/// Whether this opcode byte names an instruction at all.
pub open spec fn known_opcode(op: u8) -> bool {
    op <= OP_TIME
}

/// The instruction a known opcode byte and its operand byte stand for.
pub open spec fn instr_of(op: u8, operand: u8) -> Instr {
    if op == OP_HALT {
        Instr::Halt
    } else if op == OP_PUSH {
        Instr::Push(operand)
    } else if op == OP_POP {
        Instr::Pop
    } else if op == OP_ADD {
        Instr::Add
    } else if op == OP_JUMP {
        Instr::Jump(operand)
    } else if op == OP_JUMP_IF_ZERO {
        Instr::JumpIfZero(operand)
    } else if op == OP_CALL {
        Instr::Call(operand)
    } else if op == OP_RET {
        Instr::Ret
    } else if op == OP_EXT_CALL {
        Instr::ExtCall(operand)
    } else {
        Instr::Time
    }
}

/// Prepend an instruction to an already decoded tail, keeping failure.
pub open spec fn with_rest(i: Instr, rest: Option<Seq<Instr>>) -> Option<Seq<Instr>> {
    match rest {
        Option::Some(r) => Option::Some(seq![i] + r),
        Option::None => Option::None,
    }
}

/// Decode the instruction sequence that starts at byte index `i`, or nothing
/// when an unknown opcode or a truncated operand is met.
pub open spec fn decode_from(bytes: Seq<u8>, i: int) -> Option<Seq<Instr>>
    decreases bytes.len() - i,
{
    if i >= bytes.len() {
        Option::Some(Seq::empty())
    } else if !known_opcode(bytes[i]) {
        Option::None
    } else if has_operand(bytes[i]) {
        if i + 2 <= bytes.len() {
            with_rest(instr_of(bytes[i], bytes[i + 1]), decode_from(bytes, i + 2))
        } else {
            Option::None
        }
    } else {
        with_rest(instr_of(bytes[i], 0), decode_from(bytes, i + 1))
    }
}

/// The jump or call target of an instruction, when it has one.
pub open spec fn instr_target(i: Instr) -> Option<u8> {
    match i {
        Instr::Jump(t) => Option::Some(t),
        Instr::JumpIfZero(t) => Option::Some(t),
        Instr::Call(t) => Option::Some(t),
        _ => Option::None,
    }
}

/// Whether the instruction's target, if any, lies inside a program of `n`
/// instructions.
pub open spec fn target_ok(i: Instr, n: int) -> bool {
    match instr_target(i) {
        Option::Some(t) => (t as int) < n,
        Option::None => true,
    }
}

/// Whether every control-transfer target in the program is in range.
pub open spec fn targets_ok(p: Seq<Instr>) -> bool {
    forall|j: int| 0 <= j < p.len() ==> target_ok(p[j], p.len() as int)
}

/// What parsing an artifact yields: the decoded program, or nothing when the
/// bytes are empty, carry the wrong format version, fail to decode, or hold
/// an out-of-range target.
pub open spec fn spec_parse(bytes: Seq<u8>) -> Option<Seq<Instr>> {
    if bytes.len() == 0 || bytes[0] != FORMAT_VERSION {
        Option::None
    } else {
        match decode_from(bytes, 1) {
            Option::None => Option::None,
            Option::Some(p) => if targets_ok(p) {
                Option::Some(p)
            } else {
                Option::None
            },
        }
    }
}

/// The instruction a known opcode and operand byte stand for.
pub fn build_instr(op: u8, operand: u8) -> (r: Instr)
    requires
        known_opcode(op),
    ensures
        r == instr_of(op, operand),
{
    if op == OP_HALT {
        Instr::Halt
    } else if op == OP_PUSH {
        Instr::Push(operand)
    } else if op == OP_POP {
        Instr::Pop
    } else if op == OP_ADD {
        Instr::Add
    } else if op == OP_JUMP {
        Instr::Jump(operand)
    } else if op == OP_JUMP_IF_ZERO {
        Instr::JumpIfZero(operand)
    } else if op == OP_CALL {
        Instr::Call(operand)
    } else if op == OP_RET {
        Instr::Ret
    } else if op == OP_EXT_CALL {
        Instr::ExtCall(operand)
    } else {
        Instr::Time
    }
}

fn decode_exec(bytes: &Vec<u8>, i: usize) -> (r: Option<Vec<Instr>>)
    requires
        i <= bytes@.len(),
    ensures
        match r {
            Option::Some(v) => decode_from(bytes@, i as int) == Option::Some(v@),
            Option::None => decode_from(bytes@, i as int) is None,
        },
    decreases bytes@.len() - i,
{
    if i == bytes.len() {
        Option::Some(Vec::new())
    } else {
        let op = bytes[i];
        if op > OP_TIME {
            Option::None
        } else if op == OP_PUSH || op == OP_JUMP || op == OP_JUMP_IF_ZERO || op == OP_CALL
            || op == OP_EXT_CALL {
            if bytes.len() - i >= 2 {
                let operand = bytes[i + 1];
                match decode_exec(bytes, i + 2) {
                    Option::Some(mut rest) => {
                        let instr = build_instr(op, operand);
                        rest.insert(0, instr);
                        proof {
                            assert(rest@ =~= seq![instr] + rest@.subrange(1, rest@.len() as int));
                        }
                        Option::Some(rest)
                    },
                    Option::None => Option::None,
                }
            } else {
                Option::None
            }
        } else {
            match decode_exec(bytes, i + 1) {
                Option::Some(mut rest) => {
                    let instr = build_instr(op, 0);
                    rest.insert(0, instr);
                    proof {
                        assert(rest@ =~= seq![instr] + rest@.subrange(1, rest@.len() as int));
                    }
                    Option::Some(rest)
                },
                Option::None => Option::None,
            }
        }
    }
}

/// Parse an artifact into its program, rejecting malformed input whole:
/// partial static results would mislead the detector, so nothing short of a
/// complete, target-valid decode is returned.
pub fn parse(bytes: &Vec<u8>) -> (r: Result<Vec<Instr>, ScanError>)
    ensures
        match r {
            Result::Ok(p) => spec_parse(bytes@) == Option::Some(p@),
            Result::Err(e) => spec_parse(bytes@) is None && e == ScanError::ArtifactInvalid,
        },
{
    if bytes.len() == 0 || bytes[0] != FORMAT_VERSION {
        return Result::Err(ScanError::ArtifactInvalid);
    }
    match decode_exec(bytes, 1) {
        Option::None => Result::Err(ScanError::ArtifactInvalid),
        Option::Some(p) => {
            let n = p.len();
            let mut j: usize = 0;
            while j < n
                invariant
                    n == p@.len(),
                    j <= n,
                    bytes@.len() > 0 && bytes@[0] == FORMAT_VERSION,
                    decode_from(bytes@, 1) == Option::Some(p@),
                    forall|k: int| 0 <= k < j ==> target_ok(p@[k], p@.len() as int),
                decreases n - j,
            {
                let in_range = match p[j] {
                    Instr::Jump(t) => (t as usize) < n,
                    Instr::JumpIfZero(t) => (t as usize) < n,
                    Instr::Call(t) => (t as usize) < n,
                    _ => true,
                };
                if !in_range {
                    proof {
                        assert(!target_ok(p@[j as int], p@.len() as int));
                    }
                    return Result::Err(ScanError::ArtifactInvalid);
                }
                j += 1;
            }
            Result::Ok(p)
        },
    }
}

} // verus!
