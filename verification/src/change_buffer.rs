//! The instruction stream: the closed set of opcodes, the fixed record
//! layout, and the decoding of one record at a cursor.
//!
//! A record is `u64 opcode`, `u64 span_id` and the arguments that the opcode
//! calls for, all little-endian: a string-table key is a `u32`, a trace id a
//! `u128`, an error code an `i32`, a time an `i64`, and a metric the eight
//! bytes of a binary64 number.

use vstd::prelude::*;
use crate::decoder::{get_i32, get_i64, get_u128, get_u32, get_u64, in_bounds, le_u128, le_u32, le_u64, signed32, signed64};
use crate::error::Error;

verus! {

/// What an instruction does. The numbers of the opcodes, 0 for `Create` up to
/// 12 for `SetTraceOrigin`, are part of the wire format.
#[derive(Debug, Clone, Copy, PartialEq, Eq, Structural)]
pub enum OpCode {
    Create,
    SetMetaAttr,
    SetMetricAttr,
    SetServiceName,
    SetResourceName,
    SetError,
    SetStart,
    SetDuration,
    SetType,
    SetName,
    SetTraceMetaAttr,
    SetTraceMetricsAttr,
    SetTraceOrigin,
}

impl OpCode {
    /// The opcode with the number `num`, where there is one.
    pub open spec fn of_num(num: int) -> Option<OpCode> {
        if num == 0 {
            Some(OpCode::Create)
        } else if num == 1 {
            Some(OpCode::SetMetaAttr)
        } else if num == 2 {
            Some(OpCode::SetMetricAttr)
        } else if num == 3 {
            Some(OpCode::SetServiceName)
        } else if num == 4 {
            Some(OpCode::SetResourceName)
        } else if num == 5 {
            Some(OpCode::SetError)
        } else if num == 6 {
            Some(OpCode::SetStart)
        } else if num == 7 {
            Some(OpCode::SetDuration)
        } else if num == 8 {
            Some(OpCode::SetType)
        } else if num == 9 {
            Some(OpCode::SetName)
        } else if num == 10 {
            Some(OpCode::SetTraceMetaAttr)
        } else if num == 11 {
            Some(OpCode::SetTraceMetricsAttr)
        } else if num == 12 {
            Some(OpCode::SetTraceOrigin)
        } else {
            None
        }
    }

    /// The number of the opcode on the wire.
    pub open spec fn num(self) -> int {
        match self {
            OpCode::Create => 0,
            OpCode::SetMetaAttr => 1,
            OpCode::SetMetricAttr => 2,
            OpCode::SetServiceName => 3,
            OpCode::SetResourceName => 4,
            OpCode::SetError => 5,
            OpCode::SetStart => 6,
            OpCode::SetDuration => 7,
            OpCode::SetType => 8,
            OpCode::SetName => 9,
            OpCode::SetTraceMetaAttr => 10,
            OpCode::SetTraceMetricsAttr => 11,
            OpCode::SetTraceOrigin => 12,
        }
    }

    /// The number of bytes that the arguments of the opcode take.
    pub open spec fn args_width(self) -> int {
        match self {
            OpCode::Create => 24,
            OpCode::SetMetaAttr => 8,
            OpCode::SetMetricAttr => 12,
            OpCode::SetServiceName => 4,
            OpCode::SetResourceName => 4,
            OpCode::SetError => 4,
            OpCode::SetStart => 8,
            OpCode::SetDuration => 8,
            OpCode::SetType => 4,
            OpCode::SetName => 4,
            OpCode::SetTraceMetaAttr => 8,
            OpCode::SetTraceMetricsAttr => 12,
            OpCode::SetTraceOrigin => 4,
        }
    }

    /// The opcode with the number `num`; `None` for a number outside the
    /// enumeration.
    pub fn from_num(num: u64) -> (r: Option<OpCode>)
        ensures
            r == Self::of_num(num as int),
    {
        if num == 0 {
            Some(OpCode::Create)
        } else if num == 1 {
            Some(OpCode::SetMetaAttr)
        } else if num == 2 {
            Some(OpCode::SetMetricAttr)
        } else if num == 3 {
            Some(OpCode::SetServiceName)
        } else if num == 4 {
            Some(OpCode::SetResourceName)
        } else if num == 5 {
            Some(OpCode::SetError)
        } else if num == 6 {
            Some(OpCode::SetStart)
        } else if num == 7 {
            Some(OpCode::SetDuration)
        } else if num == 8 {
            Some(OpCode::SetType)
        } else if num == 9 {
            Some(OpCode::SetName)
        } else if num == 10 {
            Some(OpCode::SetTraceMetaAttr)
        } else if num == 11 {
            Some(OpCode::SetTraceMetricsAttr)
        } else if num == 12 {
            Some(OpCode::SetTraceOrigin)
        } else {
            None
        }
    }
}

/// The numbers and the opcodes correspond one to one.
pub proof fn law_opcode_numbers(op: OpCode, num: int)
    ensures
        OpCode::of_num(op.num()) == Some(op),
        OpCode::of_num(num) == Some(op) ==> num == op.num(),
        OpCode::of_num(num) is Some <==> 0 <= num <= 12,
{
}

/// The head of a record: which operation, and on which span.
#[derive(Debug, Clone, Copy, PartialEq, Eq, Structural)]
pub struct BufferedOperation {
    pub opcode: OpCode,
    pub span_id: u64,
}

/// The head of the record that starts at `pos`.
pub open spec fn decode_head(bytes: Seq<u8>, pos: int) -> Result<BufferedOperation, Error> {
    if !in_bounds(bytes.len(), pos, 8) {
        Err(Error::BufferTooShort)
    } else {
        match OpCode::of_num(le_u64(bytes, pos)) {
            None => Err(Error::MalformedInstruction(le_u64(bytes, pos) as u64)),
            Some(opcode) => if !in_bounds(bytes.len(), pos, 16) {
                Err(Error::BufferTooShort)
            } else {
                Ok(BufferedOperation { opcode, span_id: le_u64(bytes, pos + 8) as u64 })
            },
        }
    }
}

impl BufferedOperation {
    /// Reads the head of a record at the cursor and moves the cursor past it.
    /// An opcode outside the enumeration gives `MalformedInstruction`, a
    /// buffer that ends inside the head `BufferTooShort`; either leaves the
    /// cursor where it was.
    pub fn from_buf(buf: &[u8], index: &mut usize) -> (r: Result<Self, Error>)
        ensures
            r == decode_head(buf@, *old(index) as int),
            r is Ok ==> *final(index) == *old(index) + 16,
            r is Err ==> *final(index) == *old(index),
    {
        let mut cursor: usize = *index;
        let num: u64 = match get_u64(buf, &mut cursor) {
            Ok(v) => v,
            Err(e) => { return Err(e); },
        };
        let opcode = match OpCode::from_num(num) {
            Some(o) => o,
            None => { return Err(Error::MalformedInstruction(num)); },
        };
        let span_id: u64 = match get_u64(buf, &mut cursor) {
            Ok(v) => v,
            Err(e) => { return Err(e); },
        };
        *index = cursor;
        Ok(BufferedOperation { opcode, span_id })
    }
}

/// An operation with its arguments as they were read: each string is still a
/// key of the string table, each metric the bit pattern of a binary64 number.
#[derive(Debug, Clone, Copy, PartialEq, Eq, Structural)]
pub enum Operation {
    Create { trace_id: u128, parent_id: u64 },
    SetMetaAttr { name: u32, value: u32 },
    SetMetricAttr { name: u32, value: u64 },
    SetServiceName { value: u32 },
    SetResourceName { value: u32 },
    SetError { value: i32 },
    SetStart { value: i64 },
    SetDuration { value: i64 },
    SetType { value: u32 },
    SetName { value: u32 },
    SetTraceMetaAttr { name: u32, value: u32 },
    SetTraceMetricsAttr { name: u32, value: u64 },
    SetTraceOrigin { value: u32 },
}

/// One instruction: an operation and the span that it is about.
#[derive(Debug, Clone, Copy, PartialEq, Eq, Structural)]
pub struct Instruction {
    pub span_id: u64,
    pub operation: Operation,
}

/// The operation that the arguments at `pos` make of `opcode`, where the
/// buffer holds all of them.
pub open spec fn decode_args(opcode: OpCode, bytes: Seq<u8>, pos: int) -> Result<Operation, Error> {
    if !in_bounds(bytes.len(), pos, opcode.args_width()) {
        Err(Error::BufferTooShort)
    } else {
        Ok(
            match opcode {
                OpCode::Create => Operation::Create {
                    trace_id: le_u128(bytes, pos) as u128,
                    parent_id: le_u64(bytes, pos + 16) as u64,
                },
                OpCode::SetMetaAttr => Operation::SetMetaAttr {
                    name: le_u32(bytes, pos) as u32,
                    value: le_u32(bytes, pos + 4) as u32,
                },
                OpCode::SetMetricAttr => Operation::SetMetricAttr {
                    name: le_u32(bytes, pos) as u32,
                    value: le_u64(bytes, pos + 4) as u64,
                },
                OpCode::SetServiceName => Operation::SetServiceName {
                    value: le_u32(bytes, pos) as u32,
                },
                OpCode::SetResourceName => Operation::SetResourceName {
                    value: le_u32(bytes, pos) as u32,
                },
                OpCode::SetError => Operation::SetError {
                    value: signed32(le_u32(bytes, pos)) as i32,
                },
                OpCode::SetStart => Operation::SetStart {
                    value: signed64(le_u64(bytes, pos)) as i64,
                },
                OpCode::SetDuration => Operation::SetDuration {
                    value: signed64(le_u64(bytes, pos)) as i64,
                },
                OpCode::SetType => Operation::SetType { value: le_u32(bytes, pos) as u32 },
                OpCode::SetName => Operation::SetName { value: le_u32(bytes, pos) as u32 },
                OpCode::SetTraceMetaAttr => Operation::SetTraceMetaAttr {
                    name: le_u32(bytes, pos) as u32,
                    value: le_u32(bytes, pos + 4) as u32,
                },
                OpCode::SetTraceMetricsAttr => Operation::SetTraceMetricsAttr {
                    name: le_u32(bytes, pos) as u32,
                    value: le_u64(bytes, pos + 4) as u64,
                },
                OpCode::SetTraceOrigin => Operation::SetTraceOrigin {
                    value: le_u32(bytes, pos) as u32,
                },
            },
        )
    }
}

/// The instruction whose record starts at `pos`.
pub open spec fn decode_instruction(bytes: Seq<u8>, pos: int) -> Result<Instruction, Error> {
    match decode_head(bytes, pos) {
        Err(e) => Err(e),
        Ok(head) => match decode_args(head.opcode, bytes, pos + 16) {
            Err(e) => Err(e),
            Ok(operation) => Ok(Instruction { span_id: head.span_id, operation }),
        },
    }
}

/// The number of bytes of the record that starts at `pos`, where it decodes.
pub open spec fn record_width(bytes: Seq<u8>, pos: int) -> int {
    16 + decode_head(bytes, pos)->Ok_0.opcode.args_width()
}

impl Operation {
    /// Reads the arguments of `opcode` at the cursor and moves the cursor past
    /// them. A buffer that ends inside them gives `BufferTooShort` and leaves
    /// the cursor where it was.
    pub fn from_buf(opcode: OpCode, buf: &[u8], index: &mut usize) -> (r: Result<Self, Error>)
        ensures
            r == decode_args(opcode, buf@, *old(index) as int),
            r is Ok ==> *final(index) == *old(index) + opcode.args_width(),
            r is Err ==> *final(index) == *old(index),
    {
        let mut cursor: usize = *index;
        let r = match opcode {
            OpCode::Create => {
                if cursor > buf.len() || buf.len() - cursor < 24 {
                    return Err(Error::BufferTooShort);
                }
                let trace_id: u128 = match get_u128(buf, &mut cursor) {
                    Ok(v) => v,
                    Err(e) => { return Err(e); },
                };
                let parent_id: u64 = match get_u64(buf, &mut cursor) {
                    Ok(v) => v,
                    Err(e) => { return Err(e); },
                };
                Operation::Create { trace_id, parent_id }
            },
            OpCode::SetMetaAttr => {
                let (name, value) = match get_key_pair(buf, &mut cursor) {
                    Ok(v) => v,
                    Err(e) => { return Err(e); },
                };
                Operation::SetMetaAttr { name, value }
            },
            OpCode::SetMetricAttr => {
                let (name, value) = match get_key_and_bits(buf, &mut cursor) {
                    Ok(v) => v,
                    Err(e) => { return Err(e); },
                };
                Operation::SetMetricAttr { name, value }
            },
            OpCode::SetServiceName => {
                let value: u32 = match get_u32(buf, &mut cursor) {
                    Ok(v) => v,
                    Err(e) => { return Err(e); },
                };
                Operation::SetServiceName { value }
            },
            OpCode::SetResourceName => {
                let value: u32 = match get_u32(buf, &mut cursor) {
                    Ok(v) => v,
                    Err(e) => { return Err(e); },
                };
                Operation::SetResourceName { value }
            },
            OpCode::SetError => {
                let value: i32 = match get_i32(buf, &mut cursor) {
                    Ok(v) => v,
                    Err(e) => { return Err(e); },
                };
                Operation::SetError { value }
            },
            OpCode::SetStart => {
                let value: i64 = match get_i64(buf, &mut cursor) {
                    Ok(v) => v,
                    Err(e) => { return Err(e); },
                };
                Operation::SetStart { value }
            },
            OpCode::SetDuration => {
                let value: i64 = match get_i64(buf, &mut cursor) {
                    Ok(v) => v,
                    Err(e) => { return Err(e); },
                };
                Operation::SetDuration { value }
            },
            OpCode::SetType => {
                let value: u32 = match get_u32(buf, &mut cursor) {
                    Ok(v) => v,
                    Err(e) => { return Err(e); },
                };
                Operation::SetType { value }
            },
            OpCode::SetName => {
                let value: u32 = match get_u32(buf, &mut cursor) {
                    Ok(v) => v,
                    Err(e) => { return Err(e); },
                };
                Operation::SetName { value }
            },
            OpCode::SetTraceMetaAttr => {
                let (name, value) = match get_key_pair(buf, &mut cursor) {
                    Ok(v) => v,
                    Err(e) => { return Err(e); },
                };
                Operation::SetTraceMetaAttr { name, value }
            },
            OpCode::SetTraceMetricsAttr => {
                let (name, value) = match get_key_and_bits(buf, &mut cursor) {
                    Ok(v) => v,
                    Err(e) => { return Err(e); },
                };
                Operation::SetTraceMetricsAttr { name, value }
            },
            OpCode::SetTraceOrigin => {
                let value: u32 = match get_u32(buf, &mut cursor) {
                    Ok(v) => v,
                    Err(e) => { return Err(e); },
                };
                Operation::SetTraceOrigin { value }
            },
        };
        *index = cursor;
        Ok(r)
    }
}

/// Reads two string-table keys, one after the other.
fn get_key_pair(buf: &[u8], index: &mut usize) -> (r: Result<(u32, u32), Error>)
    ensures
        match r {
            Ok((a, b)) => in_bounds(buf@.len(), *old(index) as int, 8) && a == le_u32(
                buf@,
                *old(index) as int,
            ) && b == le_u32(buf@, *old(index) + 4) && *final(index) == *old(index) + 8,
            Err(e) => !in_bounds(buf@.len(), *old(index) as int, 8) && e == Error::BufferTooShort
                && *final(index) == *old(index),
        },
{
    let mut cursor: usize = *index;
    if cursor > buf.len() || buf.len() - cursor < 8 {
        return Err(Error::BufferTooShort);
    }
    let a: u32 = match get_u32(buf, &mut cursor) {
        Ok(v) => v,
        Err(e) => { return Err(e); },
    };
    let b: u32 = match get_u32(buf, &mut cursor) {
        Ok(v) => v,
        Err(e) => { return Err(e); },
    };
    *index = cursor;
    Ok((a, b))
}

/// Reads a string-table key and, after it, the eight bytes of a number.
fn get_key_and_bits(buf: &[u8], index: &mut usize) -> (r: Result<(u32, u64), Error>)
    ensures
        match r {
            Ok((a, b)) => in_bounds(buf@.len(), *old(index) as int, 12) && a == le_u32(
                buf@,
                *old(index) as int,
            ) && b == le_u64(buf@, *old(index) + 4) && *final(index) == *old(index) + 12,
            Err(e) => !in_bounds(buf@.len(), *old(index) as int, 12) && e == Error::BufferTooShort
                && *final(index) == *old(index),
        },
{
    let mut cursor: usize = *index;
    if cursor > buf.len() || buf.len() - cursor < 12 {
        return Err(Error::BufferTooShort);
    }
    let a: u32 = match get_u32(buf, &mut cursor) {
        Ok(v) => v,
        Err(e) => { return Err(e); },
    };
    let b: u64 = match get_u64(buf, &mut cursor) {
        Ok(v) => v,
        Err(e) => { return Err(e); },
    };
    *index = cursor;
    Ok((a, b))
}

} // verus!
