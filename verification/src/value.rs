//! The operand-stack value model. Floating-point variants carry raw
//! IEEE-754 bit patterns. A null reference is `Reference(None)`; a live
//! reference carries a heap object id.

use vstd::prelude::*;
use crate::errors::RuntimeError;
use crate::fp;

verus! {

#[derive(Debug, Clone, Copy, PartialEq)]
pub enum JvmValue {
    Int(i32),
    /// IEEE-754 single-precision bit pattern.
    Float(u32),
    Long(i64),
    /// IEEE-754 double-precision bit pattern.
    Double(u64),
    Boolean(bool),
    Char(u16),
    Reference(Option<usize>),
    ReturnAddress(usize),
}

/// What `as_int` yields for each value; `None` where the coercion is
/// undefined.
pub open spec fn spec_as_int(v: JvmValue) -> Option<i32> {
    match v {
        JvmValue::Int(i) => Some(i),
        JvmValue::Float(f) => Some(fp::f2i_of(f)),
        JvmValue::Char(c) => Some(c as i32),
        JvmValue::Boolean(b) => Some(if b { 1i32 } else { 0i32 }),
        _ => None,
    }
}

/// What `as_float` yields for each value, as single-precision bits.
pub open spec fn spec_as_float(v: JvmValue) -> Option<u32> {
    match v {
        JvmValue::Int(i) => Some(fp::i2f_of(i)),
        JvmValue::Float(f) => Some(f),
        _ => None,
    }
}

/// What `as_double` yields for each value, as double-precision bits.
pub open spec fn spec_as_double(v: JvmValue) -> Option<u64> {
    match v {
        JvmValue::Double(d) => Some(d),
        JvmValue::Float(f) => Some(fp::f2d_of(f)),
        JvmValue::Int(i) => Some(fp::i2d_of(i)),
        JvmValue::Long(l) => Some(fp::l2d_of(l)),
        _ => None,
    }
}

/// What `as_char` yields for each value.
pub open spec fn spec_as_char(v: JvmValue) -> Option<u16> {
    match v {
        JvmValue::Char(c) => Some(c),
        JvmValue::Int(i) => Some(i as u16),
        _ => None,
    }
}

/// What `as_boolean` yields for each value.
pub open spec fn spec_as_boolean(v: JvmValue) -> Option<bool> {
    match v {
        JvmValue::Boolean(b) => Some(b),
        JvmValue::Int(i) => Some(i != 0),
        _ => None,
    }
}

impl JvmValue {
    /// Coerce to a 32-bit integer; `InvalidStackState` where undefined.
    pub fn as_int(&self) -> (r: Result<i32, RuntimeError>)
        ensures
            match spec_as_int(*self) {
                Some(i) => r == Ok::<i32, RuntimeError>(i),
                None => r == Err::<i32, RuntimeError>(RuntimeError::InvalidStackState),
            },
    {
        match self {
            JvmValue::Int(i) => Ok(*i),
            JvmValue::Float(f) => Ok(fp::f2i_bits(*f)),
            JvmValue::Char(c) => Ok(*c as i32),
            JvmValue::Boolean(b) => Ok(if *b { 1 } else { 0 }),
            _ => Err(RuntimeError::InvalidStackState),
        }
    }

    /// Coerce to single-precision bits; `InvalidStackState` where
    /// undefined.
    pub fn as_float(&self) -> (r: Result<u32, RuntimeError>)
        ensures
            match spec_as_float(*self) {
                Some(f) => r == Ok::<u32, RuntimeError>(f),
                None => r == Err::<u32, RuntimeError>(RuntimeError::InvalidStackState),
            },
    {
        match self {
            JvmValue::Int(i) => Ok(fp::i2f_bits(*i)),
            JvmValue::Float(f) => Ok(*f),
            _ => Err(RuntimeError::InvalidStackState),
        }
    }

    /// Coerce to double-precision bits; `InvalidStackState` where
    /// undefined.
    pub fn as_double(&self) -> (r: Result<u64, RuntimeError>)
        ensures
            match spec_as_double(*self) {
                Some(d) => r == Ok::<u64, RuntimeError>(d),
                None => r == Err::<u64, RuntimeError>(RuntimeError::InvalidStackState),
            },
    {
        match self {
            JvmValue::Double(d) => Ok(*d),
            JvmValue::Float(f) => Ok(fp::f2d_bits(*f)),
            JvmValue::Int(i) => Ok(fp::i2d_bits(*i)),
            JvmValue::Long(l) => Ok(fp::l2d_bits(*l)),
            _ => Err(RuntimeError::InvalidStackState),
        }
    }

    /// Coerce to a UTF-16 code unit; `InvalidStackState` where undefined.
    pub fn as_char(&self) -> (r: Result<u16, RuntimeError>)
        ensures
            match spec_as_char(*self) {
                Some(c) => r == Ok::<u16, RuntimeError>(c),
                None => r == Err::<u16, RuntimeError>(RuntimeError::InvalidStackState),
            },
    {
        match self {
            JvmValue::Char(c) => Ok(*c),
            JvmValue::Int(i) => Ok(*i as u16),
            _ => Err(RuntimeError::InvalidStackState),
        }
    }

    /// Coerce to a boolean; `InvalidStackState` where undefined.
    pub fn as_boolean(&self) -> (r: Result<bool, RuntimeError>)
        ensures
            match spec_as_boolean(*self) {
                Some(b) => r == Ok::<bool, RuntimeError>(b),
                None => r == Err::<bool, RuntimeError>(RuntimeError::InvalidStackState),
            },
    {
        match self {
            JvmValue::Boolean(b) => Ok(*b),
            JvmValue::Int(i) => Ok(*i != 0),
            _ => Err(RuntimeError::InvalidStackState),
        }
    }

    /// Whether this is the null reference.
    pub fn is_null(&self) -> (r: bool)
        ensures
            r == (*self == JvmValue::Reference(None::<usize>)),
    {
        match self {
            JvmValue::Reference(opt) => opt.is_none(),
            _ => false,
        }
    }
}

} // verus!
