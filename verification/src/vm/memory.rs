//! Index-addressed storage: globals, per-frame locals, the constant pool.

use vstd::prelude::*;
use crate::error::{VreError, VreResult};
use super::value::Value;

verus! {

/// A vector of `size` nulls.
pub fn nulls(size: usize) -> (v: Vec<Value>)
    ensures
        v@ == Seq::new(size as nat, |i: int| Value::Null),
{
    let mut v: Vec<Value> = Vec::new();
    let mut i: usize = 0;
    while i < size
        invariant
            i <= size,
            v@ == Seq::new(i as nat, |j: int| Value::Null),
        decreases size - i,
    {
        v.push(Value::Null);
        i += 1;
        assert(v@ =~= Seq::new(i as nat, |j: int| Value::Null));
    }
    v
}

/// Global slots, shared by all frames.
#[derive(Debug)]
pub struct Globals {
    values: Vec<Value>,
}

impl Globals {
    /// The slots in index order.
    pub closed spec fn view(&self) -> Seq<Value> {
        self.values@
    }

    /// `size` slots, each null.
    pub fn new(size: usize) -> (g: Globals)
        ensures
            g@ == Seq::new(size as nat, |i: int| Value::Null),
    {
        Globals { values: nulls(size) }
    }

    /// The value in slot `index`.
    pub fn load(&self, index: usize) -> (res: VreResult<Value>)
        ensures
            index < self@.len() ==> res == Ok::<Value, VreError>(self@[index as int]),
            index >= self@.len() ==> res == Err::<Value, VreError>(VreError::InvalidStackAccess),
    {
        if index < self.values.len() {
            Ok(self.values[index])
        } else {
            Err(VreError::InvalidStackAccess)
        }
    }

    /// Writes `value` into slot `index`.
    pub fn store(&mut self, index: usize, value: Value) -> (res: VreResult<()>)
        ensures
            index < old(self)@.len() ==> res == Ok::<(), VreError>(()) && final(self)@ == old(
                self,
            )@.update(index as int, value),
            index >= old(self)@.len() ==> res == Err::<(), VreError>(VreError::InvalidStackAccess)
                && final(self)@ == old(self)@,
    {
        if index >= self.values.len() {
            return Err(VreError::InvalidStackAccess);
        }
        self.values.set(index, value);
        Ok(())
    }
}

/// The local slots of one call frame.
#[derive(Debug)]
pub struct Locals {
    values: Vec<Value>,
}

impl Locals {
    /// The slots in index order.
    pub closed spec fn view(&self) -> Seq<Value> {
        self.values@
    }

    /// `size` slots, each null.
    pub fn new(size: usize) -> (l: Locals)
        ensures
            l@ == Seq::new(size as nat, |i: int| Value::Null),
    {
        Locals { values: nulls(size) }
    }

    /// The value in slot `index`.
    pub fn load(&self, index: usize) -> (res: VreResult<Value>)
        ensures
            index < self@.len() ==> res == Ok::<Value, VreError>(self@[index as int]),
            index >= self@.len() ==> res == Err::<Value, VreError>(
                VreError::InvalidLocalAccess(index),
            ),
    {
        if index < self.values.len() {
            Ok(self.values[index])
        } else {
            Err(VreError::InvalidLocalAccess(index))
        }
    }

    /// Writes `value` into slot `index`.
    pub fn store(&mut self, index: usize, value: Value) -> (res: VreResult<()>)
        ensures
            index < old(self)@.len() ==> res == Ok::<(), VreError>(()) && final(self)@ == old(
                self,
            )@.update(index as int, value),
            index >= old(self)@.len() ==> res == Err::<(), VreError>(
                VreError::InvalidLocalAccess(index),
            ) && final(self)@ == old(self)@,
    {
        if index >= self.values.len() {
            return Err(VreError::InvalidLocalAccess(index));
        }
        self.values.set(index, value);
        Ok(())
    }
}

/// The read-only constants of a program.
#[derive(Debug)]
pub struct ConstantPool {
    values: Vec<Value>,
}

impl ConstantPool {
    /// The constants in index order.
    pub closed spec fn view(&self) -> Seq<Value> {
        self.values@
    }

    /// A pool that holds `values`.
    pub fn new(values: Vec<Value>) -> (p: ConstantPool)
        ensures
            p@ == values@,
    {
        ConstantPool { values }
    }

    /// The constant at `index`.
    pub fn get(&self, index: usize) -> (res: VreResult<Value>)
        ensures
            index < self@.len() ==> res == Ok::<Value, VreError>(self@[index as int]),
            index >= self@.len() ==> res == Err::<Value, VreError>(
                VreError::InvalidConstantAccess(index),
            ),
    {
        if index < self.values.len() {
            Ok(self.values[index])
        } else {
            Err(VreError::InvalidConstantAccess(index))
        }
    }
}

} // verus!
