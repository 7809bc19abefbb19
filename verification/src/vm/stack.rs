//! The bounded operand stack.

use vstd::prelude::*;
use crate::error::{VreError, VreResult};
use super::value::Value;

verus! {

/// A last-in-first-out sequence of values with a fixed largest depth.
#[derive(Debug)]
pub struct Stack {
    values: Vec<Value>,
    max_size: usize,
}

impl Stack {
    /// The values, bottom first.
    pub closed spec fn view(&self) -> Seq<Value> {
        self.values@
    }

    /// The largest depth.
    pub closed spec fn limit(&self) -> usize {
        self.max_size
    }

    /// The depth never exceeds the limit.
    pub open spec fn wf(&self) -> bool {
        self@.len() <= self.limit()
    }

    /// An empty stack that holds at most `max_size` values.
    pub fn new(max_size: usize) -> (s: Stack)
        ensures
            s.wf(),
            s@ == Seq::<Value>::empty(),
            s.limit() == max_size,
    {
        Stack { values: Vec::new(), max_size }
    }

    /// Puts `value` on top, or reports an overflow on a full stack.
    pub fn push(&mut self, value: Value) -> (res: VreResult<()>)
        requires
            old(self).wf(),
        ensures
            final(self).wf(),
            final(self).limit() == old(self).limit(),
            old(self)@.len() < old(self).limit() ==> res == Ok::<(), VreError>(())
                && final(self)@ == old(self)@.push(value),
            old(self)@.len() >= old(self).limit() ==> res == Err::<(), VreError>(
                VreError::StackOverflow,
            ) && final(self)@ == old(self)@,
    {
        if self.values.len() >= self.max_size {
            return Err(VreError::StackOverflow);
        }
        self.values.push(value);
        Ok(())
    }

    /// Takes the top value off, or reports an underflow on an empty stack.
    pub fn pop(&mut self) -> (res: VreResult<Value>)
        requires
            old(self).wf(),
        ensures
            final(self).wf(),
            final(self).limit() == old(self).limit(),
            old(self)@.len() > 0 ==> res == Ok::<Value, VreError>(old(self)@.last())
                && final(self)@ == old(self)@.drop_last(),
            old(self)@.len() == 0 ==> res == Err::<Value, VreError>(VreError::StackUnderflow)
                && final(self)@ == old(self)@,
    {
        match self.values.pop() {
            Some(v) => Ok(v),
            None => Err(VreError::StackUnderflow),
        }
    }

    /// The top value, or an underflow on an empty stack.
    pub fn peek(&self) -> (res: VreResult<Value>)
        ensures
            self@.len() > 0 ==> res == Ok::<Value, VreError>(self@.last()),
            self@.len() == 0 ==> res == Err::<Value, VreError>(VreError::StackUnderflow),
    {
        let n = self.values.len();
        if n == 0 {
            Err(VreError::StackUnderflow)
        } else {
            Ok(self.values[n - 1])
        }
    }

    /// The value `depth` places below the top, if the stack is that deep.
    pub fn peek_at(&self, depth: usize) -> (res: Option<Value>)
        ensures
            depth < self@.len() ==> res == Some(self@[self@.len() - 1 - depth]),
            depth >= self@.len() ==> res.is_none(),
    {
        let n = self.values.len();
        if depth >= n {
            None
        } else {
            Some(self.values[n - 1 - depth])
        }
    }

    /// Pushes a copy of the top value. An empty stack underflows, a full one
    /// overflows.
    pub fn dup(&mut self) -> (res: VreResult<()>)
        requires
            old(self).wf(),
        ensures
            final(self).wf(),
            final(self).limit() == old(self).limit(),
            old(self)@.len() == 0 ==> res == Err::<(), VreError>(VreError::StackUnderflow)
                && final(self)@ == old(self)@,
            0 < old(self)@.len() < old(self).limit() ==> res == Ok::<(), VreError>(())
                && final(self)@ == old(self)@.push(old(self)@.last()),
            0 < old(self)@.len() && old(self)@.len() >= old(self).limit() ==> res == Err::<
                (),
                VreError,
            >(VreError::StackOverflow) && final(self)@ == old(self)@,
    {
        match self.peek() {
            Ok(v) => self.push(v),
            Err(e) => Err(VreError::StackUnderflow),
        }
    }

    /// Takes the `count` topmost values off and returns them, bottom first.
    pub fn take_top(&mut self, count: usize) -> (top: Vec<Value>)
        requires
            old(self).wf(),
            count <= old(self)@.len(),
        ensures
            final(self).wf(),
            final(self).limit() == old(self).limit(),
            final(self)@ == old(self)@.subrange(0, old(self)@.len() - count),
            top@ == old(self)@.subrange(old(self)@.len() - count, old(self)@.len() as int),
    {
        let at = self.values.len() - count;
        self.values.split_off(at)
    }

    /// Puts all of `values` on top, the last of them topmost, or reports an
    /// overflow and leaves the stack as it was if they do not all fit.
    pub fn push_all(&mut self, values: Vec<Value>) -> (res: VreResult<()>)
        requires
            old(self).wf(),
        ensures
            final(self).wf(),
            final(self).limit() == old(self).limit(),
            old(self)@.len() + values@.len() <= old(self).limit() ==> res == Ok::<(), VreError>(())
                && final(self)@ == old(self)@ + values@,
            old(self)@.len() + values@.len() > old(self).limit() ==> res == Err::<(), VreError>(
                VreError::StackOverflow,
            ) && final(self)@ == old(self)@,
    {
        if values.len() > self.max_size - self.values.len() {
            return Err(VreError::StackOverflow);
        }
        let mut values = values;
        self.values.append(&mut values);
        Ok(())
    }

    /// The current depth.
    pub fn size(&self) -> (n: usize)
        ensures
            n == self@.len(),
    {
        self.values.len()
    }

    /// Whether the stack holds nothing.
    pub fn is_empty(&self) -> (b: bool)
        ensures
            b == (self@.len() == 0),
    {
        self.values.len() == 0
    }

    /// Removes every value.
    pub fn clear(&mut self)
        ensures
            final(self)@ == Seq::<Value>::empty(),
            final(self).limit() == old(self).limit(),
            final(self).wf(),
    {
        self.values.clear();
    }
}

} // verus!
