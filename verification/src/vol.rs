//! The handoff of an external call to the host.
//!
//! No policy lives here: the machine has checked the capability before it
//! recorded the request. The handoff takes the recorded events, finds the
//! first request, lets the host's handler answer it, pushes the answer and
//! lets the machine run again.

use vstd::prelude::*;
use crate::error::{VreError, VreResult};
use crate::vm::state::{spec_drained, ChangeView, VmState};
use crate::vm::value::Value;
use crate::vm::vm::{spec_changes, StateChange, VirtualMachine};

verus! {

/// The first request for an external call among `changes`: its capability
/// and its arguments.
pub open spec fn spec_first_request(changes: Seq<ChangeView>) -> Option<(u8, Seq<Value>)>
    decreases changes.len(),
{
    if changes.len() == 0 {
        None
    } else {
        match changes[0] {
            ChangeView::ExternalCallRequest { cap_id, args } => Some((cap_id, args)),
            ChangeView::LocalStore { .. } => spec_first_request(
                changes.subrange(1, changes.len() as int),
            ),
        }
    }
}

/// The machine and the result after the host has answered a request with
/// `outcome`: an answer that fits is pushed, the last value topmost, and the
/// machine runs again; an error of the host, or an answer that does not fit
/// on the stack, leaves the machine as it is.
pub open spec fn spec_complete(s: VmState, max_stack_size: usize, outcome: Result<Seq<Value>, VreError>) -> (
    VmState,
    Result<(), VreError>,
) {
    match outcome {
        Err(e) => (s, Err(e)),
        Ok(values) => if s.stack.len() + values.len() <= max_stack_size {
            (VmState { stack: s.stack + values, halted: false, ..s }, Ok(()))
        } else {
            (s, Err(VreError::StackOverflow))
        },
    }
}

/// What the host answered, as a mathematical value.
pub open spec fn spec_outcome(outcome: VreResult<Vec<Value>>) -> Result<Seq<Value>, VreError> {
    match outcome {
        Ok(values) => Ok(values@),
        Err(e) => Err(e),
    }
}

/// Finds the first request for an external call among the events. Writes to
/// locals before it are passed over.
pub fn first_external_request(changes: Vec<StateChange>) -> (res: Option<(u8, Vec<Value>)>)
    ensures
        match res {
            Some((cap_id, args)) => spec_first_request(spec_changes(changes@)) == Some(
                (cap_id, args@),
            ),
            None => spec_first_request(spec_changes(changes@)) is None,
        },
{
    let mut pending = changes;
    let ghost all = spec_changes(changes@);
    let n = pending.len();
    let mut k: usize = 0;
    assert(all.subrange(0, n as int) =~= all);
    while k < n
        invariant
            k <= n,
            n == changes@.len(),
            pending@ == changes@,
            all == spec_changes(changes@),
            spec_first_request(all) == spec_first_request(all.subrange(k as int, n as int)),
        decreases n - k,
    {
        let ghost rest = all.subrange(k as int, n as int);
        assert(rest[0] == changes@[k as int]@);
        assert(rest.subrange(1, rest.len() as int) =~= all.subrange(k + 1, n as int));
        let found = match &pending[k] {
            StateChange::ExternalCallRequest { .. } => true,
            StateChange::LocalStore { .. } => false,
        };
        if found {
            let change = pending.remove(k);
            assert(change == changes@[k as int]);
            return match change {
                StateChange::ExternalCallRequest { cap_id, args } => Some((cap_id, args)),
                StateChange::LocalStore { .. } => None,
            };
        }
        k += 1;
    }
    assert(all.subrange(n as int, n as int).len() == 0);
    None
}

/// Finishes an external call with what the host answered.
pub fn complete_external_call(vm: &mut VirtualMachine, outcome: VreResult<Vec<Value>>) -> (res:
    VreResult<()>)
    requires
        old(vm).wf(),
    ensures
        final(vm).wf(),
        final(vm).program() == old(vm).program(),
        final(vm).globals() == old(vm).globals(),
        (final(vm)@, res) == spec_complete(
            old(vm)@,
            old(vm).program().max_stack_size,
            spec_outcome(outcome),
        ),
{
    match outcome {
        Err(e) => Err(e),
        Ok(values) => {
            match vm.apply_external_results(values) {
                Err(e) => Err(e),
                Ok(_) => {
                    vm.resume();
                    Ok(())
                },
            }
        },
    }
}

/// Takes the recorded events from the machine and hands the first request
/// for an external call to `handler`. What the handler returns is pushed and
/// the machine runs again. Without a request among the events this is a
/// misuse and reported as `RuntimeFault`. In every case the events are gone
/// from the machine afterwards.
pub fn consume_external_call<H: Fn(u8, &[Value]) -> VreResult<Vec<Value>>>(
    vm: &mut VirtualMachine,
    handler: H,
) -> (res: VreResult<()>)
    requires
        old(vm).wf(),
        forall|cap_id: u8, args: &[Value]| handler.requires((cap_id, args)),
    ensures
        final(vm).wf(),
        final(vm).program() == old(vm).program(),
        final(vm).globals() == old(vm).globals(),
        spec_first_request(old(vm)@.changes) is None ==> res == Err::<(), VreError>(
            VreError::RuntimeFault,
        ) && final(vm)@ == spec_drained(old(vm)@),
        spec_first_request(old(vm)@.changes) is Some ==> exists|
            passed: &[Value],
            outcome: VreResult<Vec<Value>>,
        |
            passed@ == spec_first_request(old(vm)@.changes).unwrap().1
                && #[trigger] handler.ensures(
                (spec_first_request(old(vm)@.changes).unwrap().0, passed),
                outcome,
            ) && (final(vm)@, res) == spec_complete(
                spec_drained(old(vm)@),
                old(vm).program().max_stack_size,
                spec_outcome(outcome),
            ),
{
    let changes = vm.drain_state_changes();
    match first_external_request(changes) {
        None => Err(VreError::RuntimeFault),
        Some((cap_id, args)) => {
            let ghost drained = vm@;
            let passed = args.as_slice();
            let outcome = handler(cap_id, passed);
            let ghost answered = outcome;
            let r = complete_external_call(vm, outcome);
            proof {
                assert(drained == spec_drained(old(vm)@));
                assert(passed@ == args@);
                assert(handler.ensures((cap_id, passed), answered));
                assert((vm@, r) == spec_complete(
                    spec_drained(old(vm)@),
                    old(vm).program().max_stack_size,
                    spec_outcome(answered),
                ));
                assert(spec_first_request(old(vm)@.changes) == Some((cap_id, args@)));
                assert(handler.ensures(
                    (spec_first_request(old(vm)@.changes).unwrap().0, passed),
                    answered,
                ));
            }
            r
        },
    }
}

} // verus!
