use crate::fault::Fault;
use crate::machine::{MachineState, Status, STACK_CAPACITY};
use crate::opcode::Instruction;
use vstd::prelude::*;

verus! {

impl MachineState {
    /// The next cycle executes a call.
    pub open spec fn at_call(self) -> bool {
        self.next_instruction() matches Some(Instruction::Call { .. })
    }

    /// The next cycle executes a return.
    pub open spec fn at_return(self) -> bool {
        self.next_instruction() == Some(Instruction::Return)
    }

    /// How many of the first `n` cycles execute a call.
    pub open spec fn calls_within(self, n: nat) -> nat
        decreases n,
    {
        if n == 0 {
            0
        } else {
            let earlier = self.calls_within((n - 1) as nat);
            match self.after((n - 1) as nat) {
                Some(state) => if state.at_call() {
                    earlier + 1
                } else {
                    earlier
                },
                None => earlier,
            }
        }
    }

    /// How many of the first `n` cycles execute a return.
    pub open spec fn returns_within(self, n: nat) -> nat
        decreases n,
    {
        if n == 0 {
            0
        } else {
            let earlier = self.returns_within((n - 1) as nat);
            match self.after((n - 1) as nat) {
                Some(state) => if state.at_return() {
                    earlier + 1
                } else {
                    earlier
                },
                None => earlier,
            }
        }
    }
}

/// A return directly after a call undoes it: the instruction pointer and the
/// call stack are what they were before the call.
pub proof fn return_undoes_call(state: MachineState, addr: u16)
    requires
        state.valid(),
        state.stack.len() < STACK_CAPACITY,
    ensures
        state.call(addr).1 is Ok,
        state.call(addr).0.ret().1 is Ok,
        state.call(addr).0.ret().0 == state,
{
    assert(state.call(addr).0.ret().0.stack =~= state.stack);
}

/// Where `n` cycles can run, so can every smaller number of them, and each
/// of the states passed through is valid.
pub proof fn earlier_cycles_ran(state: MachineState, i: nat, n: nat)
    requires
        state.valid(),
        state.after(n) is Some,
        i <= n,
    ensures
        state.after(i) is Some,
        state.after(i).unwrap().valid(),
        i < n ==> state.after(i).unwrap().step().1 == Ok::<Status, Fault>(Status::Running),
        i < n ==> state.after(i + 1) == Some(state.after(i).unwrap().step().0),
    decreases n,
{
    if n > 0 {
        earlier_cycles_ran(state, if i < n { i } else { (n - 1) as nat }, (n - 1) as nat);
        if i == n {
            state.after((n - 1) as nat).unwrap().step_preserves_valid();
        } else if i + 1 < n {
            earlier_cycles_ran(state, i + 1, (n - 1) as nat);
        }
    }
}

/// Running from a state gives what running from any state that it reaches
/// gives.
pub proof fn run_passes_through(state: MachineState, n: nat)
    requires
        state.valid(),
        state.after(n) is Some,
    ensures
        state.run() == state.after(n).unwrap().run(),
    decreases n,
{
    if n > 0 {
        earlier_cycles_ran(state, (n - 1) as nat, n);
        run_passes_through(state, (n - 1) as nat);
    }
}

/// The cycles that follow the first are the cycles of the state that the
/// first produces.
pub proof fn cycles_after_the_first(state: MachineState, n: nat)
    requires
        state.step().1 == Ok::<Status, Fault>(Status::Running),
    ensures
        state.after(n + 1) == state.step().0.after(n),
    decreases n,
{
    if n > 0 {
        cycles_after_the_first(state, (n - 1) as nat);
    } else {
        assert(state.after(1) == Some(state.step().0)) by {
            assert(state.after(0) == Some(state));
        }
    }
}

/// Every run ends: some number of cycles leaves the machine running, the
/// cycle after them halts or faults, and the run returns the state and the
/// outcome of that cycle.
pub proof fn run_ends(state: MachineState) -> (n: nat)
    requires
        state.valid(),
    ensures
        state.after(n) is Some,
        state.after(n).unwrap().step().1 != Ok::<Status, Fault>(Status::Running),
        state.run().0 == state.after(n).unwrap().step().0,
        state.run().1 == (match state.after(n).unwrap().step().1 {
            Ok(_) => Ok::<(), Fault>(()),
            Err(fault) => Err::<(), Fault>(fault),
        }),
    decreases state.rank(),
{
    if state.step().1 == Ok::<Status, Fault>(Status::Running) {
        state.step_decreases_rank();
        state.step_preserves_valid();
        let rest = run_ends(state.step().0);
        cycles_after_the_first(state, rest);
        rest + 1
    } else {
        0
    }
}

/// A halt instruction at the instruction pointer ends the run at once: the
/// outcome is `Ok`, and nothing has changed but the instruction pointer,
/// which stands behind the halt instruction.
pub proof fn halt_ends_the_run(state: MachineState)
    requires
        state.valid(),
        state.fetch() == Ok::<u16, Fault>(0),
    ensures
        state.run().1 == Ok::<(), Fault>(()),
        state.run().0 == state.advance(),
        state.run().0.registers == state.registers,
        state.run().0.memory == state.memory,
        state.run().0.stack == state.stack,
{
}

/// After any number of cycles the depth of the call stack is its depth at
/// the start, plus the number of calls executed, minus the number of returns
/// executed.
pub proof fn depth_counts_calls_and_returns(state: MachineState, n: nat)
    requires
        state.valid(),
        state.after(n) is Some,
    ensures
        state.after(n).unwrap().stack.len() == state.stack.len() + state.calls_within(n)
            - state.returns_within(n),
    decreases n,
{
    if n > 0 {
        earlier_cycles_ran(state, (n - 1) as nat, n);
        depth_counts_calls_and_returns(state, (n - 1) as nat);
    }
}

/// While the call stack stays deeper than it was when a call was executed,
/// the frame of that call stays on it: the stack as it was, and on top of it
/// the address behind the call instruction.
pub proof fn frame_stays(state: MachineState, n: nat)
    requires
        state.valid(),
        state.at_call(),
        n >= 1,
        state.after(n) is Some,
        forall|i: nat| 0 < i <= n ==> (#[trigger] state.after(i)).unwrap().stack.len()
            > state.stack.len(),
    ensures
        state.after(n).unwrap().stack.take(state.stack.len() as int + 1) == state.stack.push(
            (state.position + 2) as u16,
        ),
    decreases n,
{
    let depth = state.stack.len() as int;
    let frame = state.stack.push((state.position + 2) as u16);
    earlier_cycles_ran(state, (n - 1) as nat, n);
    let before = state.after((n - 1) as nat).unwrap();
    let now = state.after(n).unwrap();
    assert(now == before.step().0);
    if n == 1 {
        assert(state.after(0) == Some(state));
        assert(now.stack.take(depth + 1) =~= frame);
    } else {
        frame_stays(state, (n - 1) as nat);
        assert(before.stack.len() > depth);
        assert(now.stack.len() > depth);
        assert(now.stack.take(depth + 1) =~= before.stack.take(depth + 1));
    }
}

/// Call and return round trip: when a call is executed and the call stack
/// later comes back to the depth it had before the call for the first time,
/// the instruction pointer stands directly behind the call instruction, and
/// the call stack is what it was before the call.
pub proof fn call_returns_behind_itself(state: MachineState, n: nat)
    requires
        state.valid(),
        state.at_call(),
        n >= 1,
        state.after(n) is Some,
        forall|i: nat| 0 < i < n ==> (#[trigger] state.after(i)).unwrap().stack.len()
            > state.stack.len(),
        state.after(n).unwrap().stack.len() == state.stack.len(),
    ensures
        state.after(n).unwrap().position == state.position + 2,
        state.after(n).unwrap().stack == state.stack,
        state.after(n).unwrap().registers.len() == state.registers.len(),
        state.after(n).unwrap().memory == state.memory,
{
    let depth = state.stack.len() as int;
    earlier_cycles_ran(state, (n - 1) as nat, n);
    let before = state.after((n - 1) as nat).unwrap();
    let now = state.after(n).unwrap();
    assert(now == before.step().0);
    if n == 1 {
        assert(state.after(0) == Some(state));
    } else {
        frame_stays(state, (n - 1) as nat);
        assert(before.stack.len() > depth);
        assert(before.stack.take(depth + 1)[depth] == before.stack[depth]);
        assert(now.stack =~= state.stack);
    }
    memory_stays(state, n);
}

/// No instruction writes to memory or changes the number of registers.
pub proof fn memory_stays(state: MachineState, n: nat)
    requires
        state.valid(),
        state.after(n) is Some,
    ensures
        state.after(n).unwrap().memory == state.memory,
        state.after(n).unwrap().registers.len() == state.registers.len(),
    decreases n,
{
    if n > 0 {
        earlier_cycles_ran(state, (n - 1) as nat, n);
        memory_stays(state, (n - 1) as nat);
    }
}

/// Nested calls: after `k` calls in a row the call stack is `k` deeper; and
/// after `k` returns in a row that follow them it is what it was at first,
/// with the instruction pointer directly behind the first of the calls.
pub proof fn nested_calls_unwind(state: MachineState, k: nat)
    requires
        state.valid(),
        k >= 1,
        state.after(2 * k) is Some,
        forall|i: nat| i < k ==> (#[trigger] state.after(i)).unwrap().at_call(),
        forall|i: nat| k <= i < 2 * k ==> (#[trigger] state.after(i)).unwrap().at_return(),
    ensures
        state.after(k) is Some,
        state.after(k).unwrap().stack.len() == state.stack.len() + k,
        state.after(2 * k).unwrap().stack == state.stack,
        state.after(2 * k).unwrap().position == state.position + 2,
{
    assert(state.after(0) == Some(state));
    assert(state.after(0).unwrap().at_call());
    assert forall|i: nat| i <= 2 * k implies (#[trigger] state.after(i)).unwrap().stack.len()
        == state.stack.len() + (if i <= k {
        i as int
    } else {
        2 * k - i
    }) by {
        depth_in_nest(state, k, i);
    }
    earlier_cycles_ran(state, k, 2 * k);
    call_returns_behind_itself(state, 2 * k);
}

/// The depth of the call stack during `k` calls and `k` returns.
proof fn depth_in_nest(state: MachineState, k: nat, i: nat)
    requires
        state.valid(),
        state.after(2 * k) is Some,
        forall|j: nat| j < k ==> (#[trigger] state.after(j)).unwrap().at_call(),
        forall|j: nat| k <= j < 2 * k ==> (#[trigger] state.after(j)).unwrap().at_return(),
        i <= 2 * k,
    ensures
        state.after(i).unwrap().stack.len() == state.stack.len() + (if i <= k {
            i as int
        } else {
            2 * k - i
        }),
    decreases i,
{
    if i > 0 {
        depth_in_nest(state, k, (i - 1) as nat);
        earlier_cycles_ran(state, (i - 1) as nat, 2 * k);
        let before = state.after((i - 1) as nat).unwrap();
        assert(before.at_call() || before.at_return());
    }
}

/// A call on a full call stack faults with `StackOverflow`, and a return on
/// an empty one with `StackUnderflow`.
pub proof fn stack_limits_fault(state: MachineState)
    requires
        state.valid(),
    ensures
        state.at_call() && state.stack.len() == STACK_CAPACITY ==> state.step().1 == Err::<
            Status,
            Fault,
        >(Fault::StackOverflow),
        state.at_return() && state.stack.len() == 0 ==> state.step().1 == Err::<Status, Fault>(
            Fault::StackUnderflow,
        ),
{
}

/// One call more than the call stack can hold: when a run starts with an
/// empty call stack and executes `STACK_CAPACITY` calls in a row, and the
/// next instruction is a call again, the run ends in `StackOverflow`.
pub proof fn call_beyond_capacity_overflows(state: MachineState)
    requires
        state.valid(),
        state.stack.len() == 0,
        state.after(STACK_CAPACITY as nat) is Some,
        forall|i: nat| i <= STACK_CAPACITY ==> (#[trigger] state.after(i)).unwrap().at_call(),
    ensures
        state.after(STACK_CAPACITY as nat).unwrap().step().1 == Err::<Status, Fault>(
            Fault::StackOverflow,
        ),
        state.run().1 == Err::<(), Fault>(Fault::StackOverflow),
{
    let n = STACK_CAPACITY as nat;
    let full = state.after(n).unwrap();
    calls_in_a_row(state, n, n);
    depth_counts_calls_and_returns(state, n);
    earlier_cycles_ran(state, n, n);
    stack_limits_fault(full);
    run_passes_through(state, n);
}

/// Cycles that all execute calls: the counts.
proof fn calls_in_a_row(state: MachineState, n: nat, i: nat)
    requires
        state.valid(),
        state.after(n) is Some,
        forall|j: nat| j < n ==> (#[trigger] state.after(j)).unwrap().at_call(),
        i <= n,
    ensures
        state.calls_within(i) == i,
        state.returns_within(i) == 0,
    decreases i,
{
    if i > 0 {
        calls_in_a_row(state, n, (i - 1) as nat);
        earlier_cycles_ran(state, (i - 1) as nat, n);
        assert(state.after((i - 1) as nat).unwrap().at_call());
    }
}

} // verus!
