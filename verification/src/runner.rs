//! Driving loops around the engine: load a program and step until the
//! machine halts, or feed it one instruction at a time.

use vstd::prelude::*;

use crate::memory::{loaded, word_written};
use crate::signals::apply_signals;
use crate::vm::{
    Machine, MachineView, SignalHandler, VmError, init_view, spec_iterate, spec_step,
};

verus! {

/// The model of a machine freshly set up to run `bytes`: the initial
/// machine with the standard handlers registered and the program loaded at
/// address 0.
pub open spec fn run_start(bytes: Seq<u8>) -> MachineView {
    MachineView {
        handlers: Map::empty().insert(0xF0u8, SignalHandler::Halt).insert(
            0xF1u8,
            SignalHandler::LogRegisterA,
        ).insert(0xF2u8, SignalHandler::LogRegisters).insert(0xF3u8, SignalHandler::DumpMemory),
        mem: loaded(init_view().mem, bytes, 0),
        ..init_view()
    }
}

/// Load `bytes` into a fresh machine with the standard handlers and step
/// it until it halts or a step fails. On success the returned machine is
/// what some number of error-free steps of the transition function made of
/// the starting state, and it is halted — unless the guest ran for 2^64
/// steps without halting, at which point the loop is cut off.
pub fn run(bytes: &[u8]) -> (r: Result<Machine, VmError>)
    ensures
        match r {
            Ok(m) => m.wf() && exists|n: nat|
                (#[trigger] spec_iterate(run_start(bytes@), n)).0 == m@ && spec_iterate(
                    run_start(bytes@),
                    n,
                ).1 is None && (m@.halted || n >= 0xFFFF_FFFF_FFFF_FFFFnat),
            Err(e) => e == VmError::OutOfBounds(0) && bytes@.len() > init_view().mem.len()
                || exists|n: nat| (#[trigger] spec_iterate(run_start(bytes@), n)).1 == Some(e),
        },
{
    let mut vm = Machine::new();
    apply_signals(&mut vm);
    match vm.load_program(bytes) {
        Ok(()) => (),
        Err(e) => {
            return Err(e);
        },
    }
    proof {
        assert(vm@ =~= run_start(bytes@));
    }
    let ghost start = vm@;
    let mut steps: u64 = 0;
    proof {
        assert(spec_iterate(start, 0).0 == start);
    }
    while steps < 0xFFFF_FFFF_FFFF_FFFF && !vm.is_halted()
        invariant
            vm.wf(),
            start == run_start(bytes@),
            spec_iterate(start, steps as nat).0 == vm@,
            spec_iterate(start, steps as nat).1 is None,
        decreases 0xFFFF_FFFF_FFFF_FFFFu64 - steps,
    {
        let ghost pre = vm@;
        match vm.step() {
            Ok(()) => (),
            Err(e) => {
                proof {
                    lemma_iterate_extend(start, steps as nat, pre);
                    assert(spec_iterate(start, steps as nat + 1).1 == Some(e));
                }
                return Err(e);
            },
        }
        proof {
            lemma_iterate_extend(start, steps as nat, pre);
        }
        steps = steps + 1;
    }
    Ok(vm)
}

/// Running `n` steps without error and then one more is running `n + 1`.
proof fn lemma_iterate_extend(start: MachineView, n: nat, pre: MachineView)
    requires
        spec_iterate(start, n).0 == pre,
        spec_iterate(start, n).1 is None,
    ensures
        spec_iterate(start, n + 1).0 == spec_step(pre).0,
        spec_iterate(start, n + 1).1 == spec_step(pre).1,
    decreases n,
{
    if n == 0 {
        reveal_with_fuel(spec_iterate, 2);
        assert(pre == start);
        assert(spec_iterate(start, 1).0 == spec_step(start).0);
        assert(spec_iterate(start, 1).1 == spec_step(start).1);
    } else {
        let (v1, e) = spec_step(start);
        lemma_iterate_extend(v1, (n - 1) as nat, pre);
        assert(spec_iterate(start, n + 1).0 == spec_iterate(v1, n).0);
        assert(spec_iterate(start, n + 1).1 == spec_iterate(v1, n).1);
    }
}

/// Feed the machine one already-encoded instruction word: write it at
/// `mem_index` and step once, as the interactive loop does.
pub fn process_input(machine: &mut Machine, mem_index: u16, dbyte: u16) -> (r: Result<(), VmError>)
    requires
        old(machine).wf(),
    ensures
        final(machine).wf(),
        ({
            if mem_index + 1 < old(machine)@.mem.len() {
                let poked = MachineView {
                    mem: word_written(old(machine)@.mem, mem_index as int, dbyte),
                    ..old(machine)@
                };
                let (v2, e) = spec_step(poked);
                final(machine)@ == v2 && r == crate::vm::outcome((), e)
            } else {
                r == Err::<(), VmError>(VmError::OutOfBounds(mem_index)) && final(machine)@ == old(
                    machine,
                )@
            }
        }),
{
    match machine.poke_word(mem_index, dbyte) {
        Ok(()) => machine.step(),
        Err(e) => Err(e),
    }
}

} // verus!
