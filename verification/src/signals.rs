//! The standard signal registrations an embedding application installs:
//! halting under id `0xF0`, and the diagnostic handlers under `0xF1` to
//! `0xF3`.

use vstd::prelude::*;

use crate::vm::{Machine, MachineView, SignalHandler};

verus! {

/// The halting handler: sets the machine's halted flag.
pub fn sig_halt(vm: &mut Machine)
    requires
        old(vm).wf(),
    ensures
        final(vm).wf(),
        final(vm)@ == (MachineView { halted: true, ..old(vm)@ }),
{
    vm.halt();
}

/// Register the standard handlers: halt under `0xF0`, the register-A log
/// under `0xF1`, the register dump under `0xF2` and the memory dump under
/// `0xF3`.
pub fn apply_signals(vm: &mut Machine)
    requires
        old(vm).wf(),
    ensures
        final(vm).wf(),
        final(vm)@ == (MachineView {
            handlers: old(vm)@.handlers.insert(0xF0, SignalHandler::Halt).insert(
                0xF1,
                SignalHandler::LogRegisterA,
            ).insert(0xF2, SignalHandler::LogRegisters).insert(0xF3, SignalHandler::DumpMemory),
            ..old(vm)@
        }),
{
    vm.define_handler(0xF0, SignalHandler::Halt);
    vm.define_handler(0xF1, SignalHandler::LogRegisterA);
    vm.define_handler(0xF2, SignalHandler::LogRegisters);
    vm.define_handler(0xF3, SignalHandler::DumpMemory);
}

} // verus!
