//! The handlers of the two VM exits that EPT causes.

use crate::ept::EptEntryDump;
use crate::error::HypervisorError;
use crate::vm::{SharedData, Vm, VmState, VmxOp};
use crate::vmcs::{eptp_full, EPTP_FULL};
use crate::vmerror::{EptAccess, EptViolationExitQualification};
use vstd::prelude::*;

verus! {

/// The two views of guest-physical memory.
#[derive(Debug, Clone, Copy, PartialEq, Eq, Structural)]
pub enum EptpState {
    /// Hooked pages show their original content and can be read and written.
    Primary,
    /// Hooked pages show their patched content and can be executed.
    Secondary,
}

/// What the caller is to do once a handler returns.
#[derive(Debug, Clone, Copy, PartialEq, Eq, Structural)]
pub enum ExitType {
    /// Resume the guest at the instruction that caused the exit.
    Continue,
    /// Stop: the guest must not run again.
    ExitHypervisor,
}

impl EptpState {
    /// The view that resolves a violation caused by `access`.
    ///
    /// A data access hit a page that the active view maps execute-only: the
    /// primary view shows it readable and writable. An instruction fetch hit a
    /// page that the active view maps without execute access: the secondary view
    /// shows it executable.
    pub open spec fn spec_for_access(access: EptAccess) -> EptpState {
        match access {
            EptAccess::Data => EptpState::Primary,
            EptAccess::InstructionFetch => EptpState::Secondary,
        }
    }

    /// The view that resolves a violation caused by `access`.
    #[verifier::when_used_as_spec(spec_for_access)]
    pub fn for_access(access: EptAccess) -> (state: EptpState)
        ensures
            state == Self::spec_for_access(access),
    {
        match access {
            EptAccess::Data => EptpState::Primary,
            EptAccess::InstructionFetch => EptpState::Secondary,
        }
    }
}

/// The view that resolves the violation whose raw exit qualification is
/// `exit_qualification`.
pub open spec fn target_view(exit_qualification: u64) -> EptpState {
    EptpState::for_access(EptViolationExitQualification::decode(exit_qualification).access())
}

/// The two operations of a switch, in the order in which they are to be
/// performed: the write of `eptp` to the EPT pointer of the VMCS, then the
/// invalidation of all cached translations.
pub open spec fn switch_ops(eptp: u64) -> Seq<VmxOp> {
    seq![VmxOp::Vmwrite { field: EPTP_FULL, value: eptp }, VmxOp::InveptAllContexts]
}

impl VmState {
    /// The machine after a switch to `state`.
    pub open spec fn switched(self, state: EptpState) -> VmState {
        VmState {
            active_view: state,
            pending: self.pending + switch_ops(self.shared_data.eptp(state)),
            ..self
        }
    }

    /// The machine after an EPT violation with the given raw exit qualification.
    pub open spec fn after_violation(self, exit_qualification: u64) -> VmState {
        if self.halted {
            self
        } else {
            self.switched(target_view(exit_qualification))
        }
    }

    /// What the violation handler answers in this state.
    pub open spec fn violation_exit(self) -> ExitType {
        if self.halted {
            ExitType::ExitHypervisor
        } else {
            ExitType::Continue
        }
    }

    /// The machine after an EPT misconfiguration.
    pub open spec fn after_misconfiguration(self) -> VmState {
        VmState { halted: true, ..self }
    }
}

/// Switches `vm` to the view `state`.
///
/// Queues the write of that view's EPT pointer and, behind it, the invalidation
/// of every cached translation. Both are queued on every call, also when
/// `state` is the active view already.
pub fn switch_eptp(vm: &mut Vm, state: EptpState)
    ensures
        final(vm)@ == old(vm)@.switched(state),
{
    let eptp_address = vm.shared_data.eptp(state);
    vm.pending.push(VmxOp::Vmwrite { field: eptp_full(), value: eptp_address });
    vm.pending.push(VmxOp::InveptAllContexts);
    vm.active_view = state;
    assert(vm.pending@ =~= old(vm)@.pending + switch_ops(eptp_address));
}

/// Handles an EPT violation whose raw exit qualification is
/// `exit_qualification`.
///
/// On a running machine the access is classified by its fetch flag and the
/// machine is switched to the view that allows it; the answer is `Continue`, so
/// that the guest repeats the instruction under the new view. A machine that an
/// EPT misconfiguration has stopped is left as it is, and the answer is
/// `ExitHypervisor`.
pub fn handle_ept_violation(vm: &mut Vm, exit_qualification: u64) -> (exit: ExitType)
    ensures
        final(vm)@ == old(vm)@.after_violation(exit_qualification),
        exit == old(vm)@.violation_exit(),
{
    if vm.halted {
        return ExitType::ExitHypervisor;
    }
    let qualification = EptViolationExitQualification::from_exit_qualification(exit_qualification);
    switch_eptp(vm, EptpState::for_access(qualification.access()));
    ExitType::Continue
}

/// The entries that one guest-physical address selects in both hierarchies,
/// each walk reading the page table that the current hook split off for that
/// hierarchy.
#[derive(Debug, PartialEq, Eq)]
pub struct EptDump {
    /// The address that was walked.
    pub guest_physical_address: u64,
    /// The index of the current hook: the one installed last.
    pub hook_index: usize,
    /// The entries selected in the primary hierarchy, from the root down.
    pub primary: Vec<EptEntryDump>,
    /// The entries selected in the secondary hierarchy, from the root down.
    pub secondary: Vec<EptEntryDump>,
}

/// Whether `dump` is what the diagnostic walk of `guest_physical_address` over
/// `shared_data` yields.
///
/// With no hook installed the walk fails with `FailedToGetCurrentHookIndex`.
/// Otherwise it gives the index of the hook installed last and the walk of each
/// hierarchy through that hook's page table for it.
pub open spec fn is_dump_of(
    dump: Result<EptDump, HypervisorError>,
    shared_data: SharedData,
    guest_physical_address: u64,
) -> bool {
    if shared_data.hooks@.len() == 0 {
        dump == Err::<EptDump, HypervisorError>(HypervisorError::FailedToGetCurrentHookIndex)
    } else {
        &&& dump is Ok
        &&& dump->Ok_0.guest_physical_address == guest_physical_address
        &&& dump->Ok_0.hook_index == shared_data.hooks@.len() - 1
        &&& dump->Ok_0.primary@ == shared_data.primary_ept.walk(
            guest_physical_address,
            Some(&shared_data.hooks@.last().primary_ept_pre_alloc_pt),
        )
        &&& dump->Ok_0.secondary@ == shared_data.secondary_ept.walk(
            guest_physical_address,
            Some(&shared_data.hooks@.last().secondary_ept_pre_alloc_pt),
        )
    }
}

/// Walks `guest_physical_address` through the primary and the secondary
/// hierarchy, for the hook installed last.
///
/// Nothing is changed and nothing is queued. With no hook installed the result
/// is `FailedToGetCurrentHookIndex`.
pub fn dump_primary_and_secondary_ept(vm: &Vm, guest_physical_address: u64) -> (dump: Result<
    EptDump,
    HypervisorError,
>)
    ensures
        is_dump_of(dump, vm@.shared_data, guest_physical_address),
{
    let shared_data = vm.shared_data;
    let hook_index = match shared_data.hooks.current_hook_index() {
        Ok(index) => index,
        Err(error) => {
            return Err(error);
        },
    };
    let hook = match shared_data.hooks.get(hook_index) {
        Some(hook) => hook,
        None => {
            return Err(HypervisorError::FailedToGetCurrentHookIndex);
        },
    };
    let primary = shared_data.primary_ept.dump_ept_entries(
        guest_physical_address,
        Some(&hook.primary_ept_pre_alloc_pt),
    );
    let secondary = shared_data.secondary_ept.dump_ept_entries(
        guest_physical_address,
        Some(&hook.secondary_ept_pre_alloc_pt),
    );
    Ok(EptDump { guest_physical_address, hook_index, primary, secondary })
}

/// Handles an EPT misconfiguration at `guest_physical_address`.
///
/// A misconfigured hierarchy cannot be trusted to translate anything, so the
/// machine is stopped for good: the answer is always `ExitHypervisor`, and from
/// now on the violation handler answers the same. The second component is the
/// diagnostic walk of the address, for the caller to report.
pub fn handle_ept_misconfiguration(vm: &mut Vm, guest_physical_address: u64) -> (outcome: (
    ExitType,
    Result<EptDump, HypervisorError>,
))
    ensures
        final(vm)@ == old(vm)@.after_misconfiguration(),
        outcome.0 == ExitType::ExitHypervisor,
        is_dump_of(outcome.1, old(vm)@.shared_data, guest_physical_address),
{
    let dump = dump_primary_and_secondary_ept(vm, guest_physical_address);
    vm.halted = true;
    (ExitType::ExitHypervisor, dump)
}

/// One of the two VM exits that the handlers of this module answer.
pub enum EptExit {
    /// An EPT violation with the given raw exit qualification.
    Violation(u64),
    /// An EPT misconfiguration.
    Misconfiguration,
}

impl VmState {
    /// The machine after the handler of `exit` has run.
    pub open spec fn after(self, exit: EptExit) -> VmState {
        match exit {
            EptExit::Violation(exit_qualification) => self.after_violation(exit_qualification),
            EptExit::Misconfiguration => self.after_misconfiguration(),
        }
    }

    /// What the handler of `exit` answers in this state.
    pub open spec fn answer(self, exit: EptExit) -> ExitType {
        match exit {
            EptExit::Violation(_) => self.violation_exit(),
            EptExit::Misconfiguration => ExitType::ExitHypervisor,
        }
    }

    /// The machine after the handlers of `exits` have run, one after the other.
    pub open spec fn after_all(self, exits: Seq<EptExit>) -> VmState
        decreases exits.len(),
    {
        if exits.len() == 0 {
            self
        } else {
            self.after_all(exits.drop_last()).after(exits.last())
        }
    }

    /// The machine after `times` switches to `state` in a row.
    pub open spec fn switched_times(self, state: EptpState, times: nat) -> VmState
        decreases times,
    {
        if times == 0 {
            self
        } else {
            self.switched_times(state, (times - 1) as nat).switched(state)
        }
    }
}

/// `ops`, `times` times in a row.
pub open spec fn repeated(ops: Seq<VmxOp>, times: nat) -> Seq<VmxOp>
    decreases times,
{
    if times == 0 {
        Seq::empty()
    } else {
        repeated(ops, (times - 1) as nat) + ops
    }
}

/// Classification is total. Every exit qualification resolves to exactly one of
/// the two views: to the secondary view where its fetch flag is set, to the
/// primary view where it is clear.
pub proof fn lemma_classification_is_total(qualification: EptViolationExitQualification)
    ensures
        (EptpState::for_access(qualification.access()) == EptpState::Primary) != (
        EptpState::for_access(qualification.access()) == EptpState::Secondary),
        EptpState::for_access(qualification.access()) == EptpState::Primary
            <==> !qualification.instruction_fetch,
        EptpState::for_access(qualification.access()) == EptpState::Secondary
            <==> qualification.instruction_fetch,
{
}

/// The target view depends on the fetch flag alone. Two exit qualifications with
/// the same fetch flag resolve to the same view, and on any two running machines
/// that view is the active one afterwards, whichever view was active before.
pub proof fn lemma_target_view_is_deterministic(a: VmState, b: VmState, first: u64, second: u64)
    requires
        EptViolationExitQualification::decode(first).instruction_fetch
            == EptViolationExitQualification::decode(second).instruction_fetch,
    ensures
        target_view(first) == target_view(second),
        !a.halted ==> a.after_violation(first).active_view == target_view(first),
        !a.halted && !b.halted ==> a.after_violation(first).active_view == b.after_violation(
            second,
        ).active_view,
{
}

/// A switch never skips its side effects, and repeating it changes nothing but
/// the queue. After any number of switches to one view in a row, that view is
/// active, and each of the switches has queued the write of the view's EPT
/// pointer and the invalidation behind it, also where the view was active
/// before the first of them.
pub proof fn lemma_switch_is_repeatable(vm: VmState, state: EptpState, times: nat)
    ensures
        vm.switched_times(state, times).shared_data == vm.shared_data,
        vm.switched_times(state, times).halted == vm.halted,
        vm.switched_times(state, times).pending == vm.pending + repeated(
            switch_ops(vm.shared_data.eptp(state)),
            times,
        ),
        times > 0 ==> vm.switched_times(state, times).active_view == state,
        times > 0 ==> vm.switched_times(state, times).eptp() == vm.shared_data.eptp(state),
    decreases times,
{
    let ops = switch_ops(vm.shared_data.eptp(state));
    if times == 0 {
        assert(vm.pending + repeated(ops, 0) =~= vm.pending);
    } else {
        lemma_switch_is_repeatable(vm, state, (times - 1) as nat);
        assert(vm.pending + repeated(ops, (times - 1) as nat) + ops =~= vm.pending + repeated(
            ops,
            times,
        ));
    }
}

/// A misconfiguration is final. Whatever exits are handled after an EPT
/// misconfiguration, the machine stays stopped, none of them changes the
/// active view or queues an operation, and every one of them is answered with
/// `ExitHypervisor`: the guest is never resumed again.
pub proof fn lemma_misconfiguration_is_final(vm: VmState, exits: Seq<EptExit>, next: EptExit)
    ensures
        vm.after_misconfiguration().after_all(exits) == vm.after_misconfiguration(),
        vm.after_misconfiguration().after_all(exits).answer(next) == ExitType::ExitHypervisor,
    decreases exits.len(),
{
    if exits.len() > 0 {
        lemma_misconfiguration_is_final(vm, exits.drop_last(), exits.last());
    }
}

} // verus!
