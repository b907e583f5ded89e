//! The state of one logical processor's virtual machine, and the data that all
//! logical processors share.

use crate::ept::Ept;
use crate::hooks::HookRegistry;
use crate::vmexit::EptpState;
use vstd::prelude::*;

verus! {

/// What all logical processors share: the two hierarchies, the EPT pointer of
/// each, and the hooks. The handlers only ever read it.
#[derive(Debug)]
pub struct SharedData {
    /// The hierarchy that maps every hooked page to its original content.
    pub primary_ept: Ept,
    /// The EPT pointer that selects the primary hierarchy.
    pub primary_eptp: u64,
    /// The hierarchy that maps every hooked page to its patched content.
    pub secondary_ept: Ept,
    /// The EPT pointer that selects the secondary hierarchy.
    pub secondary_eptp: u64,
    /// The installed hooks.
    pub hooks: HookRegistry,
}

impl SharedData {
    pub open spec fn spec_eptp(&self, state: EptpState) -> u64 {
        match state {
            EptpState::Primary => self.primary_eptp,
            EptpState::Secondary => self.secondary_eptp,
        }
    }

    /// The EPT pointer that selects the hierarchy of `state`.
    #[verifier::when_used_as_spec(spec_eptp)]
    pub fn eptp(&self, state: EptpState) -> (eptp: u64)
        ensures
            eptp == self.spec_eptp(state),
    {
        match state {
            EptpState::Primary => self.primary_eptp,
            EptpState::Secondary => self.secondary_eptp,
        }
    }
}

/// An operation on the processor that a handler wants performed before the
/// guest runs again.
#[derive(Debug, Clone, Copy, PartialEq, Eq, Structural)]
pub enum VmxOp {
    /// Write `value` to the field of the current VMCS that `field` encodes.
    Vmwrite { field: u32, value: u64 },
    /// Invalidate the translations cached from every EPT hierarchy, on behalf of
    /// every context.
    InveptAllContexts,
}

/// The model of a [`Vm`]: what the contracts of the handlers speak of.
pub struct VmState {
    /// The shared data the machine was created over.
    pub shared_data: SharedData,
    /// The view whose EPT pointer the machine's VMCS holds.
    pub active_view: EptpState,
    /// Whether an EPT misconfiguration has stopped the machine for good.
    pub halted: bool,
    /// The operations queued and not yet taken, oldest first.
    pub pending: Seq<VmxOp>,
}

impl VmState {
    /// The EPT pointer that the machine's VMCS holds once the queued operations
    /// are performed.
    pub open spec fn eptp(self) -> u64 {
        self.shared_data.eptp(self.active_view)
    }
}

/// One logical processor's virtual machine, as far as the core is concerned: the
/// active view, whether the machine was stopped, and the queue of operations
/// that the handlers leave for the caller to perform on the processor.
#[derive(Debug)]
pub struct Vm<'a> {
    pub(crate) shared_data: &'a SharedData,
    pub(crate) active_view: EptpState,
    pub(crate) halted: bool,
    pub(crate) pending: Vec<VmxOp>,
}

impl<'a> View for Vm<'a> {
    type V = VmState;

    open(crate) spec fn view(&self) -> VmState {
        VmState {
            shared_data: *self.shared_data,
            active_view: self.active_view,
            halted: self.halted,
            pending: self.pending@,
        }
    }
}

impl<'a> Vm<'a> {
    /// A running machine over `shared_data` whose VMCS already holds the EPT
    /// pointer of `active_view`. Nothing is queued.
    pub fn new(shared_data: &'a SharedData, active_view: EptpState) -> (vm: Vm<'a>)
        ensures
            vm@.shared_data == *shared_data,
            vm@.active_view == active_view,
            !vm@.halted,
            vm@.pending == Seq::<VmxOp>::empty(),
    {
        Vm { shared_data, active_view, halted: false, pending: Vec::new() }
    }

    /// The shared data the machine was created over.
    pub fn shared_data(&self) -> (shared_data: &'a SharedData)
        ensures
            *shared_data == self@.shared_data,
    {
        self.shared_data
    }

    /// The view that is active.
    pub fn active_view(&self) -> (state: EptpState)
        ensures
            state == self@.active_view,
    {
        self.active_view
    }

    /// The EPT pointer of the active view.
    pub fn eptp(&self) -> (eptp: u64)
        ensures
            eptp == self@.eptp(),
    {
        self.shared_data.eptp(self.active_view)
    }

    /// Whether an EPT misconfiguration has stopped the machine.
    pub fn is_halted(&self) -> (halted: bool)
        ensures
            halted == self@.halted,
    {
        self.halted
    }

    /// Hands out the queued operations, oldest first, and leaves the queue
    /// empty. The caller performs them in this order before the guest resumes.
    pub fn take_pending(&mut self) -> (ops: Vec<VmxOp>)
        ensures
            ops@ == old(self)@.pending,
            final(self)@.pending == Seq::<VmxOp>::empty(),
            final(self)@.shared_data == old(self)@.shared_data,
            final(self)@.active_view == old(self)@.active_view,
            final(self)@.halted == old(self)@.halted,
    {
        let mut ops: Vec<VmxOp> = Vec::new();
        core::mem::swap(&mut self.pending, &mut ops);
        ops
    }
}

} // verus!
