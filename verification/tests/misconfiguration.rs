use hypervisor::ept::{Entry, Ept, EptEntryDump, EptLevel, Table};
use hypervisor::error::HypervisorError;
use hypervisor::hooks::{Hook, HookRegistry};
use hypervisor::vm::{SharedData, Vm};
use hypervisor::vmexit::{
    dump_primary_and_secondary_ept, handle_ept_misconfiguration, handle_ept_violation,
    switch_eptp, EptpState, ExitType,
};

const RWX: u64 = 0x7;
const GPA: u64 = (5 << 21) | (9 << 12) | 0x123;

fn hierarchy(root: u64) -> Ept {
    let mut ept = Ept::new(1);
    ept.pml4.set_entry(0, Entry(root | RWX));
    ept.pdpt.set_entry(0, Entry((root + 0x1000) | RWX));
    ept.pd[0].set_entry(5, Entry((root + 0x2000) | RWX));
    ept.pt.set_entry(9, Entry((root + 0x3000) | RWX));
    ept
}

fn hook(guest_pfn: u64) -> Hook {
    let mut primary = Table::new();
    primary.set_entry(9, Entry(guest_pfn << 12 | 0x3));
    let mut secondary = Table::new();
    secondary.set_entry(9, Entry((guest_pfn + 1) << 12 | 0x4));
    Hook {
        guest_pfn,
        primary_ept_pre_alloc_pt: primary,
        secondary_ept_pre_alloc_pt: secondary,
    }
}

fn shared(hooks: u64) -> SharedData {
    let mut registry = HookRegistry::new();
    for n in 0..hooks {
        registry.install(hook(0x100 + 0x10 * n));
    }
    SharedData {
        primary_ept: hierarchy(0x10_0000),
        primary_eptp: 0x10_005e,
        secondary_ept: hierarchy(0x20_0000),
        secondary_eptp: 0x20_005e,
        hooks: registry,
    }
}

fn step(level: EptLevel, index: usize, entry: u64) -> EptEntryDump {
    EptEntryDump { level, index, entry: Entry(entry) }
}

#[test]
fn dump_walks_both_hierarchies_through_the_last_hook() {
    let shared = shared(3);
    let vm = Vm::new(&shared, EptpState::Primary);
    let dump = dump_primary_and_secondary_ept(&vm, GPA).expect("three hooks are installed");
    assert_eq!(dump.guest_physical_address, GPA);
    assert_eq!(dump.hook_index, 2);
    assert_eq!(
        dump.primary,
        vec![
            step(EptLevel::Pml4, 0, 0x10_0000 | RWX),
            step(EptLevel::Pdpt, 0, 0x10_1000 | RWX),
            step(EptLevel::Pd, 5, 0x10_2000 | RWX),
            step(EptLevel::Pt, 9, 0x120 << 12 | 0x3),
        ]
    );
    assert_eq!(
        dump.secondary,
        vec![
            step(EptLevel::Pml4, 0, 0x20_0000 | RWX),
            step(EptLevel::Pdpt, 0, 0x20_1000 | RWX),
            step(EptLevel::Pd, 5, 0x20_2000 | RWX),
            step(EptLevel::Pt, 9, 0x121 << 12 | 0x4),
        ]
    );
}

#[test]
fn dump_without_hooks_fails_with_the_missing_record_error() {
    let shared = shared(0);
    let vm = Vm::new(&shared, EptpState::Primary);
    assert_eq!(
        dump_primary_and_secondary_ept(&vm, GPA),
        Err(HypervisorError::FailedToGetCurrentHookIndex)
    );
}

#[test]
fn dump_changes_nothing() {
    let shared = shared(1);
    let mut vm = Vm::new(&shared, EptpState::Secondary);
    let first = dump_primary_and_secondary_ept(&vm, GPA);
    let second = dump_primary_and_secondary_ept(&vm, GPA);
    assert_eq!(first, second);
    assert_eq!(first.map(|dump| dump.hook_index), Ok(0));
    assert_eq!(vm.active_view(), EptpState::Secondary);
    assert!(!vm.is_halted());
    assert!(vm.take_pending().is_empty());
}

#[test]
fn misconfiguration_stops_the_machine() {
    let shared = shared(2);
    let mut vm = Vm::new(&shared, EptpState::Secondary);
    let (exit, dump) = handle_ept_misconfiguration(&mut vm, GPA);
    assert_eq!(exit, ExitType::ExitHypervisor);
    assert!(vm.is_halted());
    assert_eq!(vm.active_view(), EptpState::Secondary);
    assert!(vm.take_pending().is_empty());
    let dump = dump.expect("two hooks are installed");
    assert_eq!(dump.hook_index, 1);
    assert_eq!(dump.primary[3], step(EptLevel::Pt, 9, 0x110 << 12 | 0x3));
    assert_eq!(dump.secondary[3], step(EptLevel::Pt, 9, 0x111 << 12 | 0x4));
}

#[test]
fn misconfiguration_without_hooks_still_stops_the_machine() {
    let shared = shared(0);
    let mut vm = Vm::new(&shared, EptpState::Primary);
    let (exit, dump) = handle_ept_misconfiguration(&mut vm, GPA);
    assert_eq!(exit, ExitType::ExitHypervisor);
    assert_eq!(dump, Err(HypervisorError::FailedToGetCurrentHookIndex));
    assert!(vm.is_halted());
}

#[test]
fn nothing_resumes_the_guest_after_a_misconfiguration() {
    let shared = shared(1);
    let mut vm = Vm::new(&shared, EptpState::Primary);
    assert_eq!(handle_ept_violation(&mut vm, 0x4), ExitType::Continue);
    assert_eq!(vm.take_pending().len(), 2);

    assert_eq!(handle_ept_misconfiguration(&mut vm, GPA).0, ExitType::ExitHypervisor);
    for raw in [0u64, 0x1, 0x2, 0x4, 0x3f, u64::MAX] {
        assert_eq!(handle_ept_violation(&mut vm, raw), ExitType::ExitHypervisor);
        assert_eq!(vm.active_view(), EptpState::Secondary);
        assert!(vm.is_halted());
        assert!(vm.take_pending().is_empty());
        assert_eq!(handle_ept_misconfiguration(&mut vm, raw).0, ExitType::ExitHypervisor);
        assert!(vm.is_halted());
    }
}

#[test]
fn a_switch_does_not_restart_a_stopped_machine() {
    let shared = shared(1);
    let mut vm = Vm::new(&shared, EptpState::Primary);
    handle_ept_misconfiguration(&mut vm, GPA);
    switch_eptp(&mut vm, EptpState::Secondary);
    assert!(vm.is_halted());
    assert_eq!(handle_ept_violation(&mut vm, 0x1), ExitType::ExitHypervisor);
}
