use hypervisor::ept::{Entry, Table};
use hypervisor::error::HypervisorError;
use hypervisor::hooks::{Hook, HookRegistry};

fn hook(guest_pfn: u64) -> Hook {
    let mut primary = Table::new();
    primary.set_entry(0, Entry(guest_pfn << 12 | 0x3));
    let mut secondary = Table::new();
    secondary.set_entry(0, Entry(guest_pfn << 12 | 0x4));
    Hook {
        guest_pfn,
        primary_ept_pre_alloc_pt: primary,
        secondary_ept_pre_alloc_pt: secondary,
    }
}

#[test]
fn three_hooks_give_the_record_at_index_two() {
    let mut registry = HookRegistry::new();
    assert_eq!(registry.install(hook(0x10)), 0);
    assert_eq!(registry.install(hook(0x20)), 1);
    assert_eq!(registry.install(hook(0x30)), 2);
    assert_eq!(registry.cursor(), 3);
    assert_eq!(registry.current_hook_index(), Ok(2));
    let current = registry.current_hook().expect("three hooks are installed");
    assert_eq!(current.guest_pfn, 0x30);
    assert_eq!(current, &hook(0x30));
    assert_eq!(registry.get(2), Some(current));
}

#[test]
fn no_hook_gives_the_missing_record_error() {
    let registry = HookRegistry::new();
    assert_eq!(registry.cursor(), 0);
    assert_eq!(registry.current_hook_index(), Err(HypervisorError::FailedToGetCurrentHookIndex));
    assert_eq!(
        registry.current_hook().map(|h| h.guest_pfn),
        Err(HypervisorError::FailedToGetCurrentHookIndex)
    );
    assert_eq!(registry.get(0), None);
    assert_eq!(registry.get(usize::MAX), None);
}

#[test]
fn cursor_stands_one_past_the_last_hook() {
    let mut registry = HookRegistry::new();
    for n in 1..=8u64 {
        let index = registry.install(hook(n));
        assert_eq!(index as u64, n - 1);
        assert_eq!(registry.cursor() as u64, n);
        assert_eq!(registry.current_hook_index(), Ok(index));
        assert_eq!(registry.current_hook().map(|h| h.guest_pfn), Ok(n));
        for earlier in 0..n {
            assert_eq!(registry.get(earlier as usize).map(|h| h.guest_pfn), Some(earlier + 1));
        }
        assert_eq!(registry.get(n as usize), None);
    }
}
