//! Hook records and the registry that owns them.

use crate::ept::Table;
use crate::error::HypervisorError;
use vstd::prelude::*;

verus! {

/// One hidden modification of a guest page.
///
/// Installing a hook splits the mapping of its page down to a page table in both
/// hierarchies; each hierarchy gets a page table of its own for that, so that the
/// pages around the hooked one keep their mapping.
#[derive(Debug, PartialEq, Eq)]
pub struct Hook {
    /// The guest-physical page number of the hooked page.
    pub guest_pfn: u64,
    /// The page table that splits the page's mapping in the primary hierarchy.
    pub primary_ept_pre_alloc_pt: Table,
    /// The page table that splits the page's mapping in the secondary hierarchy.
    pub secondary_ept_pre_alloc_pt: Table,
}

/// The hooks in the order of their installation, and a cursor that stands one
/// past the hook installed last.
///
/// The registry is viewed as the sequence of its hooks. The cursor always equals
/// their number: it only ever moves forward, by one for each hook installed.
#[derive(Debug)]
pub struct HookRegistry {
    hooks: Vec<Hook>,
    cursor: usize,
}

impl View for HookRegistry {
    type V = Seq<Hook>;

    closed spec fn view(&self) -> Seq<Hook> {
        self.hooks@
    }
}

impl HookRegistry {
    #[verifier::type_invariant]
    spec fn cursor_is_count(&self) -> bool {
        self.cursor == self.hooks.len()
    }

    /// A registry without hooks, its cursor at zero.
    pub fn new() -> (registry: HookRegistry)
        ensures
            registry@ == Seq::<Hook>::empty(),
    {
        HookRegistry { hooks: Vec::new(), cursor: 0 }
    }

    /// Appends `hook`, moves the cursor past it and returns the hook's index.
    pub fn install(&mut self, hook: Hook) -> (index: usize)
        ensures
            final(self)@ == old(self)@.push(hook),
            index == old(self)@.len(),
    {
        // The registry is taken apart and put together again, so that at no
        // point its cursor disagrees with its hooks.
        let mut taken = HookRegistry::new();
        core::mem::swap(self, &mut taken);
        proof {
            use_type_invariant(&taken);
        }
        let HookRegistry { mut hooks, cursor } = taken;
        hooks.push(hook);
        let advanced = hooks.len();
        *self = HookRegistry { hooks, cursor: advanced };
        cursor
    }

    /// The cursor: the number of hooks installed so far.
    pub fn cursor(&self) -> (cursor: usize)
        ensures
            cursor == self@.len(),
    {
        proof {
            use_type_invariant(self);
        }
        self.cursor
    }

    /// The hook at `index`, or `None` when no hook has that index.
    pub fn get(&self, index: usize) -> (hook: Option<&Hook>)
        ensures
            hook == if index < self@.len() {
                Some(&self@[index as int])
            } else {
                None
            },
    {
        if index < self.hooks.len() {
            Some(&self.hooks[index])
        } else {
            None
        }
    }

    /// The index of the hook installed last: the cursor less one.
    ///
    /// With no hook installed the cursor is zero and there is no such index: the
    /// lookup then fails with `FailedToGetCurrentHookIndex` instead of wrapping
    /// below zero.
    pub fn current_hook_index(&self) -> (index: Result<usize, HypervisorError>)
        ensures
            match index {
                Ok(index) => self@.len() > 0 && index == self@.len() - 1,
                Err(error) => self@.len() == 0 && error
                    == HypervisorError::FailedToGetCurrentHookIndex,
            },
    {
        proof {
            use_type_invariant(self);
        }
        if self.cursor == 0 {
            Err(HypervisorError::FailedToGetCurrentHookIndex)
        } else {
            Ok(self.cursor - 1)
        }
    }

    /// The hook installed last, or `FailedToGetCurrentHookIndex` when none was
    /// ever installed.
    pub fn current_hook(&self) -> (hook: Result<&Hook, HypervisorError>)
        ensures
            match hook {
                Ok(hook) => self@.len() > 0 && *hook == self@.last(),
                Err(error) => self@.len() == 0 && error
                    == HypervisorError::FailedToGetCurrentHookIndex,
            },
    {
        proof {
            use_type_invariant(self);
        }
        match self.current_hook_index() {
            Ok(index) => Ok(&self.hooks[index]),
            Err(error) => Err(error),
        }
    }
}

} // verus!
