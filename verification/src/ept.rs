//! The EPT hierarchy: four levels of 512-entry tables that translate a
//! guest-physical address, and the walk that lists the entries an address uses.

use vstd::prelude::*;

verus! {

/// Number of entries in every EPT paging structure.
pub const ENTRIES_PER_TABLE: usize = 512;

/// One 64-bit entry of an EPT paging structure.
///
/// Bits 0, 1 and 2 grant read, write and execute access. Bit 7 marks an entry of
/// the page-directory-pointer table or of a page directory as mapping a large
/// page. Bits 51:12 hold the physical address of the next table or of the page.
#[derive(Debug, Clone, Copy, PartialEq, Eq, Structural)]
pub struct Entry(pub u64);

impl Entry {
    pub open spec fn spec_readable(&self) -> bool {
        self.0 & 0x1 != 0
    }

    pub open spec fn spec_writable(&self) -> bool {
        self.0 & 0x2 != 0
    }

    pub open spec fn spec_executable(&self) -> bool {
        self.0 & 0x4 != 0
    }

    pub open spec fn spec_large(&self) -> bool {
        self.0 & 0x80 != 0
    }

    /// An entry is present when it grants at least one kind of access.
    pub open spec fn spec_present(&self) -> bool {
        self.0 & 0x7 != 0
    }

    pub open spec fn spec_address(&self) -> u64 {
        self.0 & 0x000F_FFFF_FFFF_F000
    }

    /// Whether the entry grants read access.
    #[verifier::when_used_as_spec(spec_readable)]
    pub fn readable(&self) -> (b: bool)
        ensures
            b == self.spec_readable(),
    {
        self.0 & 0x1 != 0
    }

    /// Whether the entry grants write access.
    #[verifier::when_used_as_spec(spec_writable)]
    pub fn writable(&self) -> (b: bool)
        ensures
            b == self.spec_writable(),
    {
        self.0 & 0x2 != 0
    }

    /// Whether the entry grants instruction fetches.
    #[verifier::when_used_as_spec(spec_executable)]
    pub fn executable(&self) -> (b: bool)
        ensures
            b == self.spec_executable(),
    {
        self.0 & 0x4 != 0
    }

    /// Whether the large-page bit is set.
    #[verifier::when_used_as_spec(spec_large)]
    pub fn large(&self) -> (b: bool)
        ensures
            b == self.spec_large(),
    {
        self.0 & 0x80 != 0
    }

    /// Whether the entry grants any access at all.
    #[verifier::when_used_as_spec(spec_present)]
    pub fn present(&self) -> (b: bool)
        ensures
            b == self.spec_present(),
            b == (self.readable() || self.writable() || self.executable()),
    {
        let bits: u64 = self.0;
        assert((bits & 0x7 != 0) == (bits & 0x1 != 0 || bits & 0x2 != 0 || bits & 0x4 != 0))
            by (bit_vector);
        bits & 0x7 != 0
    }

    /// The physical address the entry points to: bits 51:12, in place.
    #[verifier::when_used_as_spec(spec_address)]
    pub fn address(&self) -> (a: u64)
        ensures
            a == self.spec_address(),
            a % 4096 == 0,
            a < 0x0010_0000_0000_0000,
    {
        let bits: u64 = self.0;
        assert((bits & 0x000F_FFFF_FFFF_F000) % 4096 == 0) by (bit_vector);
        assert((bits & 0x000F_FFFF_FFFF_F000) < 0x0010_0000_0000_0000) by (bit_vector);
        bits & 0x000F_FFFF_FFFF_F000
    }
}

/// One EPT paging structure: 512 entries, addressed by index.
#[derive(Debug, PartialEq, Eq)]
pub struct Table {
    pub entries: [Entry; 512],
}

impl Table {
    /// A table whose entries are all zero, so that none is present.
    pub fn new() -> (table: Table)
        ensures
            forall|i: int| 0 <= i < 512 ==> table.entries[i] == Entry(0),
    {
        Table { entries: [Entry(0); 512] }
    }

    /// The entry at `index`, or `None` when `index` is not below 512.
    pub fn entry(&self, index: usize) -> (entry: Option<Entry>)
        ensures
            entry == if index < 512 {
                Some(self.entries[index as int])
            } else {
                None
            },
    {
        if index < ENTRIES_PER_TABLE {
            Some(self.entries[index])
        } else {
            None
        }
    }

    /// Stores `entry` at `index` and returns the entry it replaces. When `index`
    /// is not below 512 the table stays as it is and `None` is returned.
    pub fn set_entry(&mut self, index: usize, entry: Entry) -> (previous: Option<Entry>)
        ensures
            index < 512 ==> previous == Some(old(self).entries[index as int])
                && final(self).entries@ == old(self).entries@.update(index as int, entry),
            index >= 512 ==> previous.is_none() && *final(self) == *old(self),
    {
        if index < ENTRIES_PER_TABLE {
            let previous = self.entries[index];
            self.entries[index] = entry;
            Some(previous)
        } else {
            None
        }
    }
}

/// The four levels of an EPT hierarchy, from the root down.
#[derive(Debug, Clone, Copy, PartialEq, Eq, Structural)]
pub enum EptLevel {
    Pml4,
    Pdpt,
    Pd,
    Pt,
}

/// Index into the PML4 table: bits 47:39 of the guest-physical address.
pub open spec fn spec_pml4_index(guest_pa: u64) -> usize {
    ((guest_pa >> 39) & 0x1ff) as usize
}

/// Index into the page-directory-pointer table: bits 38:30.
pub open spec fn spec_pdpt_index(guest_pa: u64) -> usize {
    ((guest_pa >> 30) & 0x1ff) as usize
}

/// Index into a page directory: bits 29:21.
pub open spec fn spec_pd_index(guest_pa: u64) -> usize {
    ((guest_pa >> 21) & 0x1ff) as usize
}

/// Index into a page table: bits 20:12.
pub open spec fn spec_pt_index(guest_pa: u64) -> usize {
    ((guest_pa >> 12) & 0x1ff) as usize
}

/// Index into the PML4 table: bits 47:39 of the guest-physical address.
#[verifier::when_used_as_spec(spec_pml4_index)]
pub fn pml4_index(guest_pa: u64) -> (index: usize)
    ensures
        index == spec_pml4_index(guest_pa),
        index < 512,
{
    assert((guest_pa >> 39) & 0x1ff < 512) by (bit_vector);
    ((guest_pa >> 39) & 0x1ff) as usize
}

/// Index into the page-directory-pointer table: bits 38:30.
#[verifier::when_used_as_spec(spec_pdpt_index)]
pub fn pdpt_index(guest_pa: u64) -> (index: usize)
    ensures
        index == spec_pdpt_index(guest_pa),
        index < 512,
{
    assert((guest_pa >> 30) & 0x1ff < 512) by (bit_vector);
    ((guest_pa >> 30) & 0x1ff) as usize
}

/// Index into a page directory: bits 29:21.
#[verifier::when_used_as_spec(spec_pd_index)]
pub fn pd_index(guest_pa: u64) -> (index: usize)
    ensures
        index == spec_pd_index(guest_pa),
        index < 512,
{
    assert((guest_pa >> 21) & 0x1ff < 512) by (bit_vector);
    ((guest_pa >> 21) & 0x1ff) as usize
}

/// Index into a page table: bits 20:12.
#[verifier::when_used_as_spec(spec_pt_index)]
pub fn pt_index(guest_pa: u64) -> (index: usize)
    ensures
        index == spec_pt_index(guest_pa),
        index < 512,
{
    assert((guest_pa >> 12) & 0x1ff < 512) by (bit_vector);
    ((guest_pa >> 12) & 0x1ff) as usize
}

/// One step of a walk: the entry that a guest-physical address selects at one
/// level of a hierarchy.
#[derive(Debug, Clone, Copy, PartialEq, Eq, Structural)]
pub struct EptEntryDump {
    /// The level of the table the entry was read from.
    pub level: EptLevel,
    /// The index of the entry in that table.
    pub index: usize,
    /// The entry as the table holds it.
    pub entry: Entry,
}

impl EptEntryDump {
    /// Whether the walk ends here with a mapping: a present entry of a page
    /// table, or a present large-page entry of one of the two levels above it.
    pub open spec fn spec_terminal(&self) -> bool {
        self.entry.present() && match self.level {
            EptLevel::Pml4 => false,
            EptLevel::Pdpt => self.entry.large(),
            EptLevel::Pd => self.entry.large(),
            EptLevel::Pt => true,
        }
    }

    /// Whether the walk goes on to the next level: the entry is present, is not
    /// in a page table, and maps no large page.
    pub open spec fn spec_descends(&self) -> bool {
        self.entry.present() && match self.level {
            EptLevel::Pml4 => true,
            EptLevel::Pdpt => !self.entry.large(),
            EptLevel::Pd => !self.entry.large(),
            EptLevel::Pt => false,
        }
    }

    /// Whether the walk ends here with a mapping.
    #[verifier::when_used_as_spec(spec_terminal)]
    pub fn terminal(&self) -> (b: bool)
        ensures
            b == self.spec_terminal(),
    {
        self.entry.present() && match self.level {
            EptLevel::Pml4 => false,
            EptLevel::Pdpt => self.entry.large(),
            EptLevel::Pd => self.entry.large(),
            EptLevel::Pt => true,
        }
    }

    /// Whether the walk goes on to the next level.
    #[verifier::when_used_as_spec(spec_descends)]
    pub fn descends(&self) -> (b: bool)
        ensures
            b == self.spec_descends(),
    {
        self.entry.present() && match self.level {
            EptLevel::Pml4 => true,
            EptLevel::Pdpt => !self.entry.large(),
            EptLevel::Pd => !self.entry.large(),
            EptLevel::Pt => false,
        }
    }
}

/// One EPT hierarchy.
///
/// The tables are reached by index, never through the addresses stored in their
/// entries: entry `i` of the page-directory-pointer table is served by page
/// directory `i`, and every page directory shares the one page table, unless a
/// walk is handed the page table that a hook split off for its page.
#[derive(Debug, PartialEq, Eq)]
pub struct Ept {
    /// The root table.
    pub pml4: Table,
    /// The page-directory-pointer table.
    pub pdpt: Table,
    /// The page directories, one for each entry of `pdpt` that has one.
    pub pd: Vec<Table>,
    /// The page table of the hierarchy itself.
    pub pt: Table,
}

impl Ept {
    /// The page table a walk reads: the one handed in, else the hierarchy's own.
    pub open spec fn leaf_table(&self, pt: Option<&Table>) -> Table {
        match pt {
            Some(table) => *table,
            None => self.pt,
        }
    }

    /// The chain of entries that `guest_pa` selects, from the root down.
    ///
    /// The chain stops at the first entry that does not lead on: one that is not
    /// present, one that maps a page, or an entry of the page-directory-pointer
    /// table for whose index the hierarchy holds no page directory.
    pub open spec fn walk(&self, guest_pa: u64, pt: Option<&Table>) -> Seq<EptEntryDump> {
        let pml4e = EptEntryDump {
            level: EptLevel::Pml4,
            index: pml4_index(guest_pa),
            entry: self.pml4.entries[pml4_index(guest_pa) as int],
        };
        let pdpte = EptEntryDump {
            level: EptLevel::Pdpt,
            index: pdpt_index(guest_pa),
            entry: self.pdpt.entries[pdpt_index(guest_pa) as int],
        };
        let pde = EptEntryDump {
            level: EptLevel::Pd,
            index: pd_index(guest_pa),
            entry: self.pd[pdpt_index(guest_pa) as int].entries[pd_index(guest_pa) as int],
        };
        let pte = EptEntryDump {
            level: EptLevel::Pt,
            index: pt_index(guest_pa),
            entry: self.leaf_table(pt).entries[pt_index(guest_pa) as int],
        };
        if !pml4e.descends() {
            seq![pml4e]
        } else if !pdpte.descends() || pdpt_index(guest_pa) >= self.pd.len() {
            seq![pml4e, pdpte]
        } else if !pde.descends() {
            seq![pml4e, pdpte, pde]
        } else {
            seq![pml4e, pdpte, pde, pte]
        }
    }

    /// The entry that maps `guest_pa`: the last entry of the walk where that
    /// entry ends the walk with a mapping, and nothing for an unmapped address.
    pub open spec fn mapping(&self, guest_pa: u64, pt: Option<&Table>) -> Option<EptEntryDump> {
        if self.walk(guest_pa, pt).last().terminal() {
            Some(self.walk(guest_pa, pt).last())
        } else {
            None
        }
    }

    /// A hierarchy of `directories` page directories in which nothing is mapped.
    pub fn new(directories: usize) -> (ept: Ept)
        ensures
            ept.pd.len() == directories,
            forall|i: int| 0 <= i < 512 ==> ept.pml4.entries[i] == Entry(0),
            forall|i: int| 0 <= i < 512 ==> ept.pdpt.entries[i] == Entry(0),
            forall|d: int, i: int|
                0 <= d < directories && 0 <= i < 512 ==> #[trigger] ept.pd[d].entries[i] == Entry(0),
            forall|i: int| 0 <= i < 512 ==> ept.pt.entries[i] == Entry(0),
    {
        let mut pd: Vec<Table> = Vec::new();
        while pd.len() < directories
            invariant
                pd.len() <= directories,
                forall|d: int, i: int|
                    0 <= d < pd.len() && 0 <= i < 512 ==> #[trigger] pd[d].entries[i] == Entry(0),
            decreases directories - pd.len(),
        {
            pd.push(Table::new());
        }
        Ept { pml4: Table::new(), pdpt: Table::new(), pd, pt: Table::new() }
    }

    /// Lists the entries that `guest_pa` selects in this hierarchy, from the root
    /// down, reading the page-table level from `pt` where one is given.
    ///
    /// Nothing is changed. The list has between one and four entries, one per
    /// level in order; every entry but the last leads on to the next level.
    pub fn dump_ept_entries(&self, guest_pa: u64, pt: Option<&Table>) -> (chain: Vec<EptEntryDump>)
        ensures
            chain@ == self.walk(guest_pa, pt),
    {
        let mut chain: Vec<EptEntryDump> = Vec::new();
        let pml4_index = pml4_index(guest_pa);
        let pml4e = EptEntryDump {
            level: EptLevel::Pml4,
            index: pml4_index,
            entry: self.pml4.entries[pml4_index],
        };
        chain.push(pml4e);
        if !pml4e.descends() {
            assert(chain@ =~= self.walk(guest_pa, pt));
            return chain;
        }
        let pdpt_index = pdpt_index(guest_pa);
        let pdpte = EptEntryDump {
            level: EptLevel::Pdpt,
            index: pdpt_index,
            entry: self.pdpt.entries[pdpt_index],
        };
        chain.push(pdpte);
        if !pdpte.descends() || pdpt_index >= self.pd.len() {
            assert(chain@ =~= self.walk(guest_pa, pt));
            return chain;
        }
        let pd_index = pd_index(guest_pa);
        let pde = EptEntryDump {
            level: EptLevel::Pd,
            index: pd_index,
            entry: self.pd[pdpt_index].entries[pd_index],
        };
        chain.push(pde);
        if !pde.descends() {
            assert(chain@ =~= self.walk(guest_pa, pt));
            return chain;
        }
        let pt_index = pt_index(guest_pa);
        let entry = match pt {
            Some(table) => table.entries[pt_index],
            None => self.pt.entries[pt_index],
        };
        chain.push(EptEntryDump { level: EptLevel::Pt, index: pt_index, entry });
        assert(chain@ =~= self.walk(guest_pa, pt));
        chain
    }

    /// The entry that maps `guest_pa`, if the address is mapped.
    pub fn lookup(&self, guest_pa: u64, pt: Option<&Table>) -> (found: Option<EptEntryDump>)
        ensures
            found == self.mapping(guest_pa, pt),
    {
        let chain = self.dump_ept_entries(guest_pa, pt);
        proof {
            lemma_walk_shape(*self, guest_pa, pt);
        }
        let last = chain[chain.len() - 1];
        if last.terminal() {
            Some(last)
        } else {
            None
        }
    }
}

/// The level of the `depth`-th entry of a walk.
pub open spec fn level_at(depth: int) -> EptLevel {
    if depth <= 0 {
        EptLevel::Pml4
    } else if depth == 1 {
        EptLevel::Pdpt
    } else if depth == 2 {
        EptLevel::Pd
    } else {
        EptLevel::Pt
    }
}

/// A walk visits the levels in order and stops at the first entry that does not
/// lead on: it has between one and four entries, entry `k` is of level `k` and
/// lies within its table, and every entry but the last leads on. So no entry
/// but the last can map the address, and an address has at most one mapping.
/// The last entry leads on only where the hierarchy holds no page directory for
/// it.
pub proof fn lemma_walk_shape(ept: Ept, guest_pa: u64, pt: Option<&Table>)
    ensures
        1 <= ept.walk(guest_pa, pt).len() <= 4,
        forall|k: int|
            0 <= k < ept.walk(guest_pa, pt).len() ==> {
                &&& (#[trigger] ept.walk(guest_pa, pt)[k]).level == level_at(k)
                &&& ept.walk(guest_pa, pt)[k].index < 512
            },
        forall|k: int|
            0 <= k < ept.walk(guest_pa, pt).len() - 1 ==> {
                &&& (#[trigger] ept.walk(guest_pa, pt)[k]).descends()
                &&& !ept.walk(guest_pa, pt)[k].terminal()
            },
        ept.walk(guest_pa, pt).last().descends() ==> ept.walk(guest_pa, pt).len() == 2
            && pdpt_index(guest_pa) >= ept.pd.len(),
{
    assert((guest_pa >> 39) & 0x1ff < 512) by (bit_vector);
    assert((guest_pa >> 30) & 0x1ff < 512) by (bit_vector);
    assert((guest_pa >> 21) & 0x1ff < 512) by (bit_vector);
    assert((guest_pa >> 12) & 0x1ff < 512) by (bit_vector);
}

} // verus!
