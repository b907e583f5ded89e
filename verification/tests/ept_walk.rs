use hypervisor::ept::{
    pd_index, pdpt_index, pml4_index, pt_index, Entry, Ept, EptEntryDump, EptLevel, Table,
    ENTRIES_PER_TABLE,
};

const RWX: u64 = 0x7;
const LARGE: u64 = 0x80;

/// Guest-physical address with PML4 index 0, PDPT index 1, PD index 2, PT
/// index 3 and page offset 0x45.
const GPA: u64 = (1 << 30) | (2 << 21) | (3 << 12) | 0x45;

fn step(level: EptLevel, index: usize, entry: u64) -> EptEntryDump {
    EptEntryDump { level, index, entry: Entry(entry) }
}

/// A hierarchy of two page directories that maps `GPA` down to its page table.
fn mapped() -> Ept {
    let mut ept = Ept::new(2);
    ept.pml4.set_entry(0, Entry(0x1000 | RWX));
    ept.pdpt.set_entry(1, Entry(0x2000 | RWX));
    ept.pd[1].set_entry(2, Entry(0x3000 | RWX));
    ept.pt.set_entry(3, Entry(0x0000_0000_4004_3000 | 0x3));
    ept
}

#[test]
fn indices_are_the_nine_bit_fields_of_the_address() {
    assert_eq!(ENTRIES_PER_TABLE, 512);
    assert_eq!(pml4_index(GPA), 0);
    assert_eq!(pdpt_index(GPA), 1);
    assert_eq!(pd_index(GPA), 2);
    assert_eq!(pt_index(GPA), 3);

    let top = 0x0000_ffff_ffff_ffff;
    assert_eq!(pml4_index(top), 511);
    assert_eq!(pdpt_index(top), 511);
    assert_eq!(pd_index(top), 511);
    assert_eq!(pt_index(top), 511);

    assert_eq!(pml4_index(0x0000_0080_0000_0000), 1);
    assert_eq!(pdpt_index(0x0000_0000_4000_0000), 1);
    assert_eq!(pd_index(0x0000_0000_0020_0000), 1);
    assert_eq!(pt_index(0x0000_0000_0000_1000), 1);
    assert_eq!(pt_index(0x0000_0000_0000_0fff), 0);

    // Bits above 47 do not reach any index.
    assert_eq!(pml4_index(u64::MAX), 511);
    assert_eq!(pml4_index(0xffff_0000_0000_0000), 0);
}

#[test]
fn entry_bits() {
    let entry = Entry(0x000a_bcde_f012_3000 | LARGE | 0x5);
    assert!(entry.readable());
    assert!(!entry.writable());
    assert!(entry.executable());
    assert!(entry.large());
    assert!(entry.present());
    assert_eq!(entry.address(), 0x000a_bcde_f012_3000);

    let execute_only = Entry(0x4);
    assert!(!execute_only.readable() && !execute_only.writable() && execute_only.executable());
    assert!(execute_only.present());

    let empty = Entry(0);
    assert!(!empty.present() && !empty.large());
    assert_eq!(empty.address(), 0);

    // Bits 63:52 and 11:0 are no part of the address.
    assert_eq!(Entry(u64::MAX).address(), 0x000f_ffff_ffff_f000);
    // Flags other than the three permissions do not make an entry present.
    assert!(!Entry(0xffff_ffff_ffff_fff8).present());
}

#[test]
fn table_access_is_bounds_checked() {
    let mut table = Table::new();
    assert_eq!(table.entry(0), Some(Entry(0)));
    assert_eq!(table.entry(511), Some(Entry(0)));
    assert_eq!(table.entry(512), None);
    assert_eq!(table.entry(usize::MAX), None);

    assert_eq!(table.set_entry(7, Entry(0x1007)), Some(Entry(0)));
    assert_eq!(table.set_entry(7, Entry(0x2007)), Some(Entry(0x1007)));
    assert_eq!(table.entry(7), Some(Entry(0x2007)));
    assert_eq!(table.entry(6), Some(Entry(0)));

    let before = Table { entries: table.entries };
    assert_eq!(table.set_entry(512, Entry(0x7)), None);
    assert_eq!(table, before);
}

#[test]
fn empty_hierarchy_maps_nothing() {
    let ept = Ept::new(3);
    assert_eq!(ept.pd.len(), 3);
    for gpa in [0u64, GPA, u64::MAX] {
        let chain = ept.dump_ept_entries(gpa, None);
        assert_eq!(chain, vec![step(EptLevel::Pml4, pml4_index(gpa), 0)]);
        assert_eq!(ept.lookup(gpa, None), None);
    }
}

#[test]
fn walk_goes_down_to_the_page_table() {
    let ept = mapped();
    let chain = ept.dump_ept_entries(GPA, None);
    assert_eq!(
        chain,
        vec![
            step(EptLevel::Pml4, 0, 0x1000 | RWX),
            step(EptLevel::Pdpt, 1, 0x2000 | RWX),
            step(EptLevel::Pd, 2, 0x3000 | RWX),
            step(EptLevel::Pt, 3, 0x0000_0000_4004_3000 | 0x3),
        ]
    );
    for entry in &chain[..3] {
        assert!(entry.descends());
        assert!(!entry.terminal());
    }
    assert!(chain[3].terminal());
    assert!(!chain[3].descends());
    assert_eq!(ept.lookup(GPA, None), Some(chain[3]));
    assert_eq!(chain[3].entry.address(), 0x4004_3000);
}

#[test]
fn walk_reads_the_page_table_it_is_handed() {
    let ept = mapped();
    let mut split = Table::new();
    split.set_entry(3, Entry(0x0000_0000_5005_3000 | 0x4));
    let chain = ept.dump_ept_entries(GPA, Some(&split));
    assert_eq!(chain.len(), 4);
    assert_eq!(chain[3], step(EptLevel::Pt, 3, 0x0000_0000_5005_3000 | 0x4));
    assert_eq!(ept.lookup(GPA, Some(&split)), Some(chain[3]));
    // The levels above are those of the hierarchy.
    assert_eq!(chain[..3], ept.dump_ept_entries(GPA, None)[..3]);

    // An entry of the handed table that is not present leaves the address
    // unmapped.
    let empty = Table::new();
    let chain = ept.dump_ept_entries(GPA, Some(&empty));
    assert_eq!(chain.len(), 4);
    assert_eq!(chain[3], step(EptLevel::Pt, 3, 0));
    assert!(!chain[3].terminal());
    assert_eq!(ept.lookup(GPA, Some(&empty)), None);
}

#[test]
fn walk_stops_at_a_large_page() {
    let mut ept = mapped();
    ept.pd[1].set_entry(2, Entry(0x0000_0000_8020_0000 | LARGE | RWX));
    let chain = ept.dump_ept_entries(GPA, None);
    assert_eq!(chain.len(), 3);
    assert_eq!(chain[2], step(EptLevel::Pd, 2, 0x0000_0000_8020_0000 | LARGE | RWX));
    assert!(chain[2].terminal());
    assert_eq!(ept.lookup(GPA, None), Some(chain[2]));

    ept.pdpt.set_entry(1, Entry(0x0000_0000_4000_0000 | LARGE | 0x1));
    let chain = ept.dump_ept_entries(GPA, None);
    assert_eq!(chain.len(), 2);
    assert!(chain[1].terminal());
    assert_eq!(ept.lookup(GPA, None), Some(chain[1]));

    // The large-page bit means nothing in the root table.
    ept.pml4.set_entry(0, Entry(0x1000 | LARGE | RWX));
    assert_eq!(ept.dump_ept_entries(GPA, None).len(), 2);
}

#[test]
fn walk_stops_at_an_entry_that_is_not_present() {
    let mut ept = mapped();
    ept.pd[1].set_entry(2, Entry(0x3000));
    let chain = ept.dump_ept_entries(GPA, None);
    assert_eq!(chain.len(), 3);
    assert!(!chain[2].terminal() && !chain[2].descends());
    assert_eq!(ept.lookup(GPA, None), None);

    // A large-page bit on an entry without permissions maps nothing either.
    ept.pd[1].set_entry(2, Entry(0x3000 | LARGE));
    assert_eq!(ept.lookup(GPA, None), None);

    ept.pdpt.set_entry(1, Entry(0));
    assert_eq!(ept.dump_ept_entries(GPA, None).len(), 2);
    assert_eq!(ept.lookup(GPA, None), None);
}

#[test]
fn walk_stops_where_no_page_directory_serves_the_index() {
    let mut ept = mapped();
    // PDPT index 2 is present, but the hierarchy holds directories 0 and 1 only.
    ept.pdpt.set_entry(2, Entry(0x6000 | RWX));
    let gpa = 2u64 << 30;
    let chain = ept.dump_ept_entries(gpa, None);
    assert_eq!(
        chain,
        vec![step(EptLevel::Pml4, 0, 0x1000 | RWX), step(EptLevel::Pdpt, 2, 0x6000 | RWX)]
    );
    assert!(chain[1].descends());
    assert_eq!(ept.lookup(gpa, None), None);
}

#[test]
fn every_walk_has_one_entry_per_level_in_order() {
    let ept = mapped();
    let levels = [EptLevel::Pml4, EptLevel::Pdpt, EptLevel::Pd, EptLevel::Pt];
    let addresses = [0u64, GPA, GPA + 0x1000, 1 << 30, 1 << 39, 0x0000_ffff_ffff_ffff, u64::MAX];
    for gpa in addresses {
        let chain = ept.dump_ept_entries(gpa, None);
        assert!(!chain.is_empty() && chain.len() <= 4);
        for (depth, entry) in chain.iter().enumerate() {
            assert_eq!(entry.level, levels[depth]);
            assert!(entry.index < 512);
            if depth + 1 < chain.len() {
                assert!(entry.descends());
                assert!(!entry.terminal());
            }
        }
        let terminals = chain.iter().filter(|entry| entry.terminal()).count();
        assert!(terminals <= 1);
        assert_eq!(ept.lookup(gpa, None).is_some(), terminals == 1);
    }
}
