//! The switch to long mode: identity-mapped boot page tables for the first 4 GiB,
//! the descriptor table of long mode, and the jump to the kernel.
use vstd::prelude::*;
use crate::layout::PGTABLE_START;
use crate::mem::{MemoryRegion, le64, lemma_le_frame};

verus! {

/// Bytes of the page tables: one level-4 table, one level-3 table, four level-2 tables
/// and a spare.
pub const PGTABLE_SIZE: u64 = 8 * 6 * 512;

/// Entry `i` (counted in 8-byte entries from the start) of the boot page tables: the
/// level-4 table points to the level-3 table, which points to four level-2 tables,
/// which map 2 MiB pages one after another.
pub open spec fn pt_entry(i: int) -> int {
    if i == 0 {
        PGTABLE_START + 0x1000 + 0x7
    } else if 512 <= i < 516 {
        PGTABLE_START + 0x2000 + 0x1000 * (i - 512) + 0x7
    } else if 1024 <= i < 3072 {
        0x00200000 * (i - 1024) + 0x183
    } else {
        0
    }
}

fn entry_value(i: u64) -> (r: u64)
    requires
        i < 3072,
    ensures
        r == pt_entry(i as int),
{
    if i == 0 {
        let r = (PGTABLE_START + 0x1000) | 0x7;
        assert((0x2000u64 | 0x7u64) == 0x2007u64) by (bit_vector);
        r
    } else if 512 <= i && i < 516 {
        let k = i - 512;
        let v = PGTABLE_START + 0x2000 + 0x1000 * k;
        assert(v % 8 == 0);
        assert((v | 0x7u64) == v + 7) by (bit_vector)
            requires
                v % 8 == 0,
        ;
        v | 0x7
    } else if 1024 <= i {
        let k = i - 1024;
        let v = 0x00200000 * k;
        assert(v % 0x200 == 0);
        assert((v | 0x183u64) == v + 0x183) by (bit_vector)
            requires
                v % 0x200 == 0,
        ;
        v | 0x00000183
    } else {
        0
    }
}

/// Build the boot page tables in `pg_table`.
pub fn setup_page_tables(pg_table: &mut MemoryRegion)
    requires
        old(pg_table)@.len() == PGTABLE_SIZE,
    ensures
        final(pg_table).base() == old(pg_table).base(),
        final(pg_table)@.len() == PGTABLE_SIZE,
        forall|i: int| 0 <= i < 3072 ==> #[trigger] le64(final(pg_table)@, 8 * i) == pt_entry(i),
{
    let mut i: u64 = 0;
    while i < 3072
        invariant
            i <= 3072,
            pg_table.base() == old(pg_table).base(),
            pg_table@.len() == PGTABLE_SIZE,
            forall|j: int| 0 <= j < i ==> #[trigger] le64(pg_table@, 8 * j) == pt_entry(j),
        decreases 3072 - i,
    {
        let ghost before = pg_table@;
        let v = entry_value(i);
        pg_table.write_u64(8 * i, v);
        assert forall|j: int| 0 <= j < i + 1 implies #[trigger] le64(pg_table@, 8 * j) == pt_entry(j) by {
            if j < i {
                lemma_le_frame(before, pg_table@, 8 * j, 8);
            }
        }
        i = i + 1;
    }
}

/// Everything the jump to a 64-bit kernel takes: the descriptor table of long mode,
/// the page table root, the entry point and the value of ESI (the zero page).
#[derive(Debug)]
pub struct LongModeJump {
    pub gdt: [u64; 6],
    pub pgtable: u64,
    pub entry: u64,
    pub esi: u32,
}

/// Kernel code and data segments and a task state segment, after two null entries.
pub open spec fn long_mode_gdt() -> Seq<u64> {
    seq![0u64, 0u64, 0x00AF9A000000FFFFu64, 0x00CF92000000FFFFu64, 0x0080890000000000u64, 0u64]
}

/// Build the page tables in `pg_table` and describe the jump to `entry_addr`.
pub fn start_kernel(pg_table: &mut MemoryRegion, entry_addr: u64) -> (r: LongModeJump)
    requires
        old(pg_table)@.len() == PGTABLE_SIZE,
    ensures
        final(pg_table).base() == old(pg_table).base(),
        final(pg_table)@.len() == PGTABLE_SIZE,
        forall|i: int| 0 <= i < 3072 ==> #[trigger] le64(final(pg_table)@, 8 * i) == pt_entry(i),
        r.gdt@ == long_mode_gdt(),
        r.pgtable == PGTABLE_START,
        r.entry == entry_addr,
        r.esi == 0x7C00,
{
    setup_page_tables(pg_table);
    let gdt: [u64; 6] = [
        0x0000000000000000,
        0x0000000000000000,
        0x00AF9A000000FFFF,
        0x00CF92000000FFFF,
        0x0080890000000000,
        0x0000000000000000,
    ];
    assert(gdt@ =~= long_mode_gdt());
    LongModeJump { gdt, pgtable: PGTABLE_START, entry: entry_addr, esi: 0x7C00 }
}


/// Law: the boot page tables map the first 4 GiB to themselves: the level-2 entry that
/// covers address `a` holds the 2 MiB frame that contains `a`, present and writable.
pub proof fn lemma_identity_map(a: int)
    requires
        0 <= a < 0x1_0000_0000,
    ensures
        1024 <= 1024 + a / 0x200000 < 3072,
        pt_entry(1024 + a / 0x200000) == (a - a % 0x200000) + 0x183,
{
}

} // verus!
