//! RAM of the direct path: the canonical address interval of final rows, the
//! first-touch initial RAM table, and the shapes of authenticated RAM
//! witnesses.

use vstd::prelude::*;
use vstd::string::StringExecFns;
use std::collections::BTreeMap;
use vstd::std_specs::cmp::OrdSpec;
use vstd::std_specs::iter::IteratorSpec;

use crate::direct::{DirectChunkedPreprocessing, MemoryLayout};
use crate::math::{is_next_pow2, max_usize, next_power_of_two};
use crate::relation::{DirectChunkedError, ErrorModel, RelationMap};
use crate::text::{dec, decimal, decimal_usize, hex_num, hex_u64, text};
use crate::trace::{Cycle, RamAccess, TraceBlock, REGISTER_COUNT};

verus! {

/// A RAM address is accepted exactly when it lies in the layout's interval
/// `[lowest_address, heap_end)` and is a whole number of 8-byte words above
/// `lowest_address`.
pub proof fn law_ram_address_is_an_aligned_word_in_range(
    layout: MemoryLayout,
    row: usize,
    address: u64,
)
    ensures
        ram_address_error(layout, row, address) is None <==> {
            &&& layout.lowest_address <= address < layout.heap_end
            &&& (address - layout.lowest_address) % 8 == 0
        },
{
}

/// Why a RAM access address is not a canonical final-row address, if it
/// is not: it must lie in `[lowest, heap_end)` and be 8-byte aligned
/// relative to `lowest`.
pub open spec fn ram_address_error(layout: MemoryLayout, row: usize, address: u64) -> Option<
    Seq<char>,
> {
    let lowest = layout.lowest_address;
    let highest = layout.heap_end;
    if address < lowest || address >= highest {
        Some(
            "RAM access at row "@ + dec(row as nat) + " uses address 0x"@ + hex_num(address as nat)
                + " outside the canonical Jolt memory interval [0x"@ + hex_num(lowest as nat)
                + ", 0x"@ + hex_num(highest as nat) + ")"@,
        )
    } else if (address - lowest) % 8 != 0 {
        Some(
            "RAM access at row "@ + dec(row as nat) + " uses non-canonical address 0x"@ + hex_num(
                address as nat,
            ) + "; final Jolt RAM rows must be 8-byte aligned relative to 0x"@ + hex_num(
                lowest as nat,
            ),
        )
    } else {
        None
    }
}

/// Checks that a RAM access of the given block row uses a canonical address.
pub fn validate_ram_address(
    preprocessing: &DirectChunkedPreprocessing,
    block_index: usize,
    row: usize,
    address: u64,
) -> (r: Result<(), DirectChunkedError>)
    ensures
        match ram_address_error(preprocessing.memory_layout, row, address) {
            None => r is Ok,
            Some(reason) => r matches Err(e) && e@ == ErrorModel::InvalidBlock {
                block_index: block_index as nat,
                reason,
            },
        },
{
    check_ram_address(&preprocessing.memory_layout, block_index, row, address)
}

/// Checks a RAM access address against a memory layout.
pub fn check_ram_address(
    layout: &MemoryLayout,
    block_index: usize,
    row: usize,
    address: u64,
) -> (r: Result<(), DirectChunkedError>)
    ensures
        match ram_address_error(*layout, row, address) {
            None => r is Ok,
            Some(reason) => r matches Err(e) && e@ == ErrorModel::InvalidBlock {
                block_index: block_index as nat,
                reason,
            },
        },
{
    let lowest = layout.lowest_address;
    let highest = layout.heap_end;
    if address < lowest || address >= highest {
        let reason = text("RAM access at row ").concat(decimal_usize(row).as_str());
        let reason = reason.concat(" uses address ").concat(hex_u64(address).as_str());
        let reason = reason.concat(" outside the canonical Jolt memory interval [").concat(
            hex_u64(lowest).as_str(),
        );
        let reason = reason.concat(", ").concat(hex_u64(highest).as_str()).concat(")");
        proof {
            assert(reason@ =~= "RAM access at row "@ + dec(row as nat) + " uses address 0x"@
                + hex_num(address as nat) + " outside the canonical Jolt memory interval [0x"@
                + hex_num(lowest as nat) + ", 0x"@ + hex_num(highest as nat) + ")"@) by {
                reveal_strlit("0x");
                reveal_strlit(" uses address ");
                reveal_strlit(" uses address 0x");
                reveal_strlit(" outside the canonical Jolt memory interval [");
                reveal_strlit(" outside the canonical Jolt memory interval [0x");
                reveal_strlit(", ");
                reveal_strlit(", 0x");
            }
        }
        return Err(DirectChunkedError::InvalidBlock { block_index, reason });
    }
    if (address - lowest) % 8 != 0 {
        let reason = text("RAM access at row ").concat(decimal_usize(row).as_str());
        let reason = reason.concat(" uses non-canonical address ").concat(
            hex_u64(address).as_str(),
        );
        let reason = reason.concat("; final Jolt RAM rows must be 8-byte aligned relative to ").concat(
            hex_u64(lowest).as_str(),
        );
        proof {
            assert(reason@ =~= "RAM access at row "@ + dec(row as nat)
                + " uses non-canonical address 0x"@ + hex_num(address as nat)
                + "; final Jolt RAM rows must be 8-byte aligned relative to 0x"@ + hex_num(
                lowest as nat,
            )) by {
                reveal_strlit("0x");
                reveal_strlit(" uses non-canonical address ");
                reveal_strlit(" uses non-canonical address 0x");
                reveal_strlit("; final Jolt RAM rows must be 8-byte aligned relative to ");
                reveal_strlit("; final Jolt RAM rows must be 8-byte aligned relative to 0x");
            }
        }
        return Err(DirectChunkedError::InvalidBlock { block_index, reason });
    }
    Ok(())
}

/// The address and first-touch value of a cycle's RAM access: a read
/// contributes the value read, a write the value it overwrote.
pub open spec fn cycle_touch(cycle: Cycle) -> Option<(u64, u64)> {
    match cycle.ram_access {
        RamAccess::Read { address, value } => Some((address, value)),
        RamAccess::Write { address, pre_value, post_value } => Some((address, pre_value)),
        RamAccess::NoOp => None,
    }
}

/// The address a cycle's RAM access touches, if any.
pub open spec fn cycle_ram_address(cycle: Cycle) -> Option<u64> {
    match cycle_touch(cycle) {
        Some((address, _)) => Some(address),
        None => None,
    }
}

/// The RAM touches of the cycles, in order.
pub open spec fn cycle_touches(cycles: Seq<Cycle>) -> Seq<(u64, u64)>
    decreases cycles.len(),
{
    if cycles.len() == 0 {
        Seq::empty()
    } else {
        cycle_touches(cycles.drop_last()) + match cycle_touch(cycles.last()) {
            Some(t) => seq![t],
            None => Seq::empty(),
        }
    }
}

/// The RAM touches of the blocks' cycles, in trace order.
pub open spec fn block_touches(blocks: Seq<TraceBlock>) -> Seq<(u64, u64)>
    decreases blocks.len(),
{
    if blocks.len() == 0 {
        Seq::empty()
    } else {
        block_touches(blocks.drop_last()) + cycle_touches(blocks.last().cycles@)
    }
}

/// The value of the first touch of `address`, if it is touched.
pub open spec fn first_touch(touches: Seq<(u64, u64)>, address: u64) -> Option<u64>
    decreases touches.len(),
{
    if touches.len() == 0 {
        None
    } else {
        match first_touch(touches.drop_last(), address) {
            Some(v) => Some(v),
            None => if touches.last().0 == address {
                Some(touches.last().1)
            } else {
                None
            },
        }
    }
}

/// The value the first entry for `address` holds, if any.
pub open spec fn ram_lookup(entries: Seq<(u64, u64)>, address: u64) -> Option<u64>
    decreases entries.len(),
{
    if entries.len() == 0 {
        None
    } else if entries[0].0 == address {
        Some(entries[0].1)
    } else {
        ram_lookup(entries.drop_first(), address)
    }
}

/// Entries are ordered by strictly increasing address.
pub open spec fn strictly_sorted(entries: Seq<(u64, u64)>) -> bool {
    forall|i: int, j: int| 0 <= i < j < entries.len() ==> entries[i].0 < entries[j].0
}

proof fn lemma_lookup_absent(entries: Seq<(u64, u64)>, b: u64)
    requires
        forall|i: int| 0 <= i < entries.len() ==> entries[i].0 != b,
    ensures
        ram_lookup(entries, b) is None,
    decreases entries.len(),
{
    if entries.len() > 0 {
        lemma_lookup_absent(entries.drop_first(), b);
    }
}

proof fn lemma_lookup_found(entries: Seq<(u64, u64)>, p: int)
    requires
        0 <= p < entries.len(),
        forall|i: int| 0 <= i < p ==> entries[i].0 != entries[p].0,
    ensures
        ram_lookup(entries, entries[p].0) == Some(entries[p].1),
    decreases p,
{
    if p > 0 {
        lemma_lookup_found(entries.drop_first(), p - 1);
    }
}

/// The value a table holds for `address`, if any.
pub open spec fn table_get(table: Map<u64, u64>, address: u64) -> Option<u64> {
    if table.contains_key(address) {
        Some(table[address])
    } else {
        None
    }
}

/// The columns `(addresses[i], values[i])` as a sequence of pairs.
pub open spec fn zip_columns(addresses: Seq<u64>, values: Seq<u64>) -> Seq<(u64, u64)> {
    Seq::new(addresses.len(), |i: int| (addresses[i], values[i]))
}

/// First-touch RAM table: the value of the first access to each address.
#[derive(Clone, Debug, PartialEq, Eq)]
pub struct RamTable {
    pub entries: BTreeMap<u64, u64>,
}

impl View for RamTable {
    type V = Map<u64, u64>;

    open spec fn view(&self) -> Map<u64, u64> {
        self.entries@
    }
}

impl RamTable {
    /// The empty table.
    pub fn new() -> (t: RamTable)
        ensures
            t@ == Map::<u64, u64>::empty(),
    {
        RamTable { entries: BTreeMap::new() }
    }

    /// Records `value` for `address` unless the address is already present.
    pub fn insert_if_absent(&mut self, address: u64, value: u64)
        ensures
            final(self)@ == if old(self)@.contains_key(address) {
                old(self)@
            } else {
                old(self)@.insert(address, value)
            },
            forall|b: u64|
                #![trigger table_get(final(self)@, b)]
                table_get(final(self)@, b) == if table_get(old(self)@, address) is Some || b
                    != address {
                    table_get(old(self)@, b)
                } else {
                    Some(value)
                },
    {
        if !self.entries.contains_key(&address) {
            self.entries.insert(address, value);
        }
    }

    /// The number of addresses in the table.
    pub fn len(&self) -> (r: usize)
        ensures
            r == self@.len(),
            self@.dom().finite(),
    {
        self.entries.len()
    }

    /// The addresses of the table in increasing order, with their values.
    pub fn sorted_columns(&self) -> (r: (Vec<u64>, Vec<u64>))
        ensures
            r.0@.len() == r.1@.len(),
            r.0@.len() == self@.len(),
            strictly_sorted(zip_columns(r.0@, r.1@)),
            forall|a: u64|
                #![trigger ram_lookup(zip_columns(r.0@, r.1@), a)]
                ram_lookup(zip_columns(r.0@, r.1@), a) == table_get(self@, a),
    {
        let ghost m = self@;
        let entries = self.entries.iter();
        let ghost items = entries.remaining();
        proof {
            let keys = items.map_values(|kv: (&u64, &u64)| *kv.0);
            assert forall|i: int, j: int| 0 <= i < j < items.len() implies *#[trigger] items[i].0
                < *#[trigger] items[j].0 by {
                assert(keys[i] == *items[i].0 && keys[j] == *items[j].0);
                assert(keys[i].cmp_spec(&keys[j]) is Less);
            }
        }
        let mut addresses: Vec<u64> = Vec::new();
        let mut values: Vec<u64> = Vec::new();
        for (k, v) in it: entries
            invariant
                it.seq() == items,
                addresses@.len() == it.index(),
                values@.len() == it.index(),
                forall|j: int|
                    0 <= j < addresses@.len() ==> addresses@[j] == *items[j].0 && values@[j]
                        == *items[j].1,
        {
            addresses.push(*k);
            values.push(*v);
        }
        let ghost pairs = zip_columns(addresses@, values@);
        assert(addresses@.len() == items.len());
        assert forall|i: int| 0 <= i < pairs.len() implies pairs[i] == (
            *items[i].0,
            *items[i].1,
        ) by {}
        assert forall|a: u64| #[trigger] m.contains_key(a) implies exists|p: int|
            0 <= p < pairs.len() && pairs[p] == (a, m[a]) by {
            assert(items.contains((&a, &m[a])));
            let p = choose|p: int| 0 <= p < items.len() && items[p] == (&a, &m[a]);
            assert(pairs[p] == (a, m[a]));
        }
        proof {
            assert forall|a: u64| #![trigger ram_lookup(pairs, a)] ram_lookup(pairs, a)
                == table_get(m, a) by {
                if m.contains_key(a) {
                    let p = choose|p: int| 0 <= p < pairs.len() && pairs[p] == (a, m[a]);
                    lemma_lookup_found(pairs, p);
                } else {
                    assert forall|i: int| 0 <= i < pairs.len() implies pairs[i].0 != a by {
                        assert(m.contains_key(*items[i].0));
                    }
                    lemma_lookup_absent(pairs, a);
                }
            }
        }
        (addresses, values)
    }
}

/// The number of entries a RAM Merkle tree over `address_count` addresses
/// has: the least power of two that is at least `max(address_count, 1)`.
pub fn tree_size(address_count: usize) -> (r: usize)
    requires
        address_count <= usize::MAX / 2 + 1,
    ensures
        is_next_pow2(if address_count >= 1 { address_count as nat } else { 1 }, r as nat),
{
    next_power_of_two(max_usize(address_count, 1))
}

/// The sorted addresses and first-touch values of every RAM address the
/// blocks touch: for each touched address, the value of its first access in
/// trace order (the value read, or the value a write overwrote).
pub fn initial_ram_table(blocks: &[TraceBlock]) -> (r: (Vec<u64>, Vec<u64>))
    ensures
        r.0@.len() == r.1@.len(),
        strictly_sorted(zip_columns(r.0@, r.1@)),
        forall|a: u64|
            #![trigger first_touch(block_touches(blocks@), a)]
            ram_lookup(zip_columns(r.0@, r.1@), a) == first_touch(
                block_touches(blocks@),
                a,
            ),
{
    let mut table = RamTable::new();
    let mut b: usize = 0;
    assert(blocks@.take(0) =~= Seq::<TraceBlock>::empty());
    while b < blocks.len()
        invariant
            0 <= b <= blocks@.len(),
            forall|a: u64|
                #![trigger table_get(table@, a)]
                table_get(table@, a) == first_touch(block_touches(blocks@.take(b as int)), a),
        decreases blocks@.len() - b,
    {
        let block = &blocks[b];
        let ghost before = block_touches(blocks@.take(b as int));
        let mut c: usize = 0;
        assert(block.cycles@.take(0) =~= Seq::<Cycle>::empty());
        assert(before + cycle_touches(block.cycles@.take(0)) =~= before);
        while c < block.cycles.len()
            invariant
                0 <= c <= block.cycles@.len(),
                forall|a: u64|
                    #![trigger table_get(table@, a)]
                    table_get(table@, a) == first_touch(
                        before + cycle_touches(block.cycles@.take(c as int)),
                        a,
                    ),
            decreases block.cycles@.len() - c,
        {
            let ghost prev = before + cycle_touches(block.cycles@.take(c as int));
            proof {
                assert(block.cycles@.take(c + 1).drop_last() =~= block.cycles@.take(c as int));
                assert(block.cycles@.take(c + 1).last() == block.cycles@[c as int]);
            }
            match block.cycles[c].ram_access {
                RamAccess::Read { address, value } => {
                    table.insert_if_absent(address, value);
                    proof {
                        let next = before + cycle_touches(block.cycles@.take(c + 1));
                        assert(next =~= prev.push((address, value)));
                        assert(next.drop_last() =~= prev);
                    }
                },
                RamAccess::Write { address, pre_value, post_value } => {
                    table.insert_if_absent(address, pre_value);
                    proof {
                        let next = before + cycle_touches(block.cycles@.take(c + 1));
                        assert(next =~= prev.push((address, pre_value)));
                        assert(next.drop_last() =~= prev);
                    }
                },
                RamAccess::NoOp => {
                    proof {
                        let next = before + cycle_touches(block.cycles@.take(c + 1));
                        assert(next =~= prev);
                    }
                },
            }
            c = c + 1;
        }
        proof {
            assert(block.cycles@.take(block.cycles@.len() as int) =~= block.cycles@);
            assert(blocks@.take(b + 1).drop_last() =~= blocks@.take(b as int));
            assert(blocks@.take(b + 1).last() == *block);
        }
        b = b + 1;
    }
    assert(blocks@.take(blocks@.len() as int) =~= blocks@);
    let columns = table.sorted_columns();
    proof {
        assert forall|a: u64| #![trigger first_touch(block_touches(blocks@), a)] ram_lookup(
            zip_columns(columns.0@, columns.1@),
            a,
        ) == first_touch(block_touches(blocks@), a) by {
            assert(table_get(table@, a) == first_touch(block_touches(blocks@), a));
        }
    }
    columns
}

/// Checks every RAM access address of the blocks, in trace order.
pub open spec fn first_ram_address_error(
    pre: DirectChunkedPreprocessing,
    blocks: Seq<TraceBlock>,
) -> Option<ErrorModel>
    decreases blocks.len(),
{
    if blocks.len() == 0 {
        None
    } else {
        match first_ram_address_error(pre, blocks.drop_last()) {
            Some(e) => Some(e),
            None => match first_row_address_error(pre.memory_layout, blocks.last().cycles@) {
                Some(reason) => Some(
                    ErrorModel::InvalidBlock {
                        block_index: blocks.last().block_index as nat,
                        reason,
                    },
                ),
                None => None,
            },
        }
    }
}

/// The first row of the cycles whose RAM access address is not canonical,
/// as its error reason.
pub open spec fn first_row_address_error(layout: MemoryLayout, cycles: Seq<Cycle>) -> Option<
    Seq<char>,
>
    decreases cycles.len(),
{
    if cycles.len() == 0 {
        None
    } else {
        match first_row_address_error(layout, cycles.drop_last()) {
            Some(e) => Some(e),
            None => match cycle_ram_address(cycles.last()) {
                Some(address) => ram_address_error(layout, (cycles.len() - 1) as usize, address),
                None => None,
            },
        }
    }
}

/// Validates every RAM access address of the blocks, failing at the first
/// non-canonical one in trace order.
pub fn validate_trace_ram_addresses(
    preprocessing: &DirectChunkedPreprocessing,
    blocks: &[TraceBlock],
) -> (r: Result<(), DirectChunkedError>)
    ensures
        match first_ram_address_error(*preprocessing, blocks@) {
            None => r is Ok,
            Some(e) => r matches Err(err) && err@ == e,
        },
{
    let mut b: usize = 0;
    assert(blocks@.take(0) =~= Seq::<TraceBlock>::empty());
    while b < blocks.len()
        invariant
            0 <= b <= blocks@.len(),
            first_ram_address_error(*preprocessing, blocks@.take(b as int)) is None,
        decreases blocks@.len() - b,
    {
        let block = &blocks[b];
        proof {
            assert(blocks@.take(b + 1).drop_last() =~= blocks@.take(b as int));
            assert(blocks@.take(b + 1).last() == *block);
        }
        let mut row: usize = 0;
        assert(block.cycles@.take(0) =~= Seq::<Cycle>::empty());
        while row < block.cycles.len()
            invariant
                0 <= row <= block.cycles@.len(),
                b < blocks@.len(),
                first_ram_address_error(*preprocessing, blocks@.take(b as int)) is None,
                blocks@.take(b + 1).drop_last() == blocks@.take(b as int),
                blocks@.take(b + 1).last() == *block,
                first_row_address_error(
                    preprocessing.memory_layout,
                    block.cycles@.take(row as int),
                ) is None,
            decreases block.cycles@.len() - row,
        {
            proof {
                assert(block.cycles@.take(row + 1).drop_last() =~= block.cycles@.take(row as int));
                assert(block.cycles@.take(row + 1).last() == block.cycles@[row as int]);
            }
            let address = match block.cycles[row].ram_access {
                RamAccess::Read { address, value } => Some(address),
                RamAccess::Write { address, pre_value, post_value } => Some(address),
                RamAccess::NoOp => None,
            };
            if let Some(address) = address {
                let checked = validate_ram_address(preprocessing, block.block_index, row, address);
                if let Err(e) = checked {
                    proof {
                        lemma_row_error_persists(
                            preprocessing.memory_layout,
                            block.cycles@,
                            (row + 1) as nat,
                        );
                        lemma_ram_error_persists(*preprocessing, blocks@, (b + 1) as nat);
                    }
                    return Err(e);
                }
            }
            row = row + 1;
        }
        assert(block.cycles@.take(block.cycles@.len() as int) =~= block.cycles@);
        b = b + 1;
    }
    assert(blocks@.take(blocks@.len() as int) =~= blocks@);
    Ok(())
}

pub proof fn lemma_row_error_persists(layout: MemoryLayout, cycles: Seq<Cycle>, n: nat)
    requires
        n <= cycles.len(),
        first_row_address_error(layout, cycles.take(n as int)) is Some,
    ensures
        first_row_address_error(layout, cycles) == first_row_address_error(
            layout,
            cycles.take(n as int),
        ),
    decreases cycles.len() - n,
{
    if n < cycles.len() {
        assert(cycles.take(n + 1 as int).drop_last() =~= cycles.take(n as int));
        lemma_row_error_persists(layout, cycles, n + 1);
    } else {
        assert(cycles.take(n as int) =~= cycles);
    }
}

proof fn lemma_ram_error_persists(pre: DirectChunkedPreprocessing, blocks: Seq<TraceBlock>, n: nat)
    requires
        n <= blocks.len(),
        first_ram_address_error(pre, blocks.take(n as int)) is Some,
    ensures
        first_ram_address_error(pre, blocks) == first_ram_address_error(pre, blocks.take(n as int)),
    decreases blocks.len() - n,
{
    if n < blocks.len() {
        assert(blocks.take(n + 1 as int).drop_last() =~= blocks.take(n as int));
        lemma_ram_error_persists(pre, blocks, n + 1);
    } else {
        assert(blocks.take(n as int) =~= blocks);
    }
}

// ---------------------------------------------------------------------------
// Memory consistency of RAM accesses
// ---------------------------------------------------------------------------

/// Addresses in strictly increasing order.
pub open spec fn addresses_increasing(addresses: Seq<u64>) -> bool {
    forall|i: int, j: int| 0 <= i < j < addresses.len() ==> addresses[i] < addresses[j]
}

/// `address` is one of the tracked addresses.
pub open spec fn tracks_address(addresses: Seq<u64>, address: u64) -> bool {
    exists|i: int| 0 <= i < addresses.len() && addresses[i] == address
}

/// The position of a tracked address.
pub open spec fn address_index(addresses: Seq<u64>, address: u64) -> int {
    choose|i: int| 0 <= i < addresses.len() && addresses[i] == address
}

/// Every RAM access of the cycles touches a tracked address.
pub open spec fn accesses_tracked(addresses: Seq<u64>, cycles: Seq<Cycle>) -> bool {
    forall|i: int|
        0 <= i < cycles.len() ==> match #[trigger] cycle_ram_address(cycles[i]) {
            Some(a) => tracks_address(addresses, a),
            None => true,
        }
}

/// Why a RAM access at `row` disagrees with the memory before it, if it
/// does: a read must return, and a write must overwrite, the current value.
pub open spec fn ram_access_error(
    addresses: Seq<u64>,
    memory: Seq<u64>,
    row: nat,
    access: RamAccess,
) -> Option<Seq<char>> {
    match access {
        RamAccess::Read { address, value } => {
            let current = memory[address_index(addresses, address)];
            if current != value {
                Some(
                    "RAM read at row "@ + dec(row) + ", address 0x"@ + hex_num(address as nat)
                        + " has value "@ + dec(value as nat) + ", expected "@ + dec(
                        current as nat,
                    ),
                )
            } else {
                None
            }
        },
        RamAccess::Write { address, pre_value, post_value } => {
            let current = memory[address_index(addresses, address)];
            if current != pre_value {
                Some(
                    "RAM write at row "@ + dec(row) + ", address 0x"@ + hex_num(address as nat)
                        + " has pre-value "@ + dec(pre_value as nat) + ", expected "@ + dec(
                        current as nat,
                    ),
                )
            } else {
                None
            }
        },
        RamAccess::NoOp => None,
    }
}

/// The memory after one access: a write stores its new value.
pub open spec fn apply_ram_access(addresses: Seq<u64>, memory: Seq<u64>, access: RamAccess) -> Seq<
    u64,
> {
    match access {
        RamAccess::Write { address, pre_value, post_value } => memory.update(
            address_index(addresses, address),
            post_value,
        ),
        _ => memory,
    }
}

/// The memory after the cycles' accesses in order, up to the first access
/// that disagrees with it, and that disagreement.
pub open spec fn ram_replay(addresses: Seq<u64>, memory: Seq<u64>, cycles: Seq<Cycle>) -> (
    Seq<u64>,
    Option<Seq<char>>,
)
    decreases cycles.len(),
{
    if cycles.len() == 0 {
        (memory, None)
    } else {
        let (before, error) = ram_replay(addresses, memory, cycles.drop_last());
        if error is Some {
            (before, error)
        } else {
            let access = cycles.last().ram_access;
            match ram_access_error(addresses, before, (cycles.len() - 1) as nat, access) {
                Some(reason) => (before, Some(reason)),
                None => (apply_ram_access(addresses, before, access), None),
            }
        }
    }
}

/// The value of `address` after the cycles: the value of the last write to
/// it, or its value in `memory` when no cycle writes it.
pub open spec fn ram_value_after(
    addresses: Seq<u64>,
    memory: Seq<u64>,
    cycles: Seq<Cycle>,
    address: u64,
) -> u64
    decreases cycles.len(),
{
    if cycles.len() == 0 {
        memory[address_index(addresses, address)]
    } else {
        match cycles.last().ram_access {
            RamAccess::Write { address: a, pre_value, post_value } => if a == address {
                post_value
            } else {
                ram_value_after(addresses, memory, cycles.drop_last(), address)
            },
            _ => ram_value_after(addresses, memory, cycles.drop_last(), address),
        }
    }
}

proof fn lemma_index_unique(addresses: Seq<u64>, address: u64, i: int)
    requires
        addresses_increasing(addresses),
        0 <= i < addresses.len(),
        addresses[i] == address,
    ensures
        address_index(addresses, address) == i,
{
    let j = address_index(addresses, address);
    assert(0 <= j < addresses.len() && addresses[j] == address);
    if j < i {
        assert(addresses[j] < addresses[i]);
    } else if j > i {
        assert(addresses[i] < addresses[j]);
    }
}

fn find_address(addresses: &[u64], address: u64) -> (i: usize)
    requires
        addresses_increasing(addresses@),
        tracks_address(addresses@, address),
    ensures
        i as int == address_index(addresses@, address),
        i < addresses@.len(),
{
    let ghost target = address_index(addresses@, address);
    proof {
        assert(0 <= target < addresses@.len() && addresses@[target] == address);
    }
    let mut low: usize = 0;
    let mut high: usize = addresses.len() - 1;
    while low < high
        invariant
            addresses_increasing(addresses@),
            0 <= target < addresses@.len(),
            addresses@[target] == address,
            low <= target <= high,
            high < addresses@.len(),
        decreases high - low,
    {
        let mid = low + (high - low) / 2;
        if addresses[mid] < address {
            proof {
                if target <= mid {
                    if target < mid {
                        assert(addresses@[target] < addresses@[mid as int]);
                    }
                }
            }
            low = mid + 1;
        } else {
            proof {
                if target > mid {
                    assert(addresses@[mid as int] < addresses@[target]);
                }
            }
            high = mid;
        }
    }
    proof {
        lemma_index_unique(addresses@, address, low as int);
    }
    low
}

/// Checks the RAM accesses of a block's cycles against the memory, in
/// order: a read must return the current value of its address and a write
/// must overwrite it; each write then stores its new value. On a failing
/// access the memory holds the writes before it.
pub fn apply_ram_block(
    block_index: usize,
    addresses: &[u64],
    memory: &mut Vec<u64>,
    cycles: &[Cycle],
) -> (r: Result<(), DirectChunkedError>)
    requires
        addresses_increasing(addresses@),
        old(memory)@.len() == addresses@.len(),
        accesses_tracked(addresses@, cycles@),
    ensures
        final(memory)@ == ram_replay(addresses@, old(memory)@, cycles@).0,
        match ram_replay(addresses@, old(memory)@, cycles@).1 {
            None => r is Ok,
            Some(reason) => r matches Err(e) && e@ == ErrorModel::InvalidBlock {
                block_index: block_index as nat,
                reason,
            },
        },
{
    let ghost start = memory@;
    let mut row: usize = 0;
    assert(cycles@.take(0) =~= Seq::<Cycle>::empty());
    while row < cycles.len()
        invariant
            0 <= row <= cycles@.len(),
            addresses_increasing(addresses@),
            accesses_tracked(addresses@, cycles@),
            memory@.len() == addresses@.len(),
            start == old(memory)@,
            ram_replay(addresses@, start, cycles@.take(row as int)) == (memory@, None::<Seq<char>>),
        decreases cycles@.len() - row,
    {
        proof {
            assert(cycles@.take(row + 1).drop_last() =~= cycles@.take(row as int));
            assert(cycles@.take(row + 1).last() == cycles@[row as int]);
            assert(cycle_ram_address(cycles@[row as int]) == cycle_ram_address(cycles@[row as int]));
        }
        match cycles[row].ram_access {
            RamAccess::Read { address, value } => {
                let index = find_address(addresses, address);
                if memory[index] != value {
                    let reason = text("RAM read at row ").concat(decimal_usize(row).as_str());
                    let reason = reason.concat(", address ").concat(hex_u64(address).as_str());
                    let reason = reason.concat(" has value ").concat(decimal(value).as_str());
                    let reason = reason.concat(", expected ").concat(decimal(memory[index]).as_str());
                    proof {
                        assert(reason@ =~= "RAM read at row "@ + dec(row as nat) + ", address 0x"@
                            + hex_num(address as nat) + " has value "@ + dec(value as nat)
                            + ", expected "@ + dec(memory@[index as int] as nat)) by {
                            reveal_strlit("0x");
                            reveal_strlit(", address ");
                            reveal_strlit(", address 0x");
                        }
                        lemma_ram_replay_error_persists(addresses@, start, cycles@, (row + 1) as nat);
                    }
                    return Err(DirectChunkedError::InvalidBlock { block_index, reason });
                }
            },
            RamAccess::Write { address, pre_value, post_value } => {
                let index = find_address(addresses, address);
                if memory[index] != pre_value {
                    let reason = text("RAM write at row ").concat(decimal_usize(row).as_str());
                    let reason = reason.concat(", address ").concat(hex_u64(address).as_str());
                    let reason = reason.concat(" has pre-value ").concat(decimal(pre_value).as_str());
                    let reason = reason.concat(", expected ").concat(decimal(memory[index]).as_str());
                    proof {
                        assert(reason@ =~= "RAM write at row "@ + dec(row as nat) + ", address 0x"@
                            + hex_num(address as nat) + " has pre-value "@ + dec(pre_value as nat)
                            + ", expected "@ + dec(memory@[index as int] as nat)) by {
                            reveal_strlit("0x");
                            reveal_strlit(", address ");
                            reveal_strlit(", address 0x");
                        }
                        lemma_ram_replay_error_persists(addresses@, start, cycles@, (row + 1) as nat);
                    }
                    return Err(DirectChunkedError::InvalidBlock { block_index, reason });
                }
                memory.set(index, post_value);
            },
            RamAccess::NoOp => {},
        }
        row = row + 1;
    }
    assert(cycles@.take(cycles@.len() as int) =~= cycles@);
    Ok(())
}

proof fn lemma_ram_replay_error_persists(
    addresses: Seq<u64>,
    memory: Seq<u64>,
    cycles: Seq<Cycle>,
    n: nat,
)
    requires
        n <= cycles.len(),
        ram_replay(addresses, memory, cycles.take(n as int)).1 is Some,
    ensures
        ram_replay(addresses, memory, cycles) == ram_replay(addresses, memory, cycles.take(n as int)),
    decreases cycles.len() - n,
{
    if n < cycles.len() {
        assert(cycles.take(n + 1 as int).drop_last() =~= cycles.take(n as int));
        lemma_ram_replay_error_persists(addresses, memory, cycles, n + 1);
    } else {
        assert(cycles.take(n as int) =~= cycles);
    }
}

proof fn lemma_ram_replay_state(
    addresses: Seq<u64>,
    memory: Seq<u64>,
    cycles: Seq<Cycle>,
    address: u64,
)
    requires
        addresses_increasing(addresses),
        memory.len() == addresses.len(),
        accesses_tracked(addresses, cycles),
        tracks_address(addresses, address),
        ram_replay(addresses, memory, cycles).1 is None,
    ensures
        ram_replay(addresses, memory, cycles).0.len() == memory.len(),
        ram_replay(addresses, memory, cycles).0[address_index(addresses, address)]
            == ram_value_after(addresses, memory, cycles, address),
    decreases cycles.len(),
{
    if cycles.len() > 0 {
        let prefix = cycles.drop_last();
        assert(accesses_tracked(addresses, prefix)) by {
            assert forall|i: int| 0 <= i < prefix.len() implies match #[trigger] cycle_ram_address(
                prefix[i],
            ) {
                Some(a) => tracks_address(addresses, a),
                None => true,
            } by {
                assert(prefix[i] == cycles[i]);
            }
        }
        lemma_ram_replay_state(addresses, memory, prefix, address);
        let last = cycles.last();
        assert(cycle_ram_address(cycles[cycles.len() - 1]) == cycle_ram_address(last));
        match last.ram_access {
            RamAccess::Write { address: a, pre_value, post_value } => {
                let i = address_index(addresses, address);
                let j = address_index(addresses, a);
                assert(0 <= j < addresses.len() && addresses[j] == a);
                assert(0 <= i < addresses.len() && addresses[i] == address);
                if a != address {
                    assert(i != j);
                }
            },
            _ => {},
        }
    }
}

/// A RAM read returns the last value written: when every access of the
/// cycles agrees with the memory replayed from `memory`, each read returns
/// the value of the last earlier write to its address, or the address's
/// value in `memory` when no earlier cycle writes it.
pub proof fn law_ram_read_sees_last_write(
    addresses: Seq<u64>,
    memory: Seq<u64>,
    cycles: Seq<Cycle>,
    j: int,
)
    requires
        addresses_increasing(addresses),
        memory.len() == addresses.len(),
        accesses_tracked(addresses, cycles),
        ram_replay(addresses, memory, cycles).1 is None,
        0 <= j < cycles.len(),
    ensures
        cycles[j].ram_access matches RamAccess::Read { address, value } ==> value
            == ram_value_after(addresses, memory, cycles.take(j), address),
        cycles[j].ram_access matches RamAccess::Write { address, pre_value, post_value }
            ==> pre_value == ram_value_after(addresses, memory, cycles.take(j), address),
{
    let pre = cycles.take(j);
    if ram_replay(addresses, memory, cycles.take(j + 1)).1 is Some {
        lemma_ram_replay_error_persists(addresses, memory, cycles, (j + 1) as nat);
    }
    if ram_replay(addresses, memory, pre).1 is Some {
        lemma_ram_replay_error_persists(addresses, memory, cycles, j as nat);
    }
    assert(cycles.take(j + 1).drop_last() =~= pre);
    assert(cycles.take(j + 1).last() == cycles[j]);
    assert(accesses_tracked(addresses, pre)) by {
        assert forall|i: int| 0 <= i < pre.len() implies match #[trigger] cycle_ram_address(pre[i]) {
            Some(a) => tracks_address(addresses, a),
            None => true,
        } by {
            assert(pre[i] == cycles[i]);
        }
    }
    assert(cycle_ram_address(cycles[j]) == cycle_ram_address(cycles[j]));
    match cycles[j].ram_access {
        RamAccess::Read { address, value } => {
            lemma_ram_replay_state(addresses, memory, pre, address);
        },
        RamAccess::Write { address, pre_value, post_value } => {
            lemma_ram_replay_state(addresses, memory, pre, address);
        },
        RamAccess::NoOp => {},
    }
}

/// Authenticated RAM transition of one row. Field elements are carried in
/// their 32-byte canonical storage form.
#[derive(Clone, Debug, PartialEq, Eq)]
pub struct DirectRamCycleWitness {
    pub active: bool,
    /// 0 = no-op, 1 = read, 2 = write.
    pub kind: u8,
    pub address: u64,
    pub read_value: u64,
    pub write_value: u64,
    pub leaf_index: u64,
    /// Siblings from leaf level to root for the immutable address registry.
    pub registry_path: Vec<[u8; 32]>,
    /// Siblings from leaf level to root for the mutable memory tree.
    pub memory_path: Vec<[u8; 32]>,
    pub root_before: [u8; 32],
    pub root_after: [u8; 32],
}

#[derive(Clone, Debug, PartialEq, Eq)]
pub struct DirectRamBlockWitness {
    pub block_index: usize,
    pub global_cycle_start: usize,
    pub active_cycles: usize,
    pub cycle_capacity: usize,
    pub terminated: bool,
    pub address_count: usize,
    pub tree_depth: usize,
    pub registry_root: [u8; 32],
    pub start_root: [u8; 32],
    pub end_root: [u8; 32],
    pub query_root: [u8; 32],
    pub cycles: Vec<DirectRamCycleWitness>,
}

#[derive(Clone, Debug, PartialEq, Eq)]
pub struct DirectRamSubclaim {
    pub block: DirectRamBlockWitness,
    pub transcript_state_before: [u8; 32],
    pub transcript_round_before: u32,
    pub transcript_state_after: [u8; 32],
    pub transcript_round_after: u32,
}

#[derive(Clone, Debug, PartialEq, Eq)]
pub struct DirectRamStageStatement {
    pub program_digest: [u8; 32],
    pub lookup_table_commitment: [u8; 32],
    pub block_count: usize,
    pub total_cycles: usize,
    pub initial_registers: [u64; REGISTER_COUNT],
    pub final_registers: [u64; REGISTER_COUNT],
    pub ram_addresses: Vec<u64>,
    pub ram_registry_root: [u8; 32],
    pub initial_ram_root: [u8; 32],
    pub final_ram_root: [u8; 32],
    pub terminated: bool,
    pub relations: RelationMap,
}

} // verus!
