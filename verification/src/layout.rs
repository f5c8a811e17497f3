//! The memory map: an address for every item, in program order.

use vstd::prelude::*;
use crate::parser::{Fault, FaultKind, ParsedItem, Symbol};

verus! {

/// The number of bytes that an item takes: one 32-bit word each.
pub open spec fn item_size(item: ParsedItem) -> int {
    4
}

/// The address of item `k`: the sizes of the items before it, from base 0.
/// For `k == items.len()` it is the address behind the last item.
pub open spec fn address_of(items: Seq<ParsedItem>, k: int) -> int
    decreases k,
{
    if k <= 0 {
        0
    } else {
        address_of(items, k - 1) + item_size(items[k - 1])
    }
}

/// The location that an item was parsed at.
pub open spec fn item_location(item: ParsedItem) -> crate::error::SourceLocation {
    match item {
        ParsedItem::Instruction(ins) => ins.location,
        ParsedItem::Word { location, .. } => location,
    }
}

/// The index of the first item from `k` on that ends behind the 32-bit
/// address space, or `items.len()` where all fit.
pub open spec fn first_overflow(items: Seq<ParsedItem>, k: int) -> int
    decreases items.len() - k,
{
    if k < 0 || k >= items.len() {
        items.len() as int
    } else if address_of(items, k + 1) > u32::MAX {
        k
    } else {
        first_overflow(items, k + 1)
    }
}

/// The address of every item, and the cursor behind the last one.
pub struct MemoryMap {
    pub addresses: Vec<u32>,
    pub cursor: u32,
}

impl MemoryMap {
    /// Whether this is the layout of `items`.
    pub open spec fn describes(&self, items: Seq<ParsedItem>) -> bool {
        &&& self.addresses@.len() == items.len()
        &&& forall|k: int| 0 <= k < items.len() ==> self.addresses@[k] == address_of(items, k)
        &&& self.cursor == address_of(items, items.len() as int)
    }

    /// The layout of no items.
    pub fn new() -> (map: MemoryMap)
        ensures
            map.describes(Seq::empty()),
    {
        MemoryMap { addresses: Vec::new(), cursor: 0 }
    }
}

/// Addresses never decrease, each item starts where the one before it
/// ends, and every address is word-aligned.
pub proof fn lemma_layout_monotone(items: Seq<ParsedItem>, k: int)
    requires
        0 <= k < items.len(),
    ensures
        address_of(items, k) <= address_of(items, k + 1),
        address_of(items, k + 1) == address_of(items, k) + item_size(items[k]),
        address_of(items, k) % 4 == 0,
        address_of(items, k) >= 0,
    decreases k,
{
    if k > 0 {
        lemma_layout_monotone(items, k - 1);
    }
}

/// An item that lies before another has no greater address.
pub proof fn lemma_layout_ordered(items: Seq<ParsedItem>, a: int, b: int)
    requires
        0 <= a <= b <= items.len(),
    ensures
        0 <= address_of(items, a) <= address_of(items, b),
    decreases b - a,
{
    if a < b {
        lemma_layout_ordered(items, a, b - 1);
    } else if a > 0 {
        lemma_layout_monotone(items, a - 1);
    }
}

/// In a memory map, successive addresses never decrease and differ by
/// the size of the item between them; every address is word-aligned.
pub proof fn lemma_map_monotone(map: MemoryMap, items: Seq<ParsedItem>, k: int)
    requires
        map.describes(items),
        0 <= k < items.len(),
    ensures
        map.addresses@[k] % 4 == 0,
        k + 1 < items.len() ==> map.addresses@[k] <= map.addresses@[k + 1] && map.addresses@[k
            + 1] - map.addresses@[k] == item_size(items[k]),
        k + 1 == items.len() ==> map.addresses@[k] <= map.cursor && map.cursor
            - map.addresses@[k] == item_size(items[k]),
{
    lemma_layout_monotone(items, k);
}

fn size_of_item(item: ParsedItem) -> (n: u32)
    ensures
        n == item_size(item),
{
    4
}

fn location_of_item(item: ParsedItem) -> (l: crate::error::SourceLocation)
    ensures
        l == item_location(item),
{
    match item {
        ParsedItem::Instruction(ins) => ins.location,
        ParsedItem::Word { location, .. } => location,
    }
}

/// Assigns each item its address, from base 0 in program order. Fails
/// where an item would end behind the 32-bit address space, at the first
/// such item.
pub fn allocate_memory(items: &Vec<ParsedItem>) -> (result: Result<MemoryMap, Fault>)
    ensures
        match result {
            Ok(map) => map.describes(items@) && first_overflow(items@, 0) == items.len(),
            Err(fault) => first_overflow(items@, 0) < items.len() && fault == (Fault {
                kind: FaultKind::AddressOverflow,
                location: item_location(items@[first_overflow(items@, 0)]),
            }),
        },
{
    let mut map = MemoryMap::new();
    let mut k: usize = 0;
    while k < items.len()
        invariant
            k <= items.len(),
            map.addresses@.len() == k,
            forall|j: int| 0 <= j < k ==> map.addresses@[j] == address_of(items@, j),
            map.cursor == address_of(items@, k as int),
            first_overflow(items@, 0) == first_overflow(items@, k as int),
        decreases items.len() - k,
    {
        let size = size_of_item(items[k]);
        if size > u32::MAX - map.cursor {
            return Err(
                Fault { kind: FaultKind::AddressOverflow, location: location_of_item(items[k]) },
            );
        }
        map.addresses.push(map.cursor);
        map.cursor = map.cursor + size;
        k += 1;
    }
    Ok(map)
}

/// The address that a label before item `item` stands for.
pub open spec fn label_address(addresses: Seq<u32>, cursor: u32, item: int) -> u32 {
    if 0 <= item < addresses.len() { addresses[item] } else { cursor }
}

/// A symbol once the layout is known: a defined label has the address of
/// the item it stands before.
pub open spec fn patched(symbol: Symbol, addresses: Seq<u32>, cursor: u32) -> Symbol {
    if symbol.definition_location is Some {
        Symbol { value: Some(label_address(addresses, cursor, symbol.item as int)), ..symbol }
    } else {
        symbol
    }
}

/// The symbol table once the layout is known.
pub open spec fn patch_all(symbols: Seq<Symbol>, addresses: Seq<u32>, cursor: u32) -> Seq<Symbol> {
    Seq::new(symbols.len(), |k: int| patched(symbols[k], addresses, cursor))
}

/// Gives every defined label its address.
pub fn resolve_symbols(symbols: &mut Vec<Symbol>, map: &MemoryMap)
    ensures
        final(symbols)@ == patch_all(old(symbols)@, map.addresses@, map.cursor),
{
    let mut k: usize = 0;
    while k < symbols.len()
        invariant
            k <= symbols.len(),
            symbols@.len() == old(symbols)@.len(),
            forall|j: int|
                0 <= j < k ==> symbols@[j] == patched(old(symbols)@[j], map.addresses@, map.cursor),
            forall|j: int| k <= j < symbols@.len() ==> symbols@[j] == old(symbols)@[j],
        decreases symbols.len() - k,
    {
        let entry = symbols[k];
        if entry.definition_location.is_some() {
            let address = if entry.item < map.addresses.len() {
                map.addresses[entry.item]
            } else {
                map.cursor
            };
            symbols.set(
                k,
                Symbol {
                    name_token: entry.name_token,
                    kind: entry.kind,
                    value: Some(address),
                    definition_location: entry.definition_location,
                    item: entry.item,
                },
            );
        }
        k += 1;
    }
    proof {
        assert(symbols@ =~= patch_all(old(symbols)@, map.addresses@, map.cursor));
    }
}

/// The indices of the first `n` entries that were used and never defined.
pub open spec fn unresolved_before(symbols: Seq<Symbol>, n: int) -> Seq<int>
    decreases n,
{
    if n <= 0 {
        Seq::empty()
    } else if symbols[n - 1].definition_location is None {
        unresolved_before(symbols, n - 1).push(n - 1)
    } else {
        unresolved_before(symbols, n - 1)
    }
}

/// The indices of the entries that were used and never defined, in order.
pub open spec fn unresolved(symbols: Seq<Symbol>) -> Seq<int> {
    unresolved_before(symbols, symbols.len() as int)
}

/// Collects the entries that are still without a definition once all
/// statements are parsed.
pub fn check_for_unresolved(symbols: &Vec<Symbol>) -> (list: Vec<usize>)
    ensures
        list@.len() == unresolved(symbols@).len(),
        forall|i: int| 0 <= i < list@.len() ==> list@[i] == unresolved(symbols@)[i],
        forall|i: int| 0 <= i < list@.len() ==> list@[i] < symbols.len(),
{
    let mut list: Vec<usize> = Vec::new();
    let mut k: usize = 0;
    while k < symbols.len()
        invariant
            k <= symbols.len(),
            list@.len() == unresolved_before(symbols@, k as int).len(),
            forall|i: int|
                0 <= i < list@.len() ==> list@[i] == unresolved_before(symbols@, k as int)[i],
            forall|i: int| 0 <= i < list@.len() ==> list@[i] < symbols.len(),
        decreases symbols.len() - k,
    {
        if symbols[k].definition_location.is_none() {
            list.push(k);
        }
        k += 1;
    }
    list
}

/// An entry is listed as unresolved exactly when it has no definition.
pub proof fn lemma_unresolved_complete(symbols: Seq<Symbol>, n: int)
    requires
        0 <= n <= symbols.len(),
    ensures
        forall|k: int|
            0 <= k < n && symbols[k].definition_location is None ==> unresolved_before(
                symbols,
                n,
            ).contains(k),
        forall|i: int|
            0 <= i < unresolved_before(symbols, n).len() ==> {
                &&& 0 <= (#[trigger] unresolved_before(symbols, n)[i]) < n
                &&& symbols[unresolved_before(symbols, n)[i]].definition_location is None
            },
    decreases n,
{
    if n > 0 {
        lemma_unresolved_complete(symbols, n - 1);
        let before = unresolved_before(symbols, n - 1);
        let now = unresolved_before(symbols, n);
        if symbols[n - 1].definition_location is None {
            assert(now[now.len() - 1] == n - 1);
            assert forall|k: int|
                0 <= k < n && symbols[k].definition_location is None implies now.contains(k) by {
                if k < n - 1 {
                    assert(before.contains(k));
                    let i = choose|i: int| 0 <= i < before.len() && before[i] == k;
                    assert(now[i] == k);
                } else {
                    assert(now[now.len() - 1] == k);
                }
            }
        }
    }
}


/// The first item that overflows, if any, lies from `k` on.
pub proof fn lemma_first_overflow_bounds(items: Seq<ParsedItem>, k: int)
    requires
        0 <= k <= items.len(),
    ensures
        k <= first_overflow(items, k) <= items.len(),
    decreases items.len() - k,
{
    if k < items.len() && address_of(items, k + 1) <= u32::MAX {
        lemma_first_overflow_bounds(items, k + 1);
    }
}

} // verus!
