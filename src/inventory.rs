//! The player's inventory in the console's memory: forty 8-byte slots, each an
//! item identifier and a count, or the recipe marker and a recipe identifier.
use vstd::prelude::*;

use crate::items::{push_chars, string_of, first_of_type, first_with_id, keywords_of, matching, AcnhItems, Item, ItemType};
use crate::protocol::le_value;
use crate::text::{split_char, split_str};

verus! {

/// Address of the first inventory slot.
pub const INVENTORY_OFFSET: u32 = 0xAFB1E6E0;

/// Number of inventory slots.
pub const INVENTORY_SLOTS: u32 = 40;

/// Bytes of the whole inventory.
pub const INVENTORY_BYTES: u32 = 320;

/// First word of a slot that holds a recipe.
pub const RECIPE_MARKER: u32 = 0x16A2;

/// Item identifier of an empty slot.
pub const EMPTY_ITEM: u32 = 0xfffe;

/// One inventory slot as read back: the entry and its count.
#[derive(Debug)]
pub struct InventoryItem {
    pub item: Item,
    pub count: u32,
}

/// One word to write: its address and value.
#[derive(PartialEq, Eq, Structural, Debug, Clone, Copy)]
pub struct WordWrite {
    pub address: u32,
    pub value: u32,
}

/// Whether both words of a slot have an address in the 32-bit address space.
pub open spec fn slot_fits(slot: u32) -> bool {
    INVENTORY_OFFSET + slot * 8 + 4 <= u32::MAX
}

/// Address of the first word of a slot.
pub open spec fn slot_address(slot: u32) -> u32 {
    (INVENTORY_OFFSET + slot * 8) as u32
}

/// The two words that put `count` of item `item_id` in a slot: the identifier,
/// then the count less one.
pub open spec fn item_writes(slot: u32, item_id: u32, count: u32) -> Seq<WordWrite> {
    seq![
        WordWrite { address: slot_address(slot), value: item_id },
        WordWrite { address: (slot_address(slot) + 4) as u32, value: (count - 1) as u32 },
    ]
}

/// The two words that put a recipe in a slot: the marker, then the recipe.
pub open spec fn recipe_writes(slot: u32, recipe_id: u32) -> Seq<WordWrite> {
    seq![
        WordWrite { address: slot_address(slot), value: RECIPE_MARKER },
        WordWrite { address: (slot_address(slot) + 4) as u32, value: recipe_id },
    ]
}

/// The words that put an entry in a slot.
pub open spec fn entry_writes(slot: u32, item: Item, count: u32) -> Seq<WordWrite> {
    match item {
        Item::Item { item_id, .. } => item_writes(slot, item_id, count),
        Item::Recipe { recipe_id, .. } => recipe_writes(slot, recipe_id),
    }
}

/// The words of `per_slot` for the first `slots` slots, slot by slot.
pub open spec fn fill_writes(per_slot: spec_fn(u32) -> Seq<WordWrite>, slots: nat) -> Seq<WordWrite>
    decreases slots,
{
    if slots == 0 {
        Seq::empty()
    } else {
        fill_writes(per_slot, (slots - 1) as nat) + per_slot((slots - 1) as u32)
    }
}

/// The words to write for `count` of item `item_id` in a slot.
pub fn set_inventory_item(slot: u32, item_id: u32, count: u32) -> (r: Vec<WordWrite>)
    requires
        slot_fits(slot),
        count >= 1,
    ensures
        r@ == item_writes(slot, item_id, count),
{
    let address = INVENTORY_OFFSET + slot * 8;
    let r = vec![
        WordWrite { address, value: item_id },
        WordWrite { address: address + 4, value: count - 1 },
    ];
    assert(r@ =~= item_writes(slot, item_id, count));
    r
}

/// The words to write for a recipe in a slot.
pub fn set_inventory_recipe(slot: u32, recipe_id: u32) -> (r: Vec<WordWrite>)
    requires
        slot_fits(slot),
    ensures
        r@ == recipe_writes(slot, recipe_id),
{
    let address = INVENTORY_OFFSET + slot * 8;
    let r = vec![
        WordWrite { address, value: RECIPE_MARKER },
        WordWrite { address: address + 4, value: recipe_id },
    ];
    assert(r@ =~= recipe_writes(slot, recipe_id));
    r
}

/// The words to write for an entry in a slot; the count applies to items only.
pub fn set_inventory(slot: u32, item: &Item, count: u32) -> (r: Vec<WordWrite>)
    requires
        slot_fits(slot),
        item is Item ==> count >= 1,
    ensures
        r@ == entry_writes(slot, *item, count),
{
    match item {
        Item::Item { item_id, .. } => set_inventory_item(slot, *item_id, count),
        Item::Recipe { recipe_id, .. } => set_inventory_recipe(slot, *recipe_id),
    }
}

/// The words to write for an entry in every slot.
pub fn fill_inventory(item: &Item, count: u32) -> (r: Vec<WordWrite>)
    requires
        item is Item ==> count >= 1,
    ensures
        r@ == fill_writes(|slot: u32| entry_writes(slot, *item, count), INVENTORY_SLOTS as nat),
{
    let mut r: Vec<WordWrite> = Vec::new();
    let mut slot: u32 = 0;
    while slot < INVENTORY_SLOTS
        invariant
            slot <= INVENTORY_SLOTS,
            item is Item ==> count >= 1,
            r@ == fill_writes(|slot: u32| entry_writes(slot, *item, count), slot as nat),
        decreases INVENTORY_SLOTS - slot,
    {
        let mut w = set_inventory(slot, item, count);
        r.append(&mut w);
        slot = slot + 1;
    }
    r
}

/// The words to write for `count` of item `item_id` in every slot.
pub fn fill_inventory_items(item_id: u32, count: u32) -> (r: Vec<WordWrite>)
    requires
        count >= 1,
    ensures
        r@ == fill_writes(|slot: u32| item_writes(slot, item_id, count), INVENTORY_SLOTS as nat),
{
    let mut r: Vec<WordWrite> = Vec::new();
    let mut slot: u32 = 0;
    while slot < INVENTORY_SLOTS
        invariant
            slot <= INVENTORY_SLOTS,
            count >= 1,
            r@ == fill_writes(|slot: u32| item_writes(slot, item_id, count), slot as nat),
        decreases INVENTORY_SLOTS - slot,
    {
        let mut w = set_inventory_item(slot, item_id, count);
        r.append(&mut w);
        slot = slot + 1;
    }
    r
}

/// The words to write for a recipe in every slot.
pub fn fill_inventory_recipes(recipe_id: u32) -> (r: Vec<WordWrite>)
    ensures
        r@ == fill_writes(|slot: u32| recipe_writes(slot, recipe_id), INVENTORY_SLOTS as nat),
{
    let mut r: Vec<WordWrite> = Vec::new();
    let mut slot: u32 = 0;
    while slot < INVENTORY_SLOTS
        invariant
            slot <= INVENTORY_SLOTS,
            r@ == fill_writes(|slot: u32| recipe_writes(slot, recipe_id), slot as nat),
        decreases INVENTORY_SLOTS - slot,
    {
        let mut w = set_inventory_recipe(slot, recipe_id);
        r.append(&mut w);
        slot = slot + 1;
    }
    r
}

/// The words that empty every slot: the empty item, with a count of one.
pub fn clear_inventory() -> (r: Vec<WordWrite>)
    ensures
        r@ == fill_writes(|slot: u32| item_writes(slot, EMPTY_ITEM, 1), INVENTORY_SLOTS as nat),
{
    fill_inventory_items(EMPTY_ITEM, 1)
}

/// The little-endian word at `offset`.
pub open spec fn word_at_spec(bytes: Seq<u8>, offset: int) -> u32 {
    le_value(bytes.subrange(offset, offset + 4))
}

/// Whether `inv` is what slot `k` of the inventory bytes holds, looked up in
/// the catalog. A recipe slot counts one; an entry missing from the catalog is
/// named `Unknown` (with color `None` for an item).
pub open spec fn decoded_slot(inv: InventoryItem, catalog: Seq<Item>, bytes: Seq<u8>, k: int) -> bool {
    let a = word_at_spec(bytes, 8 * k);
    let b = word_at_spec(bytes, 8 * k + 4);
    if a == RECIPE_MARKER {
        &&& inv.count == 1
        &&& match first_with_id(catalog, ItemType::Recipe, b) {
            Some(x) => inv.item == x,
            None => {
                &&& inv.item is Recipe
                &&& inv.item.id_spec() == b
                &&& inv.item.name_spec() == "Unknown"@
                &&& inv.item.internal_name_spec() == "Unknown"@
            },
        }
    } else {
        &&& inv.count == b
        &&& match first_with_id(catalog, ItemType::Item, a) {
            Some(x) => inv.item == x,
            None => {
                &&& inv.item is Item
                &&& inv.item.id_spec() == a
                &&& inv.item.name_spec() == "Unknown"@
                &&& inv.item.internal_name_spec() == "Unknown"@
                &&& inv.item.color_spec() == "None"@
            },
        }
    }
}

fn word_at(bytes: &Vec<u8>, offset: usize) -> (r: u32)
    requires
        offset + 4 <= bytes@.len(),
    ensures
        r == word_at_spec(bytes@, offset as int),
{
    let n = bytes.len();
    (bytes[offset] as u32) | ((bytes[offset + 1] as u32) << 8) | ((bytes[offset + 2] as u32) << 16)
        | ((bytes[offset + 3] as u32) << 24)
}

/// Reads the inventory from its 320 bytes: slot by slot, the entry each holds,
/// looked up in the catalog, and its count.
pub fn get_inventory(inventory: &Vec<u8>, acnh_items: &AcnhItems) -> (r: Vec<InventoryItem>)
    requires
        inventory@.len() == INVENTORY_BYTES,
    ensures
        r@.len() == INVENTORY_SLOTS,
        forall|k: int|
            0 <= k < INVENTORY_SLOTS ==> decoded_slot(#[trigger] r@[k], acnh_items@, inventory@, k),
{
    let mut r: Vec<InventoryItem> = Vec::new();
    let mut i: usize = 0;
    while i < 40
        invariant
            inventory@.len() == INVENTORY_BYTES,
            i <= 40,
            r@.len() == i,
            forall|k: int| 0 <= k < i ==> decoded_slot(#[trigger] r@[k], acnh_items@, inventory@, k),
        decreases 40 - i,
    {
        let a = word_at(inventory, i * 8);
        let b = word_at(inventory, i * 8 + 4);
        let slot = if a == RECIPE_MARKER {
            let item = match acnh_items.get_recipe_by_id(b) {
                Some(x) => x,
                None => Item::Recipe {
                    recipe_id: b,
                    i_name: String::from_str("Unknown"),
                    eng_name: String::from_str("Unknown"),
                },
            };
            InventoryItem { item, count: 1 }
        } else {
            let item = match acnh_items.get_item_by_id(a) {
                Some(x) => x,
                None => Item::Item {
                    item_id: a,
                    i_name: String::from_str("Unknown"),
                    eng_name: String::from_str("Unknown"),
                    color: String::from_str("None"),
                },
            };
            InventoryItem { item, count: b }
        };
        assert(decoded_slot(slot, acnh_items@, inventory@, i as int));
        r.push(slot);
        i = i + 1;
    }
    r
}

/// An entry to put in one slot.
#[derive(Debug)]
pub struct SlotAssignment {
    pub slot: u32,
    pub item: Item,
}

/// What a list of queries, one per line, puts in the inventory: line `k`
/// (of the first forty) puts the first entry of the wanted kind that it
/// finds in slot `k`; a line that finds none leaves its slot alone.
pub open spec fn bulk_plan(catalog: Seq<Item>, lines: Seq<Seq<char>>, t: ItemType, n: nat) -> Seq<
    SlotAssignment,
>
    decreases n,
{
    if n == 0 {
        Seq::empty()
    } else {
        let k = (n - 1) as nat;
        bulk_plan(catalog, lines, t, k) + match first_of_type(
            matching(catalog, keywords_of(lines[k as int])),
            t,
        ) {
            Some(x) => seq![SlotAssignment { slot: k as u32, item: x }],
            None => Seq::empty(),
        }
    }
}

/// The slots that a list of queries, one per line, fills: recipes or items.
pub fn bulk_fill_plan(acnh_items: &AcnhItems, queries: &str, is_recipe: bool) -> (r: Vec<SlotAssignment>)
    ensures
        r@ == bulk_plan(
            acnh_items@,
            split_char(queries@, '\n'),
            if is_recipe {
                ItemType::Recipe
            } else {
                ItemType::Item
            },
            if split_char(queries@, '\n').len() < INVENTORY_SLOTS {
                split_char(queries@, '\n').len()
            } else {
                INVENTORY_SLOTS as nat
            },
        ),
{
    let lines = split_str(queries, '\n');
    let ghost ls = lines@.map_values(|p: &str| p@);
    let ghost t = if is_recipe {
        ItemType::Recipe
    } else {
        ItemType::Item
    };
    let n: usize = if lines.len() < 40 {
        lines.len()
    } else {
        40
    };
    let mut r: Vec<SlotAssignment> = Vec::new();
    let mut k: usize = 0;
    while k < n
        invariant
            ls == lines@.map_values(|p: &str| p@),
            ls == split_char(queries@, '\n'),
            n <= lines@.len(),
            n <= 40,
            k <= n,
            t == (if is_recipe {
                ItemType::Recipe
            } else {
                ItemType::Item
            }),
            r@ == bulk_plan(acnh_items@, ls, t, k as nat),
        decreases n - k,
    {
        let found = if is_recipe {
            acnh_items.find_recipe(lines[k])
        } else {
            acnh_items.find_item(lines[k])
        };
        match found {
            Some(item) => {
                r.push(SlotAssignment { slot: k as u32, item });
            },
            None => {},
        }
        k = k + 1;
        assert(r@ =~= bulk_plan(acnh_items@, ls, t, k as nat));
    }
    r
}

/// The decimal digits of `v`, least significant first.
pub open spec fn dec_rev(v: nat) -> Seq<char>
    decreases v,
{
    if v < 10 {
        seq![crate::items::digit_char(v)]
    } else {
        seq![crate::items::digit_char(v % 10)] + dec_rev(v / 10)
    }
}

/// `v` in decimal.
pub open spec fn decimal(v: nat) -> Seq<char> {
    dec_rev(v).reverse()
}

impl InventoryItem {
    /// The text shown for a slot: the entry's description, then ` x` and the
    /// number of pieces (the stored count plus one) for an item, or
    /// `(Recipe)` for a recipe.
    pub open spec fn description_spec(&self) -> Seq<char> {
        match self.item {
            Item::Item { .. } => self.item.description_spec() + " x"@ + decimal((self.count + 1) as nat),
            Item::Recipe { .. } => self.item.description_spec() + "(Recipe)"@,
        }
    }

    pub fn to_string(&self) -> (r: String)
        ensures
            r@ == self.description_spec(),
    {
        let mut chars = self.item.description();
        match &self.item {
            Item::Item { .. } => {
                push_chars(&mut chars, " x");
                push_decimal(&mut chars, self.count as u64 + 1);
            },
            Item::Recipe { .. } => {
                push_chars(&mut chars, "(Recipe)");
            },
        }
        assert(chars@ =~= self.description_spec());
        string_of(&chars)
    }
}

/// Appends `v` in decimal.
fn push_decimal(out: &mut Vec<char>, v: u64)
    ensures
        final(out)@ == old(out)@ + decimal(v as nat),
{
    let digits: Vec<char> = vec!['0', '1', '2', '3', '4', '5', '6', '7', '8', '9'];
    let mut rev: Vec<char> = Vec::new();
    let mut cur: u64 = v;
    while cur > 0 || rev.len() == 0
        invariant
            digits@ == seq!['0', '1', '2', '3', '4', '5', '6', '7', '8', '9'],
            rev@.len() == 0 ==> cur == v,
            (cur > 0 || rev@.len() == 0) ==> dec_rev(v as nat) == rev@ + dec_rev(cur as nat),
            (cur == 0 && rev@.len() > 0) ==> dec_rev(v as nat) == rev@,
        decreases cur, (if rev@.len() == 0 { 1int } else { 0int }),
    {
        let d = digits[(cur % 10) as usize];
        assert(d == crate::items::digit_char((cur % 10) as nat));
        rev.push(d);
        if cur < 10 {
            assert(dec_rev(cur as nat) == seq![d]);
            assert(dec_rev(v as nat) =~= rev@);
        } else {
            assert(dec_rev(cur as nat) == seq![d] + dec_rev((cur / 10) as nat));
            assert(dec_rev(v as nat) =~= rev@ + dec_rev((cur / 10) as nat));
        }
        cur = cur / 10;
    }
    let n = rev.len();
    let mut k: usize = 0;
    while k < n
        invariant
            n == rev@.len(),
            k <= n,
            out@ == old(out)@ + rev@.reverse().subrange(0, k as int),
        decreases n - k,
    {
        out.push(rev[n - 1 - k]);
        k = k + 1;
        assert(rev@.reverse().subrange(0, k as int) =~= rev@.reverse().subrange(0, k - 1).push(
            rev@[n - k],
        ));
    }
    assert(rev@.reverse().subrange(0, n as int) =~= rev@.reverse());
}

} // verus!
