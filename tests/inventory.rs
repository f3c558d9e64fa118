use acnh_hax::inventory::{
    bulk_fill_plan, clear_inventory, fill_inventory, fill_inventory_items, fill_inventory_recipes,
    get_inventory, set_inventory, set_inventory_item, set_inventory_recipe, InventoryItem, WordWrite,
};
use acnh_hax::items::{AcnhItems, Item, ItemType};

fn w(address: u32, value: u32) -> WordWrite {
    WordWrite { address, value }
}

fn catalog() -> AcnhItems {
    let mut c = AcnhItems::new();
    c.load_items_file("id;eng;iName;color\n00a1;chair;Chair;Red\n0b10;table;Table;Brown\n", ItemType::Item).unwrap();
    c.load_items_file("id;eng;iName\n0010;chair recipe;ChairR\n", ItemType::Recipe).unwrap();
    c
}

#[test]
fn item_slot_words() {
    assert_eq!(set_inventory_item(0, 0x1234, 5), vec![w(0xAFB1E6E0, 0x1234), w(0xAFB1E6E4, 4)]);
    assert_eq!(set_inventory_item(3, 0x1234, 1), vec![w(0xAFB1E6F8, 0x1234), w(0xAFB1E6FC, 0)]);
}

#[test]
fn recipe_slot_words() {
    assert_eq!(set_inventory_recipe(39, 0x10), vec![w(0xAFB1E6E0 + 312, 0x16A2), w(0xAFB1E6E0 + 316, 0x10)]);
}

#[test]
fn set_inventory_by_kind() {
    let it = Item::Item { item_id: 7, i_name: String::new(), eng_name: String::new(), color: String::new() };
    assert_eq!(set_inventory(1, &it, 2), vec![w(0xAFB1E6E8, 7), w(0xAFB1E6EC, 1)]);
    let r = Item::Recipe { recipe_id: 9, i_name: String::new(), eng_name: String::new() };
    assert_eq!(set_inventory(1, &r, 0), vec![w(0xAFB1E6E8, 0x16A2), w(0xAFB1E6EC, 9)]);
}

#[test]
fn fill_every_slot() {
    let it = Item::Item { item_id: 7, i_name: String::new(), eng_name: String::new(), color: String::new() };
    let ws = fill_inventory(&it, 3);
    assert_eq!(ws.len(), 80);
    for slot in 0..40u32 {
        assert_eq!(ws[2 * slot as usize], w(0xAFB1E6E0 + slot * 8, 7));
        assert_eq!(ws[2 * slot as usize + 1], w(0xAFB1E6E0 + slot * 8 + 4, 2));
    }
    assert_eq!(fill_inventory_items(7, 3), ws);
    let rs = fill_inventory_recipes(5);
    assert_eq!(rs.len(), 80);
    assert_eq!(rs[79], w(0xAFB1E6E0 + 316, 5));
}

#[test]
fn clear_uses_empty_item() {
    let ws = clear_inventory();
    assert_eq!(ws.len(), 80);
    assert_eq!(ws[0], w(0xAFB1E6E0, 0xfffe));
    assert_eq!(ws[1], w(0xAFB1E6E4, 0));
    assert_eq!(ws[78], w(0xAFB1E6E0 + 312, 0xfffe));
}

#[test]
fn decode_inventory_slots() {
    let c = catalog();
    let mut bytes = vec![0u8; 320];
    let mut put = |slot: usize, a: u32, b: u32| {
        bytes[slot * 8..slot * 8 + 4].copy_from_slice(&a.to_le_bytes());
        bytes[slot * 8 + 4..slot * 8 + 8].copy_from_slice(&b.to_le_bytes());
    };
    put(0, 0xa1, 4);
    put(1, 0x16A2, 0x10);
    put(2, 0x16A2, 0x77);
    put(3, 0x999, 2);
    for s in 4..40 {
        put(s, 0xfffe, 0);
    }
    let inv = get_inventory(&bytes, &c);
    assert_eq!(inv.len(), 40);
    assert_eq!(inv[0].item.get_id(), 0xa1);
    assert_eq!(inv[0].count, 4);
    assert_eq!(inv[0].to_string(), "[Item: 00a1] chair (Chair) - Red x5");
    assert_eq!(inv[1].item.get_type(), ItemType::Recipe);
    assert_eq!(inv[1].count, 1);
    assert_eq!(inv[1].to_string(), "[Recipe: 0010] chair recipe (ChairR)(Recipe)");
    assert_eq!(inv[2].to_string(), "[Recipe: 0077] Unknown (Unknown)(Recipe)");
    assert_eq!(inv[3].to_string(), "[Item: 0999] Unknown (Unknown) - None x3");
    assert_eq!(inv[39].item.get_id(), 0xfffe);
    assert_eq!(inv[39].count, 0);
}

#[test]
fn inventory_item_text_large_count() {
    let it = InventoryItem {
        item: Item::Item { item_id: 1, i_name: "i".to_string(), eng_name: "e".to_string(), color: "c".to_string() },
        count: u32::MAX,
    };
    assert_eq!(it.to_string(), "[Item: 0001] e (i) - c x4294967296");
}

#[test]
fn bulk_plan_one_slot_per_line() {
    let c = catalog();
    let plan = bulk_fill_plan(&c, "table\nnothing\nchair", false);
    let got: Vec<(u32, u32)> = plan.iter().map(|a| (a.slot, a.item.get_id())).collect();
    assert_eq!(got, vec![(0, 0xb10), (2, 0xa1)]);
    let plan = bulk_fill_plan(&c, "chair", true);
    let got: Vec<(u32, u32)> = plan.iter().map(|a| (a.slot, a.item.get_id())).collect();
    assert_eq!(got, vec![(0, 0x10)]);
    let many = vec!["table"; 45].join("\n");
    assert_eq!(bulk_fill_plan(&c, &many, false).len(), 40);
}

#[test]
fn slot_beyond_inventory_addresses() {
    assert_eq!(set_inventory_item(100, 1, 2), vec![w(0xAFB1E6E0 + 800, 1), w(0xAFB1E6E0 + 804, 1)]);
    let last: u32 = (u32::MAX - 0xAFB1E6E0 - 4) / 8;
    let ws = set_inventory_recipe(last, 3);
    assert_eq!(ws[1].address as u64, 0xAFB1E6E0u64 + 8 * last as u64 + 4);
}
