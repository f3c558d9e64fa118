use acnh_hax::items::{AcnhItems, CatalogError, Item, ItemType};

const ITEMS_CSV: &str = "id;eng;iName;color\n\
00a1;Apple chair;AppleChair;Red\n\
00a2;Apple chair;AppleChair;Green\n\
0b10;wooden table;WoodTable;Brown\n\
12345;big thing;BigThing;None\n\
broken;line\n";

const RECIPES_CSV: &str = "id ; eng ; iName\r\n\
0010 ; apple chair ; AppleChairRecipe\r\n\
0020 ; wooden table ; WoodTableRecipe\r\n";

fn catalog() -> AcnhItems {
    let mut c = AcnhItems::new();
    assert_eq!(c.load_items(ITEMS_CSV, RECIPES_CSV), Ok(()));
    c
}

fn item(id: u32, eng: &str, i_name: &str, color: &str) -> Item {
    Item::Item { item_id: id, i_name: i_name.to_string(), eng_name: eng.to_string(), color: color.to_string() }
}

#[test]
fn item_getters() {
    let it = item(0xa1, "Apple chair", "AppleChair", "Red");
    assert_eq!(it.get_id(), 0xa1);
    assert_eq!(it.get_type(), ItemType::Item);
    assert_eq!(it.get_name(), "Apple chair");
    let r = Item::Recipe { recipe_id: 0x10, i_name: "R".to_string(), eng_name: "rec".to_string() };
    assert_eq!(r.get_id(), 0x10);
    assert_eq!(r.get_type(), ItemType::Recipe);
    assert_eq!(r.get_name(), "rec");
}

#[test]
fn item_descriptions() {
    assert_eq!(item(0xa1, "Apple chair", "AppleChair", "Red").to_string(), "[Item: 00a1] Apple chair (AppleChair) - Red");
    assert_eq!(item(0x12345, "big", "Big", "None").to_string(), "[Item: 12345] big (Big) - None");
    assert_eq!(item(0, "", "", "").to_string(), "[Item: 0000]  () - ");
    let r = Item::Recipe { recipe_id: 0x16a2, i_name: "X".to_string(), eng_name: "y".to_string() };
    assert_eq!(r.to_string(), "[Recipe: 16a2] y (X)");
    assert_eq!(r.description().into_iter().collect::<String>(), "[Recipe: 16a2] y (X)");
}

#[test]
fn load_reads_rows_of_header_width() {
    let c = catalog();
    let first = c.get_item_by_id(0xa1).unwrap();
    assert_eq!(first.get_name(), "Apple chair");
    assert!(matches!(first, Item::Item { ref color, .. } if color == "Red"));
    assert_eq!(c.get_item_by_id(0x12345).unwrap().get_name(), "big thing");
    assert!(c.get_item_by_id(0x999).is_none());
    let rec = c.get_recipe_by_id(0x10).unwrap();
    assert_eq!(rec.get_name(), "apple chair");
    assert!(matches!(rec, Item::Recipe { ref i_name, .. } if i_name == "AppleChairRecipe"));
    assert!(c.get_recipe_by_id(0xa1).is_none());
    assert!(c.get_item_by_id(0x10).is_none());
}

#[test]
fn load_missing_column() {
    let mut c = AcnhItems::new();
    assert_eq!(c.load_items_file("id;eng\n0001;x\n", ItemType::Recipe), Err(CatalogError::MissingColumn));
    assert_eq!(c.load_items_file("eng;iName\nx;y\n", ItemType::Recipe), Err(CatalogError::MissingColumn));
    assert_eq!(c.load_items_file("id;eng;iName\n1;x;y\n", ItemType::Item), Err(CatalogError::MissingColumn));
    assert!(c.find_items("").is_empty());
}

#[test]
fn load_invalid_id() {
    let mut c = AcnhItems::new();
    assert_eq!(c.load_items_file("id;eng;iName\nzz;x;y\n", ItemType::Recipe), Err(CatalogError::InvalidId));
    assert_eq!(c.load_items_file("id;eng;iName\n100000000;x;y\n", ItemType::Recipe), Err(CatalogError::InvalidId));
    assert!(c.find_items("").is_empty());
}

#[test]
fn load_hex_ids() {
    let mut c = AcnhItems::new();
    assert_eq!(c.load_items_file("id;eng;iName\n+FF;x;y\nffffffff;z;w\n", ItemType::Recipe), Ok(()));
    assert_eq!(c.get_recipe_by_id(0xff).unwrap().get_name(), "x");
    assert_eq!(c.get_recipe_by_id(0xffffffff).unwrap().get_name(), "z");
}

#[test]
fn header_without_rows_loads_nothing() {
    let mut c = AcnhItems::new();
    assert_eq!(c.load_items_file("id;eng\n", ItemType::Item), Ok(()));
    // With a single column, the empty last line is a row of one empty cell.
    assert_eq!(c.load_items_file("name\n", ItemType::Item), Err(CatalogError::MissingColumn));
    assert_eq!(c.load_items_file("", ItemType::Item), Ok(()));
    assert!(c.find_items("").is_empty());
}

#[test]
fn find_items_all_keywords() {
    let c = catalog();
    let found = c.find_items("apple");
    assert_eq!(found.len(), 1);
    assert_eq!(found[0].get_id(), 0x10);
    let found = c.find_items("Apple Chair");
    assert_eq!(found.len(), 1);
    let found = c.find_items("chair");
    let ids: Vec<u32> = found.iter().map(|i| i.get_id()).collect();
    assert_eq!(ids, vec![0xa1, 0xa2, 0x10]);
    let found = c.find_items("chair green");
    assert_eq!(found.len(), 0);
    let found = c.find_items("chair (applechair)");
    assert_eq!(found.len(), 0);
    assert_eq!(c.find_items("").len(), 6);
    assert_eq!(c.find_items("00a2").len(), 1);
}

#[test]
fn find_item_and_recipe() {
    let c = catalog();
    assert_eq!(c.find_item("wooden").unwrap().get_id(), 0xb10);
    assert_eq!(c.find_recipe("wooden").unwrap().get_id(), 0x20);
    assert_eq!(c.find_item("chair").unwrap().get_id(), 0xa1);
    assert!(c.find_recipe("thing").is_none());
    assert!(c.find_item("nothing here").is_none());
}

#[test]
fn search_results_by_kind() {
    let c = catalog();
    let items = c.search_results("chair", false, false);
    assert_eq!(items.iter().map(|i| i.get_id()).collect::<Vec<_>>(), vec![0xa1, 0xa2]);
    let recipes = c.search_results("chair", true, false);
    assert_eq!(recipes.iter().map(|i| i.get_id()).collect::<Vec<_>>(), vec![0x10]);
    assert!(c.search_results("chair", false, true).is_empty());
}

#[test]
fn keyword_lowercasing() {
    let kws = acnh_hax::items::query_keywords("Big  THING");
    let as_strings: Vec<String> = kws.into_iter().map(|k| k.into_iter().collect()).collect();
    assert_eq!(as_strings, vec!["big".to_string(), "".to_string(), "thing".to_string()]);
}

#[test]
fn contains_chars_cases() {
    let hay: Vec<char> = "abcabd".chars().collect();
    assert!(acnh_hax::items::contains_chars(&hay, &"abd".chars().collect()));
    assert!(acnh_hax::items::contains_chars(&hay, &vec![]));
    assert!(!acnh_hax::items::contains_chars(&hay, &"abe".chars().collect()));
    assert!(!acnh_hax::items::contains_chars(&vec!['a'], &"ab".chars().collect()));
}

#[test]
fn row_to_entry() {
    let headers: Vec<String> = ["eng", "id", "iName", "color"].iter().map(|s| s.to_string()).collect();
    let cells: Vec<String> = ["lamp", "1F", "Lamp", "Blue"].iter().map(|s| s.to_string()).collect();
    let it = acnh_hax::items::item_from_cells(&headers, &cells, ItemType::Item).unwrap();
    assert_eq!(it.to_string(), "[Item: 001f] lamp (Lamp) - Blue");
    let bad: Vec<String> = ["lamp", "", "Lamp", "Blue"].iter().map(|s| s.to_string()).collect();
    assert!(matches!(
        acnh_hax::items::item_from_cells(&headers, &bad, ItemType::Item),
        Err(CatalogError::InvalidId)
    ));
}

#[test]
fn load_items_recipe_error_keeps_items() {
    let mut c = AcnhItems::new();
    assert_eq!(c.load_items(ITEMS_CSV, "id;eng\n0001;x\n"), Err(CatalogError::MissingColumn));
    assert_eq!(c.find_items("").len(), 4);
    let mut d = AcnhItems::new();
    assert_eq!(d.load_items("id;eng;iName;color\nqq;a;b;c\n", RECIPES_CSV), Err(CatalogError::InvalidId));
    assert!(d.find_items("").is_empty());
}

#[test]
fn cells_trim_unicode_whitespace() {
    let mut c = AcnhItems::new();
    let text = "id;eng;iName\n\u{3000}0001\u{a0};\tlamp\u{2003};\u{85}Lamp\u{202f}\n";
    assert_eq!(c.load_items_file(text, ItemType::Recipe), Ok(()));
    let r = c.get_recipe_by_id(1).unwrap();
    assert_eq!(r.to_string(), "[Recipe: 0001] lamp (Lamp)");
}
