//! The item and recipe catalog, and keyword search over it.
use vstd::prelude::*;

use crate::text::{hex_value, parse_hex_u32, split_char, split_str, trim, trimmed};

verus! {

/// Whether a catalog entry is a plain item or a DIY recipe.
#[derive(PartialEq, Eq, Structural, Debug, Clone, Copy)]
pub enum ItemType {
    Item,
    Recipe,
}

/// One catalog entry.
#[derive(Debug, Clone)]
pub enum Item {
    Item { item_id: u32, i_name: String, eng_name: String, color: String },
    Recipe { recipe_id: u32, i_name: String, eng_name: String },
}

/// The lowercase hex digit character of a value below 16.
pub open spec fn digit_char(n: nat) -> char {
    seq!['0', '1', '2', '3', '4', '5', '6', '7', '8', '9', 'a', 'b', 'c', 'd', 'e', 'f'][n as int]
}

/// The hex digits of `v`, least significant first, padded with zeros to at
/// least `w` digits (no digit at all for zero with no width).
pub open spec fn hex_rev(v: nat, w: nat) -> Seq<char>
    decreases v + w,
{
    if v == 0 && w == 0 {
        Seq::empty()
    } else {
        seq![digit_char(v % 16)] + hex_rev(v / 16, if w == 0 {
            0
        } else {
            (w - 1) as nat
        })
    }
}

/// `v` in lowercase hex, zero-padded to at least four digits.
pub open spec fn hex_min4(v: u32) -> Seq<char> {
    hex_rev(v as nat, 4).reverse()
}

impl Item {
    /// The catalog identifier of either kind of entry.
    pub open spec fn id_spec(&self) -> u32 {
        match self {
            Item::Item { item_id, .. } => *item_id,
            Item::Recipe { recipe_id, .. } => *recipe_id,
        }
    }

    pub open spec fn type_spec(&self) -> ItemType {
        match self {
            Item::Item { .. } => ItemType::Item,
            Item::Recipe { .. } => ItemType::Recipe,
        }
    }

    pub open spec fn name_spec(&self) -> Seq<char> {
        match self {
            Item::Item { eng_name, .. } => eng_name@,
            Item::Recipe { eng_name, .. } => eng_name@,
        }
    }

    /// The internal name of the entry.
    pub open spec fn internal_name_spec(&self) -> Seq<char> {
        match self {
            Item::Item { i_name, .. } => i_name@,
            Item::Recipe { i_name, .. } => i_name@,
        }
    }

    /// The color of a plain item; recipes have none.
    pub open spec fn color_spec(&self) -> Seq<char> {
        match self {
            Item::Item { color, .. } => color@,
            Item::Recipe { .. } => Seq::empty(),
        }
    }

    /// The one-line text shown for an entry and searched by keywords:
    /// `[Item: 0abc] name (internal) - color` or `[Recipe: 0abc] name (internal)`.
    pub open spec fn description_spec(&self) -> Seq<char> {
        match self {
            Item::Item { item_id, i_name, eng_name, color } => "[Item: "@ + hex_min4(*item_id)
                + "] "@ + eng_name@ + " ("@ + i_name@ + ") - "@ + color@,
            Item::Recipe { recipe_id, i_name, eng_name } => "[Recipe: "@ + hex_min4(*recipe_id)
                + "] "@ + eng_name@ + " ("@ + i_name@ + ")"@,
        }
    }

    pub fn get_id(&self) -> (r: u32)
        ensures
            r == self.id_spec(),
    {
        match self {
            Item::Item { item_id, .. } => *item_id,
            Item::Recipe { recipe_id, .. } => *recipe_id,
        }
    }

    pub fn get_type(&self) -> (r: ItemType)
        ensures
            r == self.type_spec(),
    {
        match self {
            Item::Item { .. } => ItemType::Item,
            Item::Recipe { .. } => ItemType::Recipe,
        }
    }

    /// The English name of the entry.
    pub fn get_name(&self) -> (r: String)
        ensures
            r@ == self.name_spec(),
    {
        match self {
            Item::Item { eng_name, .. } => eng_name.clone(),
            Item::Recipe { eng_name, .. } => eng_name.clone(),
        }
    }

    /// A copy of the entry, equal to it.
    pub fn duplicate(&self) -> (r: Item)
        ensures
            r == *self,
    {
        match self {
            Item::Item { item_id, i_name, eng_name, color } => Item::Item {
                item_id: *item_id,
                i_name: i_name.clone(),
                eng_name: eng_name.clone(),
                color: color.clone(),
            },
            Item::Recipe { recipe_id, i_name, eng_name } => Item::Recipe {
                recipe_id: *recipe_id,
                i_name: i_name.clone(),
                eng_name: eng_name.clone(),
            },
        }
    }

    /// The entry's description.
    pub fn to_string(&self) -> (r: String)
        ensures
            r@ == self.description_spec(),
    {
        string_of(&self.description())
    }

    /// The entry's description as characters.
    pub fn description(&self) -> (r: Vec<char>)
        ensures
            r@ == self.description_spec(),
    {
        let mut r: Vec<char> = Vec::new();
        match self {
            Item::Item { item_id, i_name, eng_name, color } => {
                push_chars(&mut r, "[Item: ");
                push_hex_min4(&mut r, *item_id);
                push_chars(&mut r, "] ");
                push_chars(&mut r, eng_name.as_str());
                push_chars(&mut r, " (");
                push_chars(&mut r, i_name.as_str());
                push_chars(&mut r, ") - ");
                push_chars(&mut r, color.as_str());
            },
            Item::Recipe { recipe_id, i_name, eng_name } => {
                push_chars(&mut r, "[Recipe: ");
                push_hex_min4(&mut r, *recipe_id);
                push_chars(&mut r, "] ");
                push_chars(&mut r, eng_name.as_str());
                push_chars(&mut r, " (");
                push_chars(&mut r, i_name.as_str());
                push_chars(&mut r, ")");
            },
        }
        assert(r@ =~= self.description_spec());
        r
    }
}

/// Relies on `String::from_iter`: the string of the given characters, in order.
#[verifier::external_body]
pub(crate) fn string_of(chars: &Vec<char>) -> (r: String)
    ensures
        r@ == chars@,
{
    String::from_iter(chars)
}

/// Appends the characters of `s` to `out`.
pub(crate) fn push_chars(out: &mut Vec<char>, s: &str)
    ensures
        final(out)@ == old(out)@ + s@,
{
    let n = s.unicode_len();
    let mut i: usize = 0;
    while i < n
        invariant
            n == s@.len(),
            i <= n,
            out@ == old(out)@ + s@.subrange(0, i as int),
        decreases n - i,
    {
        let c = s.get_char(i);
        out.push(c);
        i = i + 1;
        assert(s@.subrange(0, i as int) =~= s@.subrange(0, i - 1).push(c));
    }
    assert(s@.subrange(0, n as int) =~= s@);
}

/// Appends `v` in lowercase hex, zero-padded to at least four digits.
fn push_hex_min4(out: &mut Vec<char>, v: u32)
    ensures
        final(out)@ == old(out)@ + hex_min4(v),
{
    let digits: Vec<char> = vec!['0', '1', '2', '3', '4', '5', '6', '7', '8', '9', 'a', 'b', 'c', 'd', 'e', 'f'];
    let mut rev: Vec<char> = Vec::new();
    let mut cur: u32 = v;
    let mut w: u32 = 4;
    while cur > 0 || w > 0
        invariant
            w <= 4,
            digits@ == seq!['0', '1', '2', '3', '4', '5', '6', '7', '8', '9', 'a', 'b', 'c', 'd', 'e', 'f'],
            hex_rev(v as nat, 4) == rev@ + hex_rev(cur as nat, w as nat),
        decreases cur + w,
    {
        let d = digits[(cur % 16) as usize];
        assert(d == digit_char((cur % 16) as nat));
        rev.push(d);
        assert(hex_rev(cur as nat, w as nat) == seq![d] + hex_rev((cur / 16) as nat, if w == 0 {
            0
        } else {
            (w - 1) as nat
        }));
        cur = cur / 16;
        if w > 0 {
            w = w - 1;
        }
        assert(hex_rev(v as nat, 4) =~= rev@ + hex_rev(cur as nat, w as nat));
    }
    assert(hex_rev(v as nat, 4) =~= rev@);
    let n = rev.len();
    let mut k: usize = 0;
    while k < n
        invariant
            n == rev@.len(),
            k <= n,
            out@ == old(out)@ + rev@.reverse().subrange(0, k as int),
        decreases n - k,
    {
        out.push(rev[n - 1 - k]);
        k = k + 1;
        assert(rev@.reverse().subrange(0, k as int) =~= rev@.reverse().subrange(0, k - 1).push(
            rev@[n - k],
        ));
    }
    assert(rev@.reverse().subrange(0, n as int) =~= rev@.reverse());
}

/// Whether `needle` occurs in `hay` as a contiguous run.
pub open spec fn contains_seq(hay: Seq<char>, needle: Seq<char>) -> bool {
    exists|i: int|
        0 <= i && i + needle.len() <= hay.len() && #[trigger] hay.subrange(i, i + needle.len())
            == needle
}

/// The lowercase form of a string, as `str::to_lowercase` computes it.
pub uninterp spec fn lower_of(s: Seq<char>) -> Seq<char>;

/// The search keywords of a query: its space-separated pieces, lowercased.
pub open spec fn keywords_of(q: Seq<char>) -> Seq<Seq<char>> {
    split_char(q, ' ').map_values(|k: Seq<char>| lower_of(k))
}

/// Whether every keyword occurs in the description.
pub open spec fn all_contained(description: Seq<char>, keywords: Seq<Seq<char>>) -> bool {
    forall|j: int| 0 <= j < keywords.len() ==> contains_seq(description, #[trigger] keywords[j])
}

/// The entries whose description holds every keyword, in catalog order.
pub open spec fn matching(items: Seq<Item>, keywords: Seq<Seq<char>>) -> Seq<Item>
    decreases items.len(),
{
    if items.len() == 0 {
        Seq::empty()
    } else {
        let sub = matching(items.drop_last(), keywords);
        if all_contained(items.last().description_spec(), keywords) {
            sub.push(items.last())
        } else {
            sub
        }
    }
}

/// The first entry of the given kind, if any.
pub open spec fn first_of_type(items: Seq<Item>, t: ItemType) -> Option<Item>
    decreases items.len(),
{
    if items.len() == 0 {
        None
    } else if items[0].type_spec() == t {
        Some(items[0])
    } else {
        first_of_type(items.drop_first(), t)
    }
}

/// The first entry of the given kind and identifier, if any.
pub open spec fn first_with_id(items: Seq<Item>, t: ItemType, id: u32) -> Option<Item>
    decreases items.len(),
{
    if items.len() == 0 {
        None
    } else if items[0].type_spec() == t && items[0].id_spec() == id {
        Some(items[0])
    } else {
        first_with_id(items.drop_first(), t, id)
    }
}

/// Relies on `str::to_lowercase`: the result depends on the characters alone.
#[verifier::external_body]
fn to_lowercase(s: &str) -> (r: String)
    ensures
        r@ == lower_of(s@),
{
    s.to_lowercase()
}

/// Whether `needle` occurs in `hay` starting at position `i`.
fn occurs_at(hay: &Vec<char>, needle: &Vec<char>, i: usize) -> (r: bool)
    requires
        i + needle@.len() <= hay@.len(),
    ensures
        r == (hay@.subrange(i as int, i + needle@.len()) == needle@),
{
    let n = needle.len();
    let len = hay.len();
    let mut j: usize = 0;
    while j < n
        invariant
            n == needle@.len(),
            len == hay@.len(),
            i + n <= hay@.len(),
            j <= n,
            forall|m: int| 0 <= m < j ==> hay@[i + m] == needle@[m],
        decreases n - j,
    {
        if hay[i + j] != needle[j] {
            assert(hay@.subrange(i as int, i + n)[j as int] != needle@[j as int]);
            return false;
        }
        j = j + 1;
    }
    assert(hay@.subrange(i as int, i + n) =~= needle@);
    true
}

/// Whether `needle` occurs in `hay`.
pub fn contains_chars(hay: &Vec<char>, needle: &Vec<char>) -> (r: bool)
    ensures
        r == contains_seq(hay@, needle@),
{
    let n = needle.len();
    if n > hay.len() {
        return false;
    }
    let last = hay.len() - n;
    let mut i: usize = 0;
    loop
        invariant
            n == needle@.len(),
            last + n == hay@.len(),
            i <= last,
            forall|k: int| 0 <= k < i ==> #[trigger] hay@.subrange(k, k + n) != needle@,
        decreases last - i,
    {
        if occurs_at(hay, needle, i) {
            return true;
        }
        if i == last {
            assert forall|k: int|
                0 <= k && k + needle@.len() <= hay@.len() implies #[trigger] hay@.subrange(
                k,
                k + needle@.len(),
            ) != needle@ by {
                assert(k <= i);
            }
            return false;
        }
        i = i + 1;
    }
}

/// Whether the description holds every keyword.
pub fn matches_keywords(description: &Vec<char>, keywords: &Vec<Vec<char>>) -> (r: bool)
    ensures
        r == all_contained(description@, keywords@.map_values(|k: Vec<char>| k@)),
{
    let ghost kws = keywords@.map_values(|k: Vec<char>| k@);
    let mut j: usize = 0;
    while j < keywords.len()
        invariant
            kws == keywords@.map_values(|k: Vec<char>| k@),
            j <= keywords@.len(),
            forall|m: int| 0 <= m < j ==> contains_seq(description@, #[trigger] kws[m]),
        decreases keywords@.len() - j,
    {
        if !contains_chars(description, &keywords[j]) {
            assert(!contains_seq(description@, kws[j as int]));
            return false;
        }
        j = j + 1;
    }
    true
}

/// The keywords of a query: its space-separated pieces, each lowercased.
pub fn query_keywords(query: &str) -> (r: Vec<Vec<char>>)
    ensures
        r@.map_values(|k: Vec<char>| k@) == keywords_of(query@),
{
    let pieces = split_str(query, ' ');
    let ghost raw = pieces@.map_values(|p: &str| p@);
    let mut r: Vec<Vec<char>> = Vec::new();
    let mut i: usize = 0;
    while i < pieces.len()
        invariant
            raw == pieces@.map_values(|p: &str| p@),
            i <= pieces@.len(),
            r@.map_values(|k: Vec<char>| k@) =~~= raw.subrange(0, i as int).map_values(
                |k: Seq<char>| lower_of(k),
            ),
        decreases pieces@.len() - i,
    {
        let lowered = to_lowercase(pieces[i]);
        let mut kw: Vec<char> = Vec::new();
        push_chars(&mut kw, lowered.as_str());
        assert(kw@ =~= lower_of(raw[i as int]));
        let ghost rm = r@.map_values(|k: Vec<char>| k@);
        r.push(kw);
        assert(r@.map_values(|k: Vec<char>| k@) =~~= rm.push(kw@));
        assert(raw.subrange(0, i + 1).map_values(|k: Seq<char>| lower_of(k)) =~~= raw.subrange(
            0,
            i as int,
        ).map_values(|k: Seq<char>| lower_of(k)).push(lower_of(raw[i as int])));
        i = i + 1;
        assert(r@.map_values(|k: Vec<char>| k@) =~~= raw.subrange(0, i as int).map_values(
            |k: Seq<char>| lower_of(k),
        ));
    }
    assert(raw.subrange(0, i as int) =~= raw);
    r
}

/// The entries of the given kind, in order.
pub open spec fn of_type(items: Seq<Item>, t: ItemType) -> Seq<Item>
    decreases items.len(),
{
    if items.len() == 0 {
        Seq::empty()
    } else {
        let sub = of_type(items.drop_last(), t);
        if items.last().type_spec() == t {
            sub.push(items.last())
        } else {
            sub
        }
    }
}

/// The first entry of the given kind.
fn first_of_type_in(items: &Vec<Item>, t: ItemType) -> (r: Option<Item>)
    ensures
        r == first_of_type(items@, t),
{
    let mut i: usize = 0;
    assert(items@.subrange(0, items@.len() as int) =~= items@);
    while i < items.len()
        invariant
            i <= items@.len(),
            first_of_type(items@, t) == first_of_type(items@.subrange(i as int, items@.len() as int), t),
        decreases items@.len() - i,
    {
        assert(items@.subrange(i as int, items@.len() as int).drop_first() =~= items@.subrange(
            i + 1,
            items@.len() as int,
        ));
        if items[i].get_type() == t {
            return Some(items[i].duplicate());
        }
        i = i + 1;
    }
    None
}

/// The entries of the given kind.
fn filter_type(items: &Vec<Item>, t: ItemType) -> (r: Vec<Item>)
    ensures
        r@ == of_type(items@, t),
{
    let mut r: Vec<Item> = Vec::new();
    let mut i: usize = 0;
    assert(r@ =~= of_type(items@.subrange(0, 0), t));
    while i < items.len()
        invariant
            i <= items@.len(),
            r@ == of_type(items@.subrange(0, i as int), t),
        decreases items@.len() - i,
    {
        assert(items@.subrange(0, i + 1).drop_last() =~= items@.subrange(0, i as int));
        if items[i].get_type() == t {
            r.push(items[i].duplicate());
        }
        i = i + 1;
    }
    assert(items@.subrange(0, items@.len() as int) =~= items@);
    r
}

/// The catalog of items and recipes, in the order they were loaded.
pub struct AcnhItems {
    items: Vec<Item>,
}

impl View for AcnhItems {
    type V = Seq<Item>;

    closed spec fn view(&self) -> Seq<Item> {
        self.items@
    }
}

impl AcnhItems {
    /// An empty catalog.
    pub fn new() -> (r: AcnhItems)
        ensures
            r@ == Seq::<Item>::empty(),
    {
        AcnhItems { items: Vec::new() }
    }

    /// The first plain item with the given identifier.
    pub fn get_item_by_id(&self, query_id: u32) -> (r: Option<Item>)
        ensures
            r == first_with_id(self@, ItemType::Item, query_id),
    {
        self.first_with_id_in(ItemType::Item, query_id)
    }

    /// The first recipe with the given identifier.
    pub fn get_recipe_by_id(&self, query_id: u32) -> (r: Option<Item>)
        ensures
            r == first_with_id(self@, ItemType::Recipe, query_id),
    {
        self.first_with_id_in(ItemType::Recipe, query_id)
    }

    fn first_with_id_in(&self, t: ItemType, query_id: u32) -> (r: Option<Item>)
        ensures
            r == first_with_id(self@, t, query_id),
    {
        let items = &self.items;
        let mut i: usize = 0;
        assert(items@.subrange(0, items@.len() as int) =~= items@);
        while i < items.len()
            invariant
                items@ == self@,
                i <= items@.len(),
                first_with_id(items@, t, query_id) == first_with_id(
                    items@.subrange(i as int, items@.len() as int),
                    t,
                    query_id,
                ),
            decreases items@.len() - i,
        {
            assert(items@.subrange(i as int, items@.len() as int).drop_first() =~= items@.subrange(
                i + 1,
                items@.len() as int,
            ));
            if items[i].get_type() == t && items[i].get_id() == query_id {
                return Some(items[i].duplicate());
            }
            i = i + 1;
        }
        None
    }

    /// The first plain item that the query finds.
    pub fn find_item(&self, query: &str) -> (r: Option<Item>)
        ensures
            r == first_of_type(matching(self@, keywords_of(query@)), ItemType::Item),
    {
        let found = self.find_items(query);
        first_of_type_in(&found, ItemType::Item)
    }

    /// The first recipe that the query finds.
    pub fn find_recipe(&self, query: &str) -> (r: Option<Item>)
        ensures
            r == first_of_type(matching(self@, keywords_of(query@)), ItemType::Recipe),
    {
        let found = self.find_items(query);
        first_of_type_in(&found, ItemType::Recipe)
    }

    /// The entries whose description contains every space-separated word of
    /// the query, lowercased, in catalog order.
    pub fn find_items(&self, query: &str) -> (r: Vec<Item>)
        ensures
            r@ == matching(self@, keywords_of(query@)),
    {
        let keywords = query_keywords(query);
        self.find_items_by_keywords(&keywords)
    }

    /// The entries whose description contains every keyword, in catalog order.
    pub fn find_items_by_keywords(&self, keywords: &Vec<Vec<char>>) -> (r: Vec<Item>)
        ensures
            r@ == matching(self@, keywords@.map_values(|k: Vec<char>| k@)),
    {
        let ghost kws = keywords@.map_values(|k: Vec<char>| k@);
        let items = &self.items;
        let mut r: Vec<Item> = Vec::new();
        let mut i: usize = 0;
        assert(r@ =~= matching(items@.subrange(0, 0), kws));
        while i < items.len()
            invariant
                items@ == self@,
                i <= items@.len(),
                r@ == matching(items@.subrange(0, i as int), kws),
                kws == keywords@.map_values(|k: Vec<char>| k@),
            decreases items@.len() - i,
        {
            assert(items@.subrange(0, i + 1).drop_last() =~= items@.subrange(0, i as int));
            let description = items[i].description();
            if matches_keywords(&description, keywords) {
                r.push(items[i].duplicate());
            }
            i = i + 1;
        }
        assert(items@.subrange(0, items@.len() as int) =~= items@);
        r
    }

    /// The search results shown for a query: none while a list of queries is
    /// being edited, else the found entries of the selected kind.
    pub fn search_results(&self, query: &str, is_recipe: bool, bulk_items: bool) -> (r: Vec<Item>)
        ensures
            bulk_items ==> r@.len() == 0,
            !bulk_items ==> r@ == of_type(
                matching(self@, keywords_of(query@)),
                if is_recipe {
                    ItemType::Recipe
                } else {
                    ItemType::Item
                },
            ),
    {
        if bulk_items {
            return Vec::new();
        }
        let found = self.find_items(query);
        if is_recipe {
            filter_type(&found, ItemType::Recipe)
        } else {
            filter_type(&found, ItemType::Item)
        }
    }
}

/// Why a catalog file could not be read.
#[derive(PartialEq, Eq, Structural, Debug, Clone, Copy)]
pub enum CatalogError {
    /// A data row needs a column that the header line does not name.
    MissingColumn,
    /// An identifier cell is not a 32-bit hex number.
    InvalidId,
}

/// The trimmed cells of one line, split at `;`.
pub open spec fn row_cells(line: Seq<char>) -> Seq<Seq<char>> {
    split_char(line, ';').map_values(|c: Seq<char>| trimmed(c))
}

/// The non-empty cells, in order.
pub open spec fn non_empty(cells: Seq<Seq<char>>) -> Seq<Seq<char>>
    decreases cells.len(),
{
    if cells.len() == 0 {
        Seq::empty()
    } else {
        let sub = non_empty(cells.drop_last());
        if cells.last().len() > 0 {
            sub.push(cells.last())
        } else {
            sub
        }
    }
}

/// The column names of a catalog text: the non-empty cells of its first line.
pub open spec fn header_of(text: Seq<char>) -> Seq<Seq<char>> {
    non_empty(row_cells(split_char(text, '\n')[0]))
}

/// The cells of the lines that have exactly `width` cells, in order.
pub open spec fn rows_of_width(lines: Seq<Seq<char>>, width: nat) -> Seq<Seq<Seq<char>>>
    decreases lines.len(),
{
    if lines.len() == 0 {
        Seq::empty()
    } else {
        let sub = rows_of_width(lines.drop_last(), width);
        if row_cells(lines.last()).len() == width {
            sub.push(row_cells(lines.last()))
        } else {
            sub
        }
    }
}

/// The data rows of a catalog text: every line after the first whose cell
/// count equals the number of column names.
pub open spec fn data_rows(text: Seq<char>) -> Seq<Seq<Seq<char>>> {
    rows_of_width(split_char(text, '\n').drop_first(), header_of(text).len())
}

/// The position of the first column with the given name.
pub open spec fn column(headers: Seq<Seq<char>>, name: Seq<char>) -> Option<int>
    decreases headers.len(),
{
    if headers.len() == 0 {
        None
    } else if headers[0] == name {
        Some(0)
    } else {
        match column(headers.drop_first(), name) {
            Some(k) => Some(k + 1),
            None => None,
        }
    }
}

/// What is wrong with a data row, checked in the order its cells are read:
/// the identifier column, the identifier, then the name columns.
pub open spec fn row_error(headers: Seq<Seq<char>>, cells: Seq<Seq<char>>, t: ItemType) -> Option<
    CatalogError,
> {
    match column(headers, "id"@) {
        None => Some(CatalogError::MissingColumn),
        Some(ix) => if hex_value(cells[ix]).is_none() {
            Some(CatalogError::InvalidId)
        } else if column(headers, "eng"@).is_none() || column(headers, "iName"@).is_none() || (t
            == ItemType::Item && column(headers, "color"@).is_none()) {
            Some(CatalogError::MissingColumn)
        } else {
            None
        },
    }
}

/// The entry built from a valid data row: its kind, its identifier read as
/// hex, and its names (and color) from the named columns.
pub open spec fn row_item(item: Item, headers: Seq<Seq<char>>, cells: Seq<Seq<char>>, t: ItemType) -> bool {
    &&& item.type_spec() == t
    &&& item.id_spec() == hex_value(cells[column(headers, "id"@).unwrap()]).unwrap()
    &&& item.name_spec() == cells[column(headers, "eng"@).unwrap()]
    &&& item.internal_name_spec() == cells[column(headers, "iName"@).unwrap()]
    &&& t == ItemType::Item ==> item.color_spec() == cells[column(headers, "color"@).unwrap()]
}

/// The error of the first data row that has one.
pub open spec fn first_error(headers: Seq<Seq<char>>, rows: Seq<Seq<Seq<char>>>, t: ItemType) -> Option<
    CatalogError,
>
    decreases rows.len(),
{
    if rows.len() == 0 {
        None
    } else if row_error(headers, rows[0], t).is_some() {
        row_error(headers, rows[0], t)
    } else {
        first_error(headers, rows.drop_first(), t)
    }
}

proof fn lemma_first_error_push(headers: Seq<Seq<char>>, rows: Seq<Seq<Seq<char>>>, row: Seq<Seq<char>>, t: ItemType)
    requires
        first_error(headers, rows, t).is_none(),
    ensures
        first_error(headers, rows.push(row), t) == row_error(headers, row, t),
    decreases rows.len(),
{
    let pushed = rows.push(row);
    if rows.len() == 0 {
        assert(pushed.drop_first() =~= Seq::<Seq<Seq<char>>>::empty());
        assert(pushed[0] == row);
        assert(first_error(headers, pushed.drop_first(), t).is_none());
    } else {
        assert(pushed.drop_first() =~= rows.drop_first().push(row));
        assert(pushed[0] == rows[0]);
        assert(row_error(headers, rows[0], t).is_none());
        lemma_first_error_push(headers, rows.drop_first(), row, t);
    }
}

/// The trimmed cells of a line.
fn cells_of(line: &str) -> (r: Vec<String>)
    ensures
        r@.map_values(|c: String| c@) == row_cells(line@),
{
    let parts = split_str(line, ';');
    let ghost raw = parts@.map_values(|p: &str| p@);
    let mut r: Vec<String> = Vec::new();
    let mut i: usize = 0;
    while i < parts.len()
        invariant
            raw == parts@.map_values(|p: &str| p@),
            raw == split_char(line@, ';'),
            i <= parts@.len(),
            r@.map_values(|c: String| c@) =~~= raw.subrange(0, i as int).map_values(
                |c: Seq<char>| trimmed(c),
            ),
        decreases parts@.len() - i,
    {
        let cell = String::from_str(trim(parts[i]));
        let ghost rm = r@.map_values(|c: String| c@);
        r.push(cell);
        assert(r@.map_values(|c: String| c@) =~~= rm.push(cell@));
        assert(raw.subrange(0, i + 1).map_values(|c: Seq<char>| trimmed(c)) =~~= raw.subrange(
            0,
            i as int,
        ).map_values(|c: Seq<char>| trimmed(c)).push(trimmed(raw[i as int])));
        i = i + 1;
    }
    assert(raw.subrange(0, i as int) =~= raw);
    r
}

/// The non-empty cells.
fn non_empty_cells(cells: Vec<String>) -> (r: Vec<String>)
    ensures
        r@.map_values(|c: String| c@) == non_empty(cells@.map_values(|c: String| c@)),
{
    let ghost cs = cells@.map_values(|c: String| c@);
    let mut r: Vec<String> = Vec::new();
    let mut i: usize = 0;
    assert(r@.map_values(|c: String| c@) =~~= non_empty(cs.subrange(0, 0)));
    while i < cells.len()
        invariant
            cs == cells@.map_values(|c: String| c@),
            i <= cells@.len(),
            r@.map_values(|c: String| c@) =~~= non_empty(cs.subrange(0, i as int)),
        decreases cells@.len() - i,
    {
        assert(cs.subrange(0, i + 1).drop_last() =~= cs.subrange(0, i as int));
        if cells[i].unicode_len() > 0 {
            let ghost rm = r@.map_values(|c: String| c@);
            r.push(cells[i].clone());
            assert(r@.map_values(|c: String| c@) =~~= rm.push(cs[i as int]));
        }
        i = i + 1;
    }
    assert(cs.subrange(0, i as int) =~= cs);
    r
}

/// The position of the first column with the given name.
fn column_of(headers: &Vec<String>, name: &str) -> (r: Option<usize>)
    ensures
        r.is_some() == column(headers@.map_values(|h: String| h@), name@).is_some(),
        r.is_some() ==> column(headers@.map_values(|h: String| h@), name@) == Some(
            r.unwrap() as int,
        ),
{
    let ghost hs = headers@.map_values(|h: String| h@);
    let wanted = String::from_str(name);
    let mut i: usize = 0;
    assert(hs.subrange(0, hs.len() as int) =~= hs);
    while i < headers.len()
        invariant
            hs == headers@.map_values(|h: String| h@),
            wanted@ == name@,
            i <= hs.len(),
            column(hs, name@) == match column(hs.subrange(i as int, hs.len() as int), name@) {
                Some(k) => Some(k + i),
                None => None,
            },
        decreases hs.len() - i,
    {
        assert(hs.subrange(i as int, hs.len() as int).drop_first() =~= hs.subrange(
            i + 1,
            hs.len() as int,
        ));
        if headers[i] == wanted {
            return Some(i);
        }
        i = i + 1;
    }
    None
}

/// Builds the entry of one data row from its trimmed cells: the error of the
/// row, if it has one, else the entry that `row_item` describes.
pub fn item_from_cells(headers: &Vec<String>, cells: &Vec<String>, t: ItemType) -> (r: Result<
    Item,
    CatalogError,
>)
    requires
        cells@.len() == headers@.len(),
    ensures
        match r {
            Ok(item) => row_error(
                headers@.map_values(|h: String| h@),
                cells@.map_values(|c: String| c@),
                t,
            ).is_none() && row_item(
                item,
                headers@.map_values(|h: String| h@),
                cells@.map_values(|c: String| c@),
                t,
            ),
            Err(e) => row_error(
                headers@.map_values(|h: String| h@),
                cells@.map_values(|c: String| c@),
                t,
            ) == Some(e),
        },
{
    let ghost cs = cells@.map_values(|c: String| c@);
    let ghost hs = headers@.map_values(|h: String| h@);
    let id_col = match column_of(headers, "id") {
        Some(k) => k,
        None => return Err(CatalogError::MissingColumn),
    };
    proof {
        lemma_column_in_range(hs, "id"@);
    }
    let mut id_chars: Vec<char> = Vec::new();
    push_chars(&mut id_chars, cells[id_col].as_str());
    assert(id_chars@ =~= cs[id_col as int]);
    let id = match parse_hex_u32(&id_chars) {
        Some(v) => v,
        None => return Err(CatalogError::InvalidId),
    };
    assert(column(hs, "id"@) == Some(id_col as int));
    assert(hex_value(cs[id_col as int]) == Some(id));
    let eng_col = match column_of(headers, "eng") {
        Some(k) => k,
        None => return Err(CatalogError::MissingColumn),
    };
    let i_col = match column_of(headers, "iName") {
        Some(k) => k,
        None => return Err(CatalogError::MissingColumn),
    };
    proof {
        lemma_column_in_range(hs, "eng"@);
        lemma_column_in_range(hs, "iName"@);
    }
    assert(cs[eng_col as int] == cells@[eng_col as int]@);
    assert(cs[i_col as int] == cells@[i_col as int]@);
    match t {
        ItemType::Item => {
            let color_col = match column_of(headers, "color") {
                Some(k) => k,
                None => return Err(CatalogError::MissingColumn),
            };
            proof {
                lemma_column_in_range(hs, "color"@);
            }
            Ok(
                Item::Item {
                    item_id: id,
                    eng_name: cells[eng_col].clone(),
                    i_name: cells[i_col].clone(),
                    color: cells[color_col].clone(),
                },
            )
        },
        ItemType::Recipe => {
            let item = Item::Recipe {
                recipe_id: id,
                eng_name: cells[eng_col].clone(),
                i_name: cells[i_col].clone(),
            };
            Ok(item)
        },
    }
}

proof fn lemma_rows_split(lines: Seq<Seq<char>>, m: int, width: nat)
    requires
        0 <= m <= lines.len(),
    ensures
        rows_of_width(lines, width) == rows_of_width(lines.subrange(0, m), width) + rows_of_width(
            lines.subrange(m, lines.len() as int),
            width,
        ),
    decreases lines.len(),
{
    if m == lines.len() {
        assert(lines.subrange(0, m) =~= lines);
        assert(lines.subrange(m, lines.len() as int) =~= Seq::<Seq<char>>::empty());
        assert(rows_of_width(lines, width) + Seq::<Seq<Seq<char>>>::empty() =~= rows_of_width(
            lines,
            width,
        ));
    } else {
        let init = lines.drop_last();
        lemma_rows_split(init, m, width);
        assert(init.subrange(0, m) =~= lines.subrange(0, m));
        let tail = lines.subrange(m, lines.len() as int);
        assert(tail.drop_last() =~= init.subrange(m, init.len() as int));
        assert(tail.last() == lines.last());
        let a = rows_of_width(lines.subrange(0, m), width);
        let b = rows_of_width(init.subrange(m, init.len() as int), width);
        if row_cells(lines.last()).len() == width {
            assert(a + b.push(row_cells(lines.last())) =~= (a + b).push(row_cells(lines.last())));
        }
    }
}

proof fn lemma_first_error_append(
    headers: Seq<Seq<char>>,
    a: Seq<Seq<Seq<char>>>,
    b: Seq<Seq<Seq<char>>>,
    t: ItemType,
)
    requires
        first_error(headers, a, t).is_some(),
    ensures
        first_error(headers, a + b, t) == first_error(headers, a, t),
    decreases a.len(),
{
    assert((a + b)[0] == a[0]);
    if row_error(headers, a[0], t).is_none() {
        assert((a + b).drop_first() =~= a.drop_first() + b);
        lemma_first_error_append(headers, a.drop_first(), b, t);
    }
}

proof fn lemma_column_in_range(headers: Seq<Seq<char>>, name: Seq<char>)
    ensures
        match column(headers, name) {
            Some(k) => 0 <= k < headers.len(),
            None => true,
        },
    decreases headers.len(),
{
    if headers.len() > 0 {
        lemma_column_in_range(headers.drop_first(), name);
    }
}

impl AcnhItems {
    /// Adds the entries of a catalog text of the given kind. The first line
    /// names the columns, separated by `;`; every later line with as many
    /// cells becomes an entry. On an error nothing is added.
    pub fn load_items_file(&mut self, contents: &str, item_type: ItemType) -> (r: Result<
        (),
        CatalogError,
    >)
        ensures
            match r {
                Ok(()) => {
                    &&& first_error(header_of(contents@), data_rows(contents@), item_type).is_none()
                    &&& final(self)@.len() == old(self)@.len() + data_rows(contents@).len()
                    &&& final(self)@.subrange(0, old(self)@.len() as int) == old(self)@
                    &&& forall|k: int|
                        0 <= k < data_rows(contents@).len() ==> row_item(
                            #[trigger] final(self)@[old(self)@.len() + k],
                            header_of(contents@),
                            data_rows(contents@)[k],
                            item_type,
                        )
                },
                Err(e) => {
                    &&& first_error(header_of(contents@), data_rows(contents@), item_type) == Some(e)
                    &&& final(self)@ == old(self)@
                },
            },
    {
        let lines = split_str(contents, '\n');
        let ghost ls = lines@.map_values(|p: &str| p@);
        proof {
            crate::text::lemma_split_nonempty(contents@, '\n');
        }
        let headers = non_empty_cells(cells_of(lines[0]));
        let ghost hs = headers@.map_values(|h: String| h@);
        assert(hs == header_of(contents@));
        let ghost body = ls.drop_first();
        let mut added: Vec<Item> = Vec::new();
        let ghost mut rows: Seq<Seq<Seq<char>>> = Seq::empty();
        let mut li: usize = 1;
        assert(body.subrange(0, 0) =~= Seq::<Seq<char>>::empty());
        while li < lines.len()
            invariant
                ls == lines@.map_values(|p: &str| p@),
                ls == split_char(contents@, '\n'),
                body == ls.drop_first(),
                hs == headers@.map_values(|h: String| h@),
                hs == header_of(contents@),
                1 <= li <= lines@.len(),
                rows == rows_of_width(body.subrange(0, li - 1), hs.len()),
                first_error(hs, rows, item_type).is_none(),
                added@.len() == rows.len(),
                forall|k: int|
                    0 <= k < rows.len() ==> row_item(#[trigger] added@[k], hs, rows[k], item_type),
            decreases lines@.len() - li,
        {
            assert(body.subrange(0, li as int).drop_last() =~= body.subrange(0, li - 1));
            assert(body.subrange(0, li as int).last() == ls[li as int]);
            let cells = cells_of(lines[li]);
            if cells.len() == headers.len() {
                let ghost cs = cells@.map_values(|c: String| c@);
                proof {
                    lemma_first_error_push(hs, rows, cs, item_type);
                }
                match item_from_cells(&headers, &cells, item_type) {
                    Ok(item) => {
                        added.push(item);
                        proof {
                            rows = rows.push(cs);
                        }
                    },
                    Err(e) => {
                        proof {
                            lemma_rows_split(body, li as int, hs.len());
                            assert(rows_of_width(body.subrange(0, li as int), hs.len()) == rows.push(cs));
                            lemma_first_error_append(
                                hs,
                                rows.push(cs),
                                rows_of_width(body.subrange(li as int, body.len() as int), hs.len()),
                                item_type,
                            );
                        }
                        return Err(e);
                    },
                }
            }
            li = li + 1;
        }
        assert(body.subrange(0, li - 1) =~= body);
        let n0 = self.items.len();
        let mut j: usize = 0;
        while j < added.len()
            invariant
                n0 == old(self)@.len(),
                j <= added@.len(),
                self@.len() == n0 + j,
                self@.subrange(0, n0 as int) == old(self)@,
                forall|k: int| 0 <= k < j ==> #[trigger] self@[n0 + k] == added@[k],
            decreases added@.len() - j,
        {
            self.items.push(added[j].duplicate());
            assert(self@.subrange(0, n0 as int) =~= old(self)@);
            j = j + 1;
        }
        Ok(())
    }

    /// Adds the item catalog and then the recipe catalog. An error in the
    /// item catalog adds nothing; an error in the recipe catalog keeps the
    /// items already added.
    pub fn load_items(&mut self, items_csv: &str, recipes_csv: &str) -> (r: Result<(), CatalogError>)
        ensures
            match first_error(header_of(items_csv@), data_rows(items_csv@), ItemType::Item) {
                Some(e) => r == Err::<(), CatalogError>(e) && final(self)@ == old(self)@,
                None => {
                    &&& final(self)@.subrange(0, old(self)@.len() as int) == old(self)@
                    &&& final(self)@.len() >= old(self)@.len() + data_rows(items_csv@).len()
                    &&& forall|k: int|
                        0 <= k < data_rows(items_csv@).len() ==> row_item(
                            #[trigger] final(self)@[old(self)@.len() + k],
                            header_of(items_csv@),
                            data_rows(items_csv@)[k],
                            ItemType::Item,
                        )
                    &&& match first_error(
                        header_of(recipes_csv@),
                        data_rows(recipes_csv@),
                        ItemType::Recipe,
                    ) {
                        Some(e) => r == Err::<(), CatalogError>(e) && final(self)@.len()
                            == old(self)@.len() + data_rows(items_csv@).len(),
                        None => {
                            &&& r == Ok::<(), CatalogError>(())
                            &&& final(self)@.len() == old(self)@.len() + data_rows(items_csv@).len()
                                + data_rows(recipes_csv@).len()
                            &&& forall|k: int|
                                0 <= k < data_rows(recipes_csv@).len() ==> row_item(
                                    #[trigger] final(self)@[old(self)@.len() + data_rows(
                                        items_csv@,
                                    ).len() + k],
                                    header_of(recipes_csv@),
                                    data_rows(recipes_csv@)[k],
                                    ItemType::Recipe,
                                )
                        },
                    }
                },
            },
    {
        let ghost start = self@;
        match self.load_items_file(items_csv, ItemType::Item) {
            Ok(()) => {},
            Err(e) => return Err(e),
        }
        let ghost mid = self@;
        let r = match self.load_items_file(recipes_csv, ItemType::Recipe) {
            Ok(()) => Ok(()),
            Err(e) => Err(e),
        };
        assert forall|k: int| 0 <= k < data_rows(items_csv@).len() implies #[trigger] self@[start.len()
            + k] == mid[start.len() + k] by {
            assert(self@.subrange(0, mid.len() as int)[start.len() + k] == mid[start.len() + k]);
        }
        assert forall|k: int| 0 <= k < start.len() implies self@[k] == start[k] by {
            assert(self@.subrange(0, mid.len() as int)[k] == mid[k]);
            assert(mid.subrange(0, start.len() as int)[k] == start[k]);
        }
        assert(self@.subrange(0, start.len() as int) =~= start);
        r
    }
}

} // verus!
