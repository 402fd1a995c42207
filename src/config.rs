use vstd::prelude::*;
use toml_edit::{DocumentMut, Item, TomlError};
use crate::error::ThemeError;
use crate::palette::{lemma_slot_keys_distinct, slot_key, slot_name, Palette, Theme, SLOT_COUNT};

verus! {

#[verifier::external_type_specification]
#[verifier::external_body]
pub struct ExDocumentMut(toml_edit::DocumentMut);

#[verifier::external_type_specification]
#[verifier::external_body]
pub struct ExItem(toml_edit::Item);

#[verifier::external_type_specification]
#[verifier::external_body]
pub struct ExTomlError(toml_edit::TomlError);

/// The root table of a document, as `DocumentMut::as_item` returns it.
pub uninterp spec fn toml_root(d: DocumentMut) -> Item;

/// The entry under `key` of a table or inline table, as `Item::get` returns it.
pub uninterp spec fn toml_child(i: Item, key: Seq<char>) -> Option<Item>;

/// The string an item holds, as `Item::as_str` returns it.
pub uninterp spec fn toml_str(i: Item) -> Option<Seq<char>>;

/// Whether an item is a table or an inline table, as `Item::is_table_like` says.
pub uninterp spec fn toml_table_like(i: Item) -> bool;

/// The table `data`.
pub open spec fn data_of(d: DocumentMut) -> Option<Item> {
    toml_child(toml_root(d), "data"@)
}

/// The table `data.cheztheme` that holds the persisted selection.
pub open spec fn section_of(d: DocumentMut) -> Option<Item> {
    match data_of(d) {
        Some(data) => toml_child(data, "cheztheme"@),
        None => None,
    }
}

/// The string value of field `key` of the selection table, if it holds one.
pub open spec fn field_of(d: DocumentMut, key: Seq<char>) -> Option<Seq<char>> {
    match section_of(d) {
        Some(s) => match toml_child(s, key) {
            Some(v) => toml_str(v),
            None => None,
        },
        None => None,
    }
}

/// Both `data` and `data.cheztheme` exist and are tables, so fields can be set.
pub open spec fn section_writable(d: DocumentMut) -> bool {
    &&& data_of(d) matches Some(data) && toml_table_like(data)
    &&& section_of(d) matches Some(s) && toml_table_like(s)
}

/// The fields that applying a theme writes.
pub open spec fn is_selection_key(k: Seq<char>) -> bool {
    k == "themeName"@ || exists|i: int| 0 <= i < SLOT_COUNT && k == slot_key(i)
}

/// Every entry outside the fields in `keys` is the same in `a` and `b`,
/// at each level of the path `data.cheztheme`.
pub open spec fn same_outside(a: DocumentMut, b: DocumentMut, keys: spec_fn(Seq<char>) -> bool) -> bool {
    &&& forall|k: Seq<char>| k != "data"@ ==> toml_child(toml_root(a), k) == toml_child(toml_root(b), k)
    &&& forall|k: Seq<char>| k != "cheztheme"@ ==> toml_child(data_of(a)->0, k) == toml_child(data_of(b)->0, k)
    &&& forall|k: Seq<char>| !keys(k) ==> toml_child(section_of(a)->0, k) == toml_child(section_of(b)->0, k)
}

/// Whether toml_edit accepts a text as a TOML document.
pub uninterp spec fn toml_parses(text: Seq<char>) -> bool;

/// Relies on toml_edit's `FromStr` for `DocumentMut`, which parses a TOML
/// document and keeps its formatting; whether it succeeds depends on the text
/// alone.
#[verifier::external_body]
fn parse_document(text: &str) -> (r: Result<DocumentMut, TomlError>)
    ensures
        r is Ok <==> toml_parses(text@),
{
    text.parse::<DocumentMut>()
}

/// Relies on `DocumentMut::as_item`: the root table.
#[verifier::external_body]
fn root_item(d: &DocumentMut) -> (r: &Item)
    ensures
        *r == toml_root(*d),
{
    d.as_item()
}

/// Relies on `Item::get`: the entry under `key`, or `None` when the item is
/// no table or has no such entry.
#[verifier::external_body]
fn child_item<'a>(i: &'a Item, key: &str) -> (r: Option<&'a Item>)
    ensures
        match r {
            Some(c) => toml_child(*i, key@) == Some(*c),
            None => toml_child(*i, key@) is None,
        },
{
    i.get(key)
}

/// Relies on `Item::as_str`: the string held by a string value.
#[verifier::external_body]
fn item_str(i: &Item) -> (r: Option<&str>)
    ensures
        match r {
            Some(s) => toml_str(*i) == Some(s@),
            None => toml_str(*i) is None,
        },
{
    i.as_str()
}

/// Relies on `Item::is_table_like`.
#[verifier::external_body]
fn item_is_table_like(i: &Item) -> (r: bool)
    ensures
        r == toml_table_like(*i),
{
    i.is_table_like()
}

/// Relies on toml_edit's `IndexMut` for `DocumentMut` and `Item`, and on
/// `toml_edit::value`: assigning to `doc[outer][inner][key]` replaces that one
/// entry of the existing tables with a string value, and touches no other
/// entry.
#[verifier::external_body]
fn set_section_string(doc: &mut DocumentMut, outer: &str, inner: &str, key: &str, v: &str)
    requires
        outer@ == "data"@,
        inner@ == "cheztheme"@,
        section_writable(*old(doc)),
    ensures
        section_writable(*final(doc)),
        field_of(*final(doc), key@) == Some(v@),
        same_outside(*final(doc), *old(doc), |k: Seq<char>| k == key@),
{
    doc[outer][inner][key] = toml_edit::value(v);
}

/// Parses the text of the configuration document.
pub fn load_document(text: &str) -> (r: Result<DocumentMut, ThemeError>)
    ensures
        r is Ok <==> toml_parses(text@),
        r is Err ==> r == Err::<DocumentMut, ThemeError>(ThemeError::Parse),
{
    match parse_document(text) {
        Ok(d) => Ok(d),
        Err(_) => Err(ThemeError::Parse),
    }
}

/// The selection table, if the document has one.
fn section(doc: &DocumentMut) -> (r: Option<&Item>)
    ensures
        match r {
            Some(s) => section_of(*doc) == Some(*s),
            None => section_of(*doc) is None,
        },
{
    let root = root_item(doc);
    match child_item(root, "data") {
        Some(data) => child_item(data, "cheztheme"),
        None => None,
    }
}

/// The string in field `key` of the selection table.
pub fn read_field(doc: &DocumentMut, key: &str) -> (r: Option<String>)
    ensures
        match r {
            Some(s) => field_of(*doc, key@) == Some(s@),
            None => field_of(*doc, key@) is None,
        },
{
    match section(doc) {
        Some(s) => match child_item(s, key) {
            Some(v) => match item_str(v) {
                Some(text) => Some(text.to_string()),
                None => None,
            },
            None => None,
        },
        None => None,
    }
}

/// The name of the theme last applied, read from field `themeName`.
pub fn current_theme_name(doc: &DocumentMut) -> (r: Result<String, ThemeError>)
    ensures
        match field_of(*doc, "themeName"@) {
            Some(name) => r matches Ok(s) && s@ == name,
            None => r == Err::<String, ThemeError>(ThemeError::Parse),
        },
{
    match read_field(doc, "themeName") {
        Some(s) => Ok(s),
        None => Err(ThemeError::Parse),
    }
}

/// `new` holds theme `name` with palette `slots` in the selection table, and
/// every other entry of `old` is unchanged.
pub open spec fn holds_selection(new: DocumentMut, old: DocumentMut, name: Seq<char>, slots: Seq<Seq<char>>) -> bool {
    &&& field_of(new, "themeName"@) == Some(name)
    &&& forall|i: int| 0 <= i < SLOT_COUNT ==> field_of(new, #[trigger] slot_key(i)) == Some(slots[i])
    &&& same_outside(new, old, |k: Seq<char>| is_selection_key(k))
}

proof fn lemma_slot_key_not_name(i: int)
    requires
        0 <= i < SLOT_COUNT,
    ensures
        slot_key(i) != "themeName"@,
{
    reveal_strlit("themeName");
    assert(slot_key(i).len() == 6);
}

/// The palette persisted in the selection table: the sixteen slot fields.
pub fn read_palette(doc: &DocumentMut) -> (r: Result<Palette, ThemeError>)
    ensures
        match r {
            Ok(p) => forall|i: int| 0 <= i < SLOT_COUNT ==> field_of(*doc, #[trigger] slot_key(i)) == Some(p@[i]),
            Err(e) => e == ThemeError::Parse
                && exists|i: int| 0 <= i < SLOT_COUNT && field_of(*doc, #[trigger] slot_key(i)) is None,
        },
{
    let mut slots: Vec<String> = Vec::new();
    let mut i: usize = 0;
    while i < SLOT_COUNT
        invariant
            i <= SLOT_COUNT,
            slots@.len() == i,
            forall|j: int| 0 <= j < i ==> field_of(*doc, #[trigger] slot_key(j)) == Some(slots@[j]@),
        decreases SLOT_COUNT - i,
    {
        match read_field(doc, slot_name(i)) {
            Some(v) => slots.push(v),
            None => {
                assert(field_of(*doc, slot_key(i as int)) is None);
                return Err(ThemeError::Parse);
            },
        }
        i = i + 1;
    }
    let ghost seen = slots@;
    match Palette::from_slots(slots) {
        Some(p) => {
            assert forall|j: int| 0 <= j < SLOT_COUNT implies field_of(*doc, #[trigger] slot_key(j)) == Some(p@[j]) by {
                assert(p@[j] == seen[j]@);
            }
            Ok(p)
        },
        None => Err(ThemeError::Parse),
    }
}

/// Writes theme `theme_name` and its palette into the selection table.
/// Fails, leaving the document as it was, when `data.cheztheme` is not a table.
pub fn apply_theme(doc: &mut DocumentMut, theme_name: &str, theme: &Theme) -> (r: Result<(), ThemeError>)
    ensures
        section_writable(*old(doc)) ==> r is Ok && holds_selection(*final(doc), *old(doc), theme_name@, theme.palette@),
        !section_writable(*old(doc)) ==> r == Err::<(), ThemeError>(ThemeError::Parse) && *final(doc) == *old(doc),
{
    let writable = match section(doc) {
        Some(s) => {
            let root = root_item(doc);
            match child_item(root, "data") {
                Some(data) => item_is_table_like(data) && item_is_table_like(s),
                None => false,
            }
        },
        None => false,
    };
    if !writable {
        return Err(ThemeError::Parse);
    }
    let ghost start = *doc;
    set_section_string(doc, "data", "cheztheme", "themeName", theme_name);
    let mut i: usize = 0;
    while i < SLOT_COUNT
        invariant
            i <= SLOT_COUNT,
            section_writable(*doc),
            field_of(*doc, "themeName"@) == Some(theme_name@),
            forall|j: int| 0 <= j < i ==> field_of(*doc, #[trigger] slot_key(j)) == Some(theme.palette@[j]),
            same_outside(*doc, start, |k: Seq<char>| is_selection_key(k)),
        decreases SLOT_COUNT - i,
    {
        let ghost before = *doc;
        let key = slot_name(i);
        set_section_string(doc, "data", "cheztheme", key, theme.palette.slot(i));
        proof {
            lemma_slot_key_not_name(i as int);
            assert forall|j: int| 0 <= j < i + 1 implies field_of(*doc, #[trigger] slot_key(j)) == Some(theme.palette@[j]) by {
                if j < i {
                    lemma_slot_keys_distinct(i as int, j);
                }
            }
            assert forall|k: Seq<char>| !is_selection_key(k) implies toml_child(section_of(*doc)->0, k) == toml_child(section_of(start)->0, k) by {
                assert(k != slot_key(i as int));
            }
        }
        i = i + 1;
    }
    Ok(())
}

/// Applying a theme and then reading the selection back gives the theme's
/// name as the current theme, and its palette slot for slot.
pub proof fn lemma_apply_then_current(new: DocumentMut, old: DocumentMut, name: Seq<char>, slots: Seq<Seq<char>>)
    requires
        holds_selection(new, old, name, slots),
    ensures
        field_of(new, "themeName"@) == Some(name),
        forall|i: int| 0 <= i < SLOT_COUNT ==> field_of(new, #[trigger] slot_key(i)) == Some(slots[i]),
{
}

/// Applying a theme changes no entry of the document but `themeName` and the
/// sixteen slot fields of the selection table: every other top-level entry,
/// every other entry of `data`, and every other field of `data.cheztheme` is
/// the same item as before.
pub proof fn lemma_apply_keeps_unrelated(new: DocumentMut, old: DocumentMut, name: Seq<char>, slots: Seq<Seq<char>>)
    requires
        holds_selection(new, old, name, slots),
    ensures
        forall|k: Seq<char>| k != "data"@ ==> toml_child(toml_root(new), k) == toml_child(toml_root(old), k),
        forall|k: Seq<char>| k != "cheztheme"@ ==> toml_child(data_of(new)->0, k) == toml_child(data_of(old)->0, k),
        forall|k: Seq<char>| !is_selection_key(k) ==> toml_child(section_of(new)->0, k) == toml_child(section_of(old)->0, k),
{
}

} // verus!
