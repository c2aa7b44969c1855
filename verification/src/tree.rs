//! The syntax tree of a manifest, as `toml_edit` holds it, and what this
//! library relies on of it.
//!
//! Nothing in this file is proved. Each function here hands one call on to
//! `toml_edit`, and its contract says what that call does to the model of the
//! tree that stands at the head of the file. Where a call changes the tree,
//! the contract also says when the tree stays as it was: a part that is
//! borrowed and given back unchanged leaves the whole unchanged, and so does
//! writing what already stood there.

use vstd::prelude::*;
use toml_edit::{
    Array, Decor, Document, InlineTable, Item, RawString, Table, TomlError, Value,
};

verus! {

/// The white space and comments around a value. A side is `None` where none
/// was set for it, or where it has no text of its own.
pub struct Decoration {
    pub prefix: Option<Seq<char>>,
    pub suffix: Option<Seq<char>>,
}

/// A value in a list.
pub struct Entry {
    /// The string that the value holds; `None` where it is not a string.
    pub text: Option<Seq<char>>,
    /// The spelling that the value was read with; `None` where it is written
    /// in the default way.
    pub raw: Option<Seq<char>>,
    /// What stands around the value.
    pub decor: Decoration,
}

/// An array.
pub struct List {
    /// The slots of the array, in order; `None` for a slot that holds no value.
    pub entries: Seq<Option<Entry>>,
    /// What stands after the last value; `None` where it has no text of its own.
    pub trailing: Option<Seq<char>>,
    /// Whether a comma follows the last value.
    pub trailing_comma: bool,
}

/// What a table holds, written inline or not.
pub struct Keyed {
    /// The items that are not empty, by key.
    pub items: Map<Seq<char>, Node>,
    /// The keys that the table holds, in the order in which it holds them.
    pub order: Seq<Seq<char>>,
}

/// An item of the tree.
pub enum Node {
    /// A table that is not written inline.
    Section(Keyed),
    /// A table that is written inline.
    Inline(Keyed),
    /// An array of values.
    List(List),
    /// Anything else: another value, an array of tables, or nothing. It is
    /// held as it is.
    Other(Item),
}

/// The table `keyed` with `node` under `key`: in the place of what stood
/// under that key, or as the last item where the table did not hold the key.
pub open spec fn with_item(keyed: Keyed, key: Seq<char>, node: Node) -> Keyed {
    Keyed {
        items: keyed.items.insert(key, node),
        order: if keyed.order.contains(key) {
            keyed.order
        } else {
            keyed.order.push(key)
        },
    }
}

/// The table `keyed` with `node` in the place of the item under `key`.
pub open spec fn with_changed(keyed: Keyed, key: Seq<char>, node: Node) -> Keyed {
    Keyed { items: keyed.items.insert(key, node), order: keyed.order }
}

/// A whole document.
pub struct Manifest {
    /// The root of the tree.
    pub root: Node,
    /// The text that the document is written as.
    pub text: Seq<char>,
}

#[verifier::external_type_specification]
#[verifier::external_body]
pub struct ExDocument(Document);

#[verifier::external_type_specification]
#[verifier::external_body]
pub struct ExItem(Item);

#[verifier::external_type_specification]
#[verifier::external_body]
pub struct ExTable(Table);

#[verifier::external_type_specification]
#[verifier::external_body]
pub struct ExInlineTable(InlineTable);

#[verifier::external_type_specification]
#[verifier::external_body]
pub struct ExArray(Array);

#[verifier::external_type_specification]
#[verifier::external_body]
pub struct ExValue(Value);

#[verifier::external_type_specification]
#[verifier::external_body]
pub struct ExDecor(Decor);

#[verifier::external_type_specification]
#[verifier::external_body]
pub struct ExRawString(RawString);

#[verifier::external_type_specification]
#[verifier::external_body]
pub struct ExTomlError(TomlError);

/// What a document holds.
pub uninterp spec fn document_model(document: Document) -> Manifest;

/// What an item holds.
pub uninterp spec fn item_model(item: Item) -> Node;

/// What a table holds.
pub uninterp spec fn table_model(table: Table) -> Keyed;

/// What an inline table holds: its items are the values that it holds.
pub uninterp spec fn inline_model(table: InlineTable) -> Keyed;

/// What a value is when it is taken as an item.
pub uninterp spec fn value_node(value: Value) -> Node;

/// What an array holds.
pub uninterp spec fn array_model(array: Array) -> List;

/// What a value holds.
pub uninterp spec fn value_model(value: Value) -> Entry;

/// What a decor holds.
pub uninterp spec fn decor_model(decor: Decor) -> Decoration;

/// The text of a raw string; `None` where it has no text of its own.
pub uninterp spec fn raw_model(raw: RawString) -> Option<Seq<char>>;

/// What `text` is read as; `None` where it is not a TOML document.
pub uninterp spec fn toml_parse(text: Seq<char>) -> Option<Manifest>;

/// `Document::from_str`: the document that `text` is read as, or the error
/// where it is not TOML. The same text always gives the same outcome. The
/// root of a document that was read is a table.
#[verifier::external_body]
pub(crate) fn parse_document(text: &str) -> (res: Result<Document, TomlError>)
    ensures
        res matches Ok(document) ==> toml_parse(text@) == Some(document_model(document))
            && document_model(document).root is Section,
        res is Err ==> toml_parse(text@) is None,
{
    text.parse::<Document>()
}

/// `TomlError::message`: what went wrong, in words.
#[verifier::external_body]
pub(crate) fn toml_error_message(error: &TomlError) -> (res: String) {
    error.message().to_owned()
}

/// `Document::new`: a document whose root is a table without items.
#[verifier::external_body]
pub(crate) fn document_new() -> (document: Document)
    ensures
        document_model(document).root == Node::Section(no_items()),
{
    Document::new()
}

/// `Document`'s `to_string`: the text that the document is written as. It
/// panics where the root is not a table.
#[verifier::external_body]
pub(crate) fn render_document(document: &Document) -> (res: String)
    requires
        document_model(*document).root is Section,
    ensures
        res@ == document_model(*document).text,
{
    document.to_string()
}

/// `Document::as_item`: the root of the tree.
#[verifier::external_body]
pub(crate) fn document_item(document: &Document) -> (root: &Item)
    ensures
        item_model(*root) == document_model(*document).root,
{
    document.as_item()
}

/// `Document::as_item_mut`: the root of the tree, to be changed in place.
/// The document ends with the root as the borrow leaves it, and is unchanged
/// where the root is.
#[verifier::external_body]
pub(crate) fn document_item_mut(document: &mut Document) -> (root: &mut Item)
    ensures
        item_model(*root) == document_model(*old(document)).root,
        document_model(*final(document)).root == item_model(*final(root)),
        *final(root) == *root ==> *final(document) == *old(document),
{
    document.as_item_mut()
}

/// `Item::as_table`: the table, where the item is one that is not written
/// inline. An item that is no table and no array is held as it is.
#[verifier::external_body]
pub(crate) fn item_as_table(item: &Item) -> (res: Option<&Table>)
    ensures
        res is Some <==> item_model(*item) is Section,
        res matches Some(table) ==> item_model(*item) == Node::Section(table_model(*table)),
        res is None && item_model(*item) is Other ==> item_model(*item) == Node::Other(*item),
{
    item.as_table()
}

/// `Item::as_table_mut`: the table, where the item is one, to be changed in
/// place. The item ends as the table that the borrow leaves, and is
/// unchanged where the table is.
#[verifier::external_body]
pub(crate) fn item_as_table_mut(item: &mut Item) -> (res: Option<&mut Table>)
    ensures
        res is Some <==> item_model(*old(item)) is Section,
        res matches Some(table) ==> {
            &&& item_model(*old(item)) == Node::Section(table_model(*table))
            &&& item_model(*final(item)) == Node::Section(table_model(*final(table)))
            &&& *final(table) == *table ==> *final(item) == *old(item)
        },
        res is None ==> *final(item) == *old(item),
{
    item.as_table_mut()
}

/// `Item::as_inline_table`: the table, where the item is one that is
/// written inline.
#[verifier::external_body]
pub(crate) fn item_as_inline_table(item: &Item) -> (res: Option<&InlineTable>)
    ensures
        res is Some <==> item_model(*item) is Inline,
        res matches Some(table) ==> item_model(*item) == Node::Inline(inline_model(*table)),
{
    item.as_inline_table()
}

/// `Item::as_inline_table_mut`: the table, where the item is one that is
/// written inline, to be changed in place. The item ends as the table that
/// the borrow leaves, and is unchanged where the table is.
#[verifier::external_body]
pub(crate) fn item_as_inline_table_mut(item: &mut Item) -> (res: Option<&mut InlineTable>)
    ensures
        res is Some <==> item_model(*old(item)) is Inline,
        res matches Some(table) ==> {
            &&& item_model(*old(item)) == Node::Inline(inline_model(*table))
            &&& item_model(*final(item)) == Node::Inline(inline_model(*final(table)))
            &&& *final(table) == *table ==> *final(item) == *old(item)
        },
        res is None ==> *final(item) == *old(item),
{
    item.as_inline_table_mut()
}

/// `Item::as_array`: the array, where the item is one.
#[verifier::external_body]
pub(crate) fn item_as_array(item: &Item) -> (res: Option<&Array>)
    ensures
        res is Some <==> item_model(*item) is List,
        res matches Some(array) ==> item_model(*item) == Node::List(array_model(*array)),
{
    item.as_array()
}

/// `Item::as_array_mut`: the array, where the item is one, to be changed in
/// place. The item ends as the array that the borrow leaves, and is
/// unchanged where the array is.
#[verifier::external_body]
pub(crate) fn item_as_array_mut(item: &mut Item) -> (res: Option<&mut Array>)
    ensures
        res is Some <==> item_model(*old(item)) is List,
        res matches Some(array) ==> {
            &&& item_model(*old(item)) == Node::List(array_model(*array))
            &&& item_model(*final(item)) == Node::List(array_model(*final(array)))
            &&& *final(array) == *array ==> *final(item) == *old(item)
        },
        res is None ==> *final(item) == *old(item),
{
    item.as_array_mut()
}

/// The variant `Item::Table`: the item that is `table`.
#[verifier::external_body]
pub(crate) fn item_of_table(table: Table) -> (item: Item)
    ensures
        item_model(item) == Node::Section(table_model(table)),
{
    Item::Table(table)
}

/// The variants `Item::Value` and `Value::Array`: the item that is `array`.
#[verifier::external_body]
pub(crate) fn item_of_array(array: Array) -> (item: Item)
    ensures
        item_model(item) == Node::List(array_model(array)),
{
    Item::Value(Value::Array(array))
}

/// A table that holds nothing.
pub open spec fn no_items() -> Keyed {
    Keyed { items: Map::empty(), order: Seq::empty() }
}

/// `Table::new`: a table without items.
#[verifier::external_body]
pub(crate) fn table_new() -> (table: Table)
    ensures
        table_model(table) == no_items(),
{
    Table::new()
}

/// `Table::get`: the item under `key`, where the table holds one.
#[verifier::external_body]
pub(crate) fn table_get<'a>(table: &'a Table, key: &str) -> (res: Option<&'a Item>)
    ensures
        res is Some <==> table_model(*table).items.contains_key(key@),
        res matches Some(item) ==> item_model(*item) == table_model(*table).items[key@],
{
    table.get(key)
}

/// `Table::get_mut`: the item under `key`, where the table holds one, to be
/// changed in place. The table ends with that item as the borrow leaves it,
/// where that is a table or an array, with its keys in the order that they
/// had, and is unchanged where the item is.
#[verifier::external_body]
pub(crate) fn table_get_mut<'a>(table: &'a mut Table, key: &str) -> (res: Option<&'a mut Item>)
    ensures
        res is Some <==> table_model(*old(table)).items.contains_key(key@),
        res matches Some(item) ==> {
            &&& item_model(*item) == table_model(*old(table)).items[key@]
            &&& !(item_model(*final(item)) is Other) ==> table_model(*final(table))
                == with_changed(table_model(*old(table)), key@, item_model(*final(item)))
            &&& *final(item) == *item ==> *final(table) == *old(table)
        },
        res is None ==> *final(table) == *old(table),
{
    table.get_mut(key)
}

/// `Table::insert`: `item` stands under `key`, in the place of what stood
/// there, or as the last item where the table did not hold the key. Asked
/// only for a table or an array.
#[verifier::external_body]
pub(crate) fn table_insert(table: &mut Table, key: &str, item: Item)
    requires
        item_model(item) is Section || item_model(item) is List,
    ensures
        table_model(*final(table)) == with_item(table_model(*old(table)), key@, item_model(item)),
{
    table.insert(key, item);
}

/// `InlineTable::get`: the value under `key`, where the table holds one.
#[verifier::external_body]
pub(crate) fn inline_get<'a>(table: &'a InlineTable, key: &str) -> (res: Option<&'a Value>)
    ensures
        res is Some <==> inline_model(*table).items.contains_key(key@),
        res matches Some(value) ==> value_node(*value) == inline_model(*table).items[key@],
{
    table.get(key)
}

/// `InlineTable::get_mut`: the value under `key`, where the table holds one,
/// to be changed in place. The table ends with that value as the borrow
/// leaves it, with its keys in the order that they had, and is unchanged
/// where the value is.
#[verifier::external_body]
pub(crate) fn inline_get_mut<'a>(table: &'a mut InlineTable, key: &str) -> (res: Option<
    &'a mut Value,
>)
    ensures
        res is Some <==> inline_model(*old(table)).items.contains_key(key@),
        res matches Some(value) ==> {
            &&& value_node(*value) == inline_model(*old(table)).items[key@]
            &&& inline_model(*final(table)) == with_changed(
                inline_model(*old(table)),
                key@,
                value_node(*final(value)),
            )
            &&& *final(value) == *value ==> *final(table) == *old(table)
        },
        res is None ==> *final(table) == *old(table),
{
    table.get_mut(key)
}

/// `InlineTable::insert`: `value` stands under `key`, in the place of what
/// stood there, or as the last item where the table did not hold the key.
#[verifier::external_body]
pub(crate) fn inline_insert(table: &mut InlineTable, key: &str, value: Value)
    ensures
        inline_model(*final(table)) == with_item(inline_model(*old(table)), key@, value_node(value)),
{
    table.insert(key, value);
}

/// `Value::as_array`: the array, where the value is one.
#[verifier::external_body]
pub(crate) fn value_as_array(value: &Value) -> (res: Option<&Array>)
    ensures
        res is Some <==> value_node(*value) is List,
        res matches Some(array) ==> value_node(*value) == Node::List(array_model(*array)),
{
    value.as_array()
}

/// `Value::as_array_mut`: the array, where the value is one, to be changed
/// in place. The value ends as the array that the borrow leaves, and is
/// unchanged where the array is.
#[verifier::external_body]
pub(crate) fn value_as_array_mut(value: &mut Value) -> (res: Option<&mut Array>)
    ensures
        res is Some <==> value_node(*old(value)) is List,
        res matches Some(array) ==> {
            &&& value_node(*old(value)) == Node::List(array_model(*array))
            &&& value_node(*final(value)) == Node::List(array_model(*final(array)))
            &&& *final(array) == *array ==> *final(value) == *old(value)
        },
        res is None ==> *final(value) == *old(value),
{
    value.as_array_mut()
}

/// The variant `Value::Array`: the value that is `array`.
#[verifier::external_body]
pub(crate) fn value_of_array(array: Array) -> (value: Value)
    ensures
        value_node(value) == Node::List(array_model(array)),
{
    Value::Array(array)
}

/// The list without values, with nothing after the last value and no comma
/// there.
pub open spec fn empty_list() -> List {
    List { entries: Seq::empty(), trailing: Some(Seq::empty()), trailing_comma: false }
}

/// `Array::new`: an array without values, with nothing after the last value
/// and no comma there.
#[verifier::external_body]
pub(crate) fn array_new() -> (array: Array)
    ensures
        array_model(array) == empty_list(),
{
    Array::new()
}

/// `Array::len`: the number of slots.
#[verifier::external_body]
pub(crate) fn array_len(array: &Array) -> (count: usize)
    ensures
        count == array_model(*array).entries.len(),
{
    array.len()
}

/// The value in slot `index` of `list`; `None` where there is no such slot,
/// or it holds no value.
pub open spec fn slot(list: List, index: int) -> Option<Entry> {
    if 0 <= index && index < list.entries.len() {
        list.entries[index]
    } else {
        None
    }
}

/// `list` with `entry` in slot `index`.
pub open spec fn with_slot(list: List, index: int, entry: Entry) -> List {
    List { entries: list.entries.update(index, Some(entry)), ..list }
}

/// `Array::get`: the value in slot `index`, where there is such a slot and
/// it holds one.
#[verifier::external_body]
pub(crate) fn array_get(array: &Array, index: usize) -> (res: Option<&Value>)
    ensures
        res is Some <==> slot(array_model(*array), index as int) is Some,
        res matches Some(value) ==> slot(array_model(*array), index as int) == Some(
            value_model(*value),
        ),
{
    array.get(index)
}

/// `Array::get_mut`: the value in slot `index`, where there is such a slot
/// and it holds one, to be changed in place. The array ends with that value
/// as the borrow leaves it, and is unchanged where the value is.
#[verifier::external_body]
pub(crate) fn array_get_mut(array: &mut Array, index: usize) -> (res: Option<&mut Value>)
    ensures
        res is Some <==> slot(array_model(*old(array)), index as int) is Some,
        res matches Some(value) ==> {
            &&& slot(array_model(*old(array)), index as int) == Some(value_model(*value))
            &&& array_model(*final(array)) == with_slot(
                array_model(*old(array)),
                index as int,
                value_model(*final(value)),
            )
            &&& *final(value) == *value ==> *final(array) == *old(array)
        },
        res is None ==> *final(array) == *old(array),
{
    array.get_mut(index)
}

/// The string `text` as a value that was just made: written in the default
/// way, with `prefix` before it and nothing after it.
pub open spec fn new_entry(text: Seq<char>, prefix: Seq<char>) -> Entry {
    Entry {
        text: Some(text),
        raw: None,
        decor: Decoration { prefix: Some(prefix), suffix: Some(Seq::empty()) },
    }
}

/// `list` with the string `text` added as a value that was just made: it has
/// a space before it, or nothing where it is the only value.
pub open spec fn with_pushed(list: List, text: Seq<char>) -> List {
    let prefix = if list.entries.len() == 0 {
        Seq::empty()
    } else {
        seq![' ']
    };
    List { entries: list.entries.push(Some(new_entry(text, prefix))), ..list }
}

/// `Array::push` of a string: the string is added as the last value. It has
/// a space before it, or nothing where it is the only value, and nothing
/// after it.
#[verifier::external_body]
pub(crate) fn array_push(array: &mut Array, text: &str)
    ensures
        array_model(*final(array)) == with_pushed(array_model(*old(array)), text@),
{
    array.push(text);
}

/// The string `text` in the place of `old`: written in the default way, with
/// around it what stood around `old`.
pub open spec fn replacement(old: Entry, text: Seq<char>) -> Entry {
    Entry { text: Some(text), raw: None, decor: old.decor }
}

/// `Array::replace` by a string: the string stands in slot `index`, with
/// around it what stood around the value that was there. It panics where
/// the slot is missing or holds no value. The array is unchanged where that
/// value was this string, written in the default way.
#[verifier::external_body]
pub(crate) fn array_replace(array: &mut Array, index: usize, text: &str)
    requires
        slot(array_model(*old(array)), index as int) is Some,
    ensures
        array_model(*final(array)) == with_slot(
            array_model(*old(array)),
            index as int,
            replacement(slot(array_model(*old(array)), index as int)->0, text@),
        ),
        array_model(*final(array)) == array_model(*old(array)) ==> *final(array) == *old(array),
{
    array.replace(index, text);
}

/// `Array::trailing`: what stands after the last value.
#[verifier::external_body]
pub(crate) fn array_trailing(array: &Array) -> (raw: &RawString)
    ensures
        raw_model(*raw) == array_model(*array).trailing,
{
    array.trailing()
}

/// `Array::set_trailing`: `text` stands after the last value. The array is
/// unchanged where it stood there before.
#[verifier::external_body]
pub(crate) fn array_set_trailing(array: &mut Array, text: &str)
    ensures
        array_model(*final(array)) == (List { trailing: Some(text@), ..array_model(*old(array)) }),
        array_model(*final(array)) == array_model(*old(array)) ==> *final(array) == *old(array),
{
    array.set_trailing(text);
}

/// `Array::set_trailing_comma`: whether a comma follows the last value. The
/// array is unchanged where that was so before.
#[verifier::external_body]
pub(crate) fn array_set_trailing_comma(array: &mut Array, yes: bool)
    ensures
        array_model(*final(array)) == (List { trailing_comma: yes, ..array_model(*old(array)) }),
        array_model(*final(array)) == array_model(*old(array)) ==> *final(array) == *old(array),
{
    array.set_trailing_comma(yes);
}

/// `Value::as_str`: the string that the value holds, where it is one.
#[verifier::external_body]
pub(crate) fn value_as_str(value: &Value) -> (res: Option<&str>)
    ensures
        res is Some <==> value_model(*value).text is Some,
        res matches Some(text) ==> value_model(*value).text == Some(text@),
{
    value.as_str()
}

/// `Value::decor_mut`: what stands around the value, to be changed in place.
/// The value ends with the decor that the borrow leaves, and is unchanged
/// where the decor is.
#[verifier::external_body]
pub(crate) fn value_decor_mut(value: &mut Value) -> (decor: &mut Decor)
    ensures
        decor_model(*decor) == value_model(*old(value)).decor,
        value_model(*final(value)) == (Entry {
            decor: decor_model(*final(decor)),
            ..value_model(*old(value))
        }),
        *final(decor) == *decor ==> *final(value) == *old(value),
{
    value.decor_mut()
}

/// `Decor::prefix`: what stands before the value, where it was set.
#[verifier::external_body]
pub(crate) fn decor_prefix(decor: &Decor) -> (res: Option<&RawString>)
    ensures
        res is None ==> decor_model(*decor).prefix is None,
        res matches Some(raw) ==> raw_model(*raw) == decor_model(*decor).prefix,
{
    decor.prefix()
}

/// `Decor::suffix`: what stands after the value, where it was set.
#[verifier::external_body]
pub(crate) fn decor_suffix(decor: &Decor) -> (res: Option<&RawString>)
    ensures
        res is None ==> decor_model(*decor).suffix is None,
        res matches Some(raw) ==> raw_model(*raw) == decor_model(*decor).suffix,
{
    decor.suffix()
}

/// `Decor::set_prefix`: `text` stands before the value. The decor is
/// unchanged where it stood there before.
#[verifier::external_body]
pub(crate) fn decor_set_prefix(decor: &mut Decor, text: &str)
    ensures
        decor_model(*final(decor)) == (Decoration {
            prefix: Some(text@),
            ..decor_model(*old(decor))
        }),
        decor_model(*final(decor)) == decor_model(*old(decor)) ==> *final(decor) == *old(decor),
{
    decor.set_prefix(text);
}

/// `Decor::set_suffix`: `text` stands after the value. The decor is
/// unchanged where it stood there before.
#[verifier::external_body]
pub(crate) fn decor_set_suffix(decor: &mut Decor, text: &str)
    ensures
        decor_model(*final(decor)) == (Decoration {
            suffix: Some(text@),
            ..decor_model(*old(decor))
        }),
        decor_model(*final(decor)) == decor_model(*old(decor)) ==> *final(decor) == *old(decor),
{
    decor.set_suffix(text);
}

/// `RawString::as_str`: the text, where the raw string has one of its own.
#[verifier::external_body]
pub(crate) fn raw_as_str(raw: &RawString) -> (res: Option<&str>)
    ensures
        res is Some <==> raw_model(*raw) is Some,
        res matches Some(text) ==> raw_model(*raw) == Some(text@),
{
    raw.as_str()
}

} // verus!
