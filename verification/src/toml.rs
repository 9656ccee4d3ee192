//! TOML documents as `toml_edit` keeps them, and the data they hold.
//!
//! A document also keeps how it is laid out: two documents with the same data may be printed
//! differently. The layout is spoken of by what a document or an item was made with.
use toml_edit::{Array, DocumentMut, Item, Table, TomlError, Value};
use vstd::prelude::*;

verus! {

/// What a TOML item holds.
pub enum TomlItem {
    /// A place that holds nothing.
    Empty,
    /// A string.
    Text(Seq<char>),
    /// Any other scalar, as it is written.
    Scalar(Seq<char>),
    /// An array.
    List(Seq<TomlItem>),
    /// A table in one line, `{ .. }`, with its keys in order.
    Inline(Seq<(Seq<char>, TomlItem)>),
    /// A table of its own, with its keys in order.
    Table(Seq<(Seq<char>, TomlItem)>),
    /// An array of tables.
    Tables(Seq<TomlItem>),
}

/// The item at the first entry with this key.
pub open spec fn lookup(entries: Seq<(Seq<char>, TomlItem)>, key: Seq<char>) -> Option<TomlItem>
    decreases entries.len(),
{
    if entries.len() == 0 {
        None
    } else if entries[0].0 == key {
        Some(entries[0].1)
    } else {
        lookup(entries.drop_first(), key)
    }
}

/// The entries with this one set: in the place of the entry with this key, or behind all others.
pub open spec fn put(
    entries: Seq<(Seq<char>, TomlItem)>,
    key: Seq<char>,
    item: TomlItem,
) -> Seq<(Seq<char>, TomlItem)>
    decreases entries.len(),
{
    if entries.len() == 0 {
        seq![(key, item)]
    } else if entries[0].0 == key {
        seq![(key, item)] + entries.drop_first()
    } else {
        seq![entries[0]] + put(entries.drop_first(), key, item)
    }
}

/// The entries without the one with this key.
pub open spec fn without(
    entries: Seq<(Seq<char>, TomlItem)>,
    key: Seq<char>,
) -> Seq<(Seq<char>, TomlItem)>
    decreases entries.len(),
{
    if entries.len() == 0 {
        entries
    } else if entries[0].0 == key {
        entries.drop_first()
    } else {
        seq![entries[0]] + without(entries.drop_first(), key)
    }
}

/// The item as a value: a table in one line, an array of tables as an array.
pub open spec fn as_value(item: TomlItem) -> TomlItem
    decreases item,
{
    match item {
        TomlItem::Table(entries) => TomlItem::Inline(
            Seq::new(
                entries.len(),
                |i: int|
                    if 0 <= i < entries.len() {
                        (entries[i].0, as_value(entries[i].1))
                    } else {
                        arbitrary()
                    },
            ),
        ),
        TomlItem::Tables(tables) => TomlItem::List(
            Seq::new(
                tables.len(),
                |i: int|
                    if 0 <= i < tables.len() {
                        as_value(tables[i])
                    } else {
                        arbitrary()
                    },
            ),
        ),
        other => other,
    }
}

impl TomlItem {
    /// The item is a table, of its own or in one line.
    pub open spec fn is_table_like(self) -> bool {
        self is Table || self is Inline
    }

    /// The item under a key of a table, unless that place is empty.
    pub open spec fn child(self, key: Seq<char>) -> Option<TomlItem> {
        let found = match self {
            TomlItem::Table(entries) => lookup(entries, key),
            TomlItem::Inline(entries) => lookup(entries, key),
            _ => None,
        };
        match found {
            Some(TomlItem::Empty) => None,
            other => other,
        }
    }

    /// The item with something put under a key. A place that holds nothing becomes a table in
    /// one line.
    pub open spec fn with_child(self, key: Seq<char>, item: TomlItem) -> TomlItem {
        match self {
            TomlItem::Table(entries) => TomlItem::Table(put(entries, key, item)),
            TomlItem::Inline(entries) => TomlItem::Inline(put(entries, key, item)),
            TomlItem::Empty => TomlItem::Inline(seq![(key, item)]),
            other => other,
        }
    }

    /// The item without what is under a key.
    pub open spec fn without_child(self, key: Seq<char>) -> TomlItem {
        match self {
            TomlItem::Table(entries) => TomlItem::Table(without(entries, key)),
            TomlItem::Inline(entries) => TomlItem::Inline(without(entries, key)),
            other => other,
        }
    }

    /// What comes out when a key is removed. A table of its own gives up even an empty place;
    /// a table in one line gives up values only.
    pub open spec fn removed(self, key: Seq<char>) -> Option<TomlItem> {
        match self {
            TomlItem::Table(entries) => lookup(entries, key),
            TomlItem::Inline(entries) => match lookup(entries, key) {
                Some(TomlItem::Empty) => None,
                Some(item) => Some(as_value(item)),
                None => None,
            },
            _ => None,
        }
    }

    /// The entries that can be walked over: all but the empty places of a table of its own.
    pub open spec fn entries(self) -> Seq<(Seq<char>, TomlItem)> {
        match self {
            TomlItem::Table(entries) => entries.filter(
                |entry: (Seq<char>, TomlItem)| !(entry.1 is Empty),
            ),
            TomlItem::Inline(entries) => entries,
            _ => Seq::empty(),
        }
    }
}

/// What was put under a key is found there, and what is under other keys stays.
pub proof fn lemma_lookup_put(
    entries: Seq<(Seq<char>, TomlItem)>,
    key: Seq<char>,
    item: TomlItem,
    other: Seq<char>,
)
    ensures
        lookup(put(entries, key, item), other) == if other == key {
            Some(item)
        } else {
            lookup(entries, other)
        },
    decreases entries.len(),
{
    let after = put(entries, key, item);
    if entries.len() == 0 {
        assert(after.drop_first() =~= Seq::empty());
        assert(lookup(after.drop_first(), other) is None);
    } else if entries[0].0 == key {
        assert(after.drop_first() =~= entries.drop_first());
    } else {
        assert(after.drop_first() =~= put(entries.drop_first(), key, item));
        lemma_lookup_put(entries.drop_first(), key, item, other);
    }
}

/// Of two things put under a key the last one stays.
pub proof fn lemma_put_put(
    entries: Seq<(Seq<char>, TomlItem)>,
    key: Seq<char>,
    first: TomlItem,
    second: TomlItem,
)
    ensures
        put(put(entries, key, first), key, second) == put(entries, key, second),
    decreases entries.len(),
{
    let after = put(entries, key, first);
    if entries.len() == 0 {
        assert(after.drop_first() =~= Seq::empty());
        assert(put(after, key, second) =~= put(entries, key, second));
    } else if entries[0].0 == key {
        assert(after.drop_first() =~= entries.drop_first());
    } else {
        assert(after.drop_first() =~= put(entries.drop_first(), key, first));
        lemma_put_put(entries.drop_first(), key, first, second);
    }
}

/// Putting back what is under a key changes nothing.
pub proof fn lemma_put_same(entries: Seq<(Seq<char>, TomlItem)>, key: Seq<char>, item: TomlItem)
    requires
        lookup(entries, key) == Some(item),
    ensures
        put(entries, key, item) == entries,
    decreases entries.len(),
{
    if entries[0].0 == key {
        assert(put(entries, key, item) =~= entries);
    } else {
        lemma_put_same(entries.drop_first(), key, item);
        assert(put(entries, key, item) =~= entries);
    }
}

/// Taking a key out leaves what is under other keys.
pub proof fn lemma_lookup_without(
    entries: Seq<(Seq<char>, TomlItem)>,
    key: Seq<char>,
    other: Seq<char>,
)
    requires
        other != key,
    ensures
        lookup(without(entries, key), other) == lookup(entries, other),
    decreases entries.len(),
{
    if entries.len() > 0 && entries[0].0 != key {
        assert(without(entries, key).drop_first() =~= without(entries.drop_first(), key));
        lemma_lookup_without(entries.drop_first(), key, other);
    }
}

/// Taking out a key that is not there changes nothing.
pub proof fn lemma_without_absent(entries: Seq<(Seq<char>, TomlItem)>, key: Seq<char>)
    requires
        lookup(entries, key) is None,
    ensures
        without(entries, key) == entries,
    decreases entries.len(),
{
    if entries.len() > 0 {
        lemma_without_absent(entries.drop_first(), key);
        assert(without(entries, key) =~= entries);
    }
}

impl TomlItem {
    /// What was put under a key of a table is found there, and other keys keep what they had.
    pub proof fn lemma_child_with(self, key: Seq<char>, item: TomlItem, other: Seq<char>)
        requires
            self.is_table_like() || self is Empty,
        ensures
            self.with_child(key, item).is_table_like(),
            self is Table ==> self.with_child(key, item) is Table,
            other != key ==> self.with_child(key, item).child(other) == self.child(other),
            !(item is Empty) ==> self.with_child(key, item).child(key) == Some(item),
            item is Empty ==> self.with_child(key, item).child(key) is None,
    {
        match self {
            TomlItem::Table(entries) => {
                lemma_lookup_put(entries, key, item, key);
                lemma_lookup_put(entries, key, item, other);
            },
            TomlItem::Inline(entries) => {
                lemma_lookup_put(entries, key, item, key);
                lemma_lookup_put(entries, key, item, other);
            },
            _ => {
                let entries = seq![(key, item)];
                assert(entries.drop_first() =~= Seq::empty());
                assert(lookup(entries.drop_first(), other) is None);
            },
        }
    }

    /// Of two things put under a key the last one stays.
    pub proof fn lemma_with_twice(self, key: Seq<char>, first: TomlItem, second: TomlItem)
        ensures
            self.with_child(key, first).with_child(key, second) == self.with_child(key, second),
    {
        match self {
            TomlItem::Table(entries) => {
                lemma_put_put(entries, key, first, second);
            },
            TomlItem::Inline(entries) => {
                lemma_put_put(entries, key, first, second);
            },
            TomlItem::Empty => {
                let empty = Seq::<(Seq<char>, TomlItem)>::empty();
                assert(put(empty, key, first) =~= seq![(key, first)]);
                assert(put(empty, key, second) =~= seq![(key, second)]);
                lemma_put_put(empty, key, first, second);
            },
            _ => {},
        }
    }

    /// Putting back what is under a key changes nothing.
    pub proof fn lemma_with_same(self, key: Seq<char>, item: TomlItem)
        requires
            self.child(key) == Some(item),
        ensures
            self.with_child(key, item) == self,
    {
        match self {
            TomlItem::Table(entries) => lemma_put_same(entries, key, item),
            TomlItem::Inline(entries) => lemma_put_same(entries, key, item),
            _ => {},
        }
    }

    /// Taking a key out leaves what is under other keys.
    pub proof fn lemma_child_without(self, key: Seq<char>, other: Seq<char>)
        requires
            other != key,
        ensures
            self.without_child(key).child(other) == self.child(other),
    {
        match self {
            TomlItem::Table(entries) => lemma_lookup_without(entries, key, other),
            TomlItem::Inline(entries) => lemma_lookup_without(entries, key, other),
            _ => {},
        }
    }

    /// What stands under the keys of an item is smaller than the item.
    pub proof fn lemma_entry_smaller(self, index: int)
        requires
            0 <= index < self.entries().len(),
        ensures
            decreases_to!(self => self.entries()[index].1),
    {
        match self {
            TomlItem::Table(entries) => {
                let keep = |entry: (Seq<char>, TomlItem)| !(entry.1 is Empty);
                let entry = entries.filter(keep)[index];
                entries.lemma_filter_contains_rev(keep, entry);
                let at = choose|at: int| 0 <= at < entries.len() && entries[at] == entry;
                assert(decreases_to!(entries => entries[at]));
                assert(decreases_to!(self => entries));
            },
            TomlItem::Inline(entries) => {
                assert(decreases_to!(entries => entries[index]));
                assert(decreases_to!(self => entries));
            },
            _ => {},
        }
    }
}

/// Declares a TOML document that can be edited.
#[verifier::external_type_specification]
#[verifier::external_body]
pub struct ExDocumentMut(DocumentMut);

/// Declares an item of such a document.
#[verifier::external_type_specification]
#[verifier::external_body]
pub struct ExItem(Item);

/// What an item holds.
pub uninterp spec fn item_data(item: Item) -> TomlItem;

/// What the root of a document holds.
pub uninterp spec fn document_data(document: DocumentMut) -> TomlItem;

/// The text that a document is printed as.
pub uninterp spec fn document_text(document: DocumentMut) -> Seq<char>;

/// The data of a TOML text, or nothing where the text is not TOML.
pub uninterp spec fn toml_data(text: Seq<char>) -> Option<TomlItem>;

/// The document that a text is, with its layout, or nothing where the text is not TOML.
pub uninterp spec fn toml_document(text: Seq<char>) -> Option<DocumentMut>;

/// A document that is made anew, for the data that it then holds.
pub uninterp spec fn fresh_document(data: TomlItem) -> DocumentMut;

/// The root of a document.
pub uninterp spec fn document_root(document: DocumentMut) -> Item;

/// A document with another root.
pub uninterp spec fn with_root(document: DocumentMut, root: Item) -> DocumentMut;

/// An item that is made anew, for the data that it then holds.
pub uninterp spec fn fresh_item(data: TomlItem) -> Item;

/// The item that is found under a key, unless that place is empty.
pub uninterp spec fn item_under(item: Item, key: Seq<char>) -> Option<Item>;

/// The item at the place under a key, which may be empty.
pub uninterp spec fn place_under(item: Item, key: Seq<char>) -> Item;

/// An item in which another stands at the place under a key.
pub uninterp spec fn placed(item: Item, key: Seq<char>, child: Item) -> Item;

/// An item that another was inserted into.
pub uninterp spec fn inserted(item: Item, key: Seq<char>, child: Item) -> Item;

/// An item from which what is under a key was taken out.
pub uninterp spec fn item_without(item: Item, key: Seq<char>) -> Item;

/// What is taken out under a key.
pub uninterp spec fn item_taken(item: Item, key: Seq<char>) -> Option<Item>;

/// The table of its own that comes of a table of either form.
pub uninterp spec fn item_as_table(item: Item) -> Option<Item>;

/// The metadata that a new script starts with.
pub open spec fn default_metadata() -> Seq<char> {
    "requires-python = \">= 3.11\"\ndependencies = []\n\n[tool.pixi.workspace]\n"@
}

/// The data of the metadata that a new script starts with.
pub open spec fn default_metadata_data() -> TomlItem {
    TomlItem::Table(
        seq![
            ("requires-python"@, TomlItem::Text(">= 3.11"@)),
            ("dependencies"@, TomlItem::List(Seq::empty())),
            (
                "tool"@,
                TomlItem::Table(
                    seq![
                        (
                            "pixi"@,
                            TomlItem::Table(seq![("workspace"@, TomlItem::Table(Seq::empty()))]),
                        ),
                    ],
                ),
            ),
        ],
    )
}

/// `<DocumentMut as FromStr>::from_str` reads a document from a text. Whether it succeeds, and
/// what the document then is, depends on the text alone; the root is a table. The text that new
/// scripts start with is TOML and holds the data it shows.
#[verifier::external_body]
pub(crate) fn parse_document(text: &str) -> (result: Result<DocumentMut, TomlError>)
    ensures
        match result {
            Ok(document) => toml_document(text@) == Some(document) && toml_data(text@) == Some(
                document_data(document),
            ) && document_data(document) is Table && (text@ == default_metadata() ==> document_data(document)
                == default_metadata_data()),
            Err(_) => toml_document(text@) is None && toml_data(text@) is None && text@
                != default_metadata(),
        },
{
    text.parse::<DocumentMut>()
}

/// `<DocumentMut as Display>::fmt`, by way of `to_string`, prints a document. It panics on a
/// document whose root was replaced by something other than a table.
#[verifier::external_body]
pub(crate) fn print_document(document: &DocumentMut) -> (text: String)
    requires
        document_data(*document) is Table,
    ensures
        text@ == document_text(*document),
{
    document.to_string()
}

/// `DocumentMut::new` makes a document with an empty root table.
#[verifier::external_body]
pub(crate) fn new_document() -> (document: DocumentMut)
    ensures
        document == fresh_document(TomlItem::Table(Seq::empty())),
        document_data(document) == TomlItem::Table(Seq::empty()),
{
    DocumentMut::new()
}

/// `<DocumentMut as Clone>::clone` makes the same document again.
#[verifier::external_body]
pub(crate) fn clone_document(document: &DocumentMut) -> (copy: DocumentMut)
    ensures
        copy == *document,
{
    document.clone()
}

/// `DocumentMut::as_item` gives the root of a document.
#[verifier::external_body]
pub(crate) fn root(document: &DocumentMut) -> (root: &Item)
    ensures
        *root == document_root(*document),
        item_data(*root) == document_data(*document),
{
    document.as_item()
}

/// `DocumentMut::as_item_mut` gives the root of a document to be changed.
#[verifier::external_body]
pub(crate) fn root_mut(document: &mut DocumentMut) -> (root: &mut Item)
    ensures
        *root == document_root(*old(document)),
        *final(document) == with_root(*old(document), *final(root)),
        document_root(*final(document)) == *final(root),
        item_data(*root) == document_data(*old(document)),
        document_data(*final(document)) == item_data(*final(root)),
{
    document.as_item_mut()
}

/// `Item::get` with a key finds what is under that key of a table, whether of its own or in one
/// line, and passes over empty places.
#[verifier::external_body]
pub(crate) fn get<'a>(item: &'a Item, key: &str) -> (child: Option<&'a Item>)
    ensures
        match child {
            Some(child) => item_under(*item, key@) == Some(*child) && item_data(*item).child(key@)
                == Some(item_data(*child)),
            None => item_under(*item, key@) is None && item_data(*item).child(key@) is None,
        },
{
    item.get(key)
}

/// `<Item as IndexMut>::index_mut` with a key gives the place under that key. Where there is
/// none it makes an empty one, and an item that holds nothing becomes a table in one line. The
/// items under other keys stay the very same. It panics on an item that is neither empty nor a
/// table.
#[verifier::external_body]
pub(crate) fn place<'a>(item: &'a mut Item, key: &str) -> (child: &'a mut Item)
    requires
        item_data(*old(item)).is_table_like() || item_data(*old(item)) is Empty,
    ensures
        *child == place_under(*old(item), key@),
        *final(item) == placed(*old(item), key@, *final(child)),
        item_under(*old(item), key@) matches Some(found) ==> *child == found,
        !(item_data(*final(child)) is Empty) ==> item_under(*final(item), key@) == Some(
            *final(child),
        ),
        forall|other: Seq<char>|
            other != key@ ==> #[trigger] item_under(*final(item), other) == item_under(
                *old(item),
                other,
            ),
        item_data(*child) == match item_data(*old(item)).child(key@) {
            Some(child) => child,
            None => TomlItem::Empty,
        },
        item_data(*final(item)) == item_data(*old(item)).with_child(key@, item_data(*final(child))),
{
    &mut item[key]
}

/// `TableLike::remove`, by way of `Item::as_table_like_mut`, takes out what is under a key. The
/// items under other keys stay the very same, and an item that is no table stays as it is.
#[verifier::external_body]
pub(crate) fn remove(item: &mut Item, key: &str) -> (child: Option<Item>)
    ensures
        *final(item) == item_without(*old(item), key@),
        child == item_taken(*old(item), key@),
        forall|other: Seq<char>|
            other != key@ ==> #[trigger] item_under(*final(item), other) == item_under(
                *old(item),
                other,
            ),
        item_data(*final(item)) == item_data(*old(item)).without_child(key@),
        match child {
            Some(child) => item_data(*old(item)).removed(key@) == Some(item_data(child)),
            None => item_data(*old(item)).removed(key@) is None,
        },
{
    item.as_table_like_mut().and_then(|table| table.remove(key))
}

/// `TableLike::insert`, by way of `Item::as_table_like_mut`, sets what is under a key. The items
/// under other keys stay the very same. A table in one line takes what is set as a value, and
/// panics on an empty item.
#[verifier::external_body]
pub(crate) fn insert(item: &mut Item, key: &str, child: Item)
    requires
        item_data(*old(item)).is_table_like(),
        item_data(*old(item)) is Inline ==> !(item_data(child) is Empty),
    ensures
        *final(item) == inserted(*old(item), key@, child),
        forall|other: Seq<char>|
            other != key@ ==> #[trigger] item_under(*final(item), other) == item_under(
                *old(item),
                other,
            ),
        item_data(*final(item)) == item_data(*old(item)).with_child(
            key@,
            if item_data(*old(item)) is Inline {
                as_value(item_data(child))
            } else {
                item_data(child)
            },
        ),
{
    item.as_table_like_mut().map(|table| table.insert(key, child));
}

/// `Item::into_table` gives a table of its own, with the same entries, for a table of either
/// form. Nothing comes of anything else.
#[verifier::external_body]
pub(crate) fn into_table(item: Item) -> (table: Option<Item>)
    ensures
        table == item_as_table(item),
        match item_data(item) {
            TomlItem::Table(entries) => table matches Some(table) && item_data(table)
                == TomlItem::Table(entries),
            TomlItem::Inline(entries) => table matches Some(table) && item_data(table)
                == TomlItem::Table(entries),
            _ => table is None,
        },
{
    item.into_table().ok().map(Item::Table)
}

/// `Item::is_table` tells a table of its own from everything else.
#[verifier::external_body]
pub(crate) fn is_table(item: &Item) -> (is: bool)
    ensures
        is == (item_data(*item) is Table),
{
    item.is_table()
}

/// `Item::is_table_like` tells tables, of their own or in one line, from everything else.
#[verifier::external_body]
pub(crate) fn is_table_like(item: &Item) -> (is: bool)
    ensures
        is == item_data(*item).is_table_like(),
{
    item.is_table_like()
}

/// `TableLike::iter`, by way of `Item::as_table_like`, walks over the entries of a table in
/// order. Anything else has none.
#[verifier::external_body]
pub(crate) fn entries(item: &Item) -> (entries: Vec<(&str, &Item)>)
    ensures
        entries@.len() == item_data(*item).entries().len(),
        forall|i: int|
            0 <= i < entries@.len() ==> {
                let entry = #[trigger] entries@[i];
                &&& entry.0@ == item_data(*item).entries()[i].0
                &&& item_data(*entry.1) == item_data(*item).entries()[i].1
            },
{
    item.as_table_like().map(|table| table.iter().collect()).unwrap_or_default()
}

/// `Table::new` makes a table of its own with no entries.
#[verifier::external_body]
pub(crate) fn empty_table() -> (item: Item)
    ensures
        item == fresh_item(TomlItem::Table(Seq::empty())),
        item_data(item) == TomlItem::Table(Seq::empty()),
{
    Item::Table(Table::new())
}

/// `toml_edit::value` makes a string of a text.
#[verifier::external_body]
pub(crate) fn text_item(text: &str) -> (item: Item)
    ensures
        item == fresh_item(TomlItem::Text(text@)),
        item_data(item) == TomlItem::Text(text@),
{
    toml_edit::value(text)
}

/// `<Array as Extend>::extend` makes an array of strings, one for each text.
#[verifier::external_body]
pub(crate) fn text_list(texts: &[String]) -> (item: Item)
    ensures
        item == fresh_item(
            TomlItem::List(texts@.map_values(|text: String| TomlItem::Text(text@))),
        ),
        item_data(item) == TomlItem::List(
            texts@.map_values(|text: String| TomlItem::Text(text@)),
        ),
{
    let mut array = Array::new();
    array.extend(texts.iter().map(String::as_str));
    Item::Value(Value::Array(array))
}

} // verus!
