//! A configuration file held as a format-preserving TOML tree, with the few
//! edits the fixes need: removing a key, removing items of a string array.
use vstd::prelude::*;
use toml_edit::{DocumentMut, Item, TomlError};
use crate::rules::{contains_name, names};

verus! {

#[verifier::external_type_specification]
#[verifier::external_body]
pub struct ExDocumentMut(DocumentMut);

#[verifier::external_type_specification]
#[verifier::external_body]
pub struct ExTomlError(TomlError);

/// Whether the text is a TOML document that `toml_edit` accepts.
pub uninterp spec fn parses_as_toml(text: Seq<char>) -> bool;

/// The text that `toml_edit` renders for a document.
pub uninterp spec fn toml_text(d: DocumentMut) -> Seq<char>;

/// The paths `[outer, inner, key]` such that `d[outer][inner]` is a table (or
/// inline table) that holds `key`.
pub uninterp spec fn key_paths(d: DocumentMut) -> Set<Seq<Seq<char>>>;

/// The arrays at the paths `[outer, inner, key]` of a document, each item as
/// its string, or none where the item is not a string.
pub uninterp spec fn array_items(d: DocumentMut) -> Map<Seq<Seq<char>>, Seq<Option<Seq<char>>>>;

/// The path `[outer, inner, key]`.
pub open spec fn path3(outer: Seq<char>, inner: Seq<char>, key: Seq<char>) -> Seq<Seq<char>> {
    seq![outer, inner, key]
}

/// Relies on `DocumentMut`'s `FromStr`: parses a TOML document and keeps its
/// formatting, or reports why the text is not TOML.
#[verifier::external_body]
fn parse_toml(text: &str) -> (r: Result<DocumentMut, TomlError>)
    ensures
        r is Ok <==> parses_as_toml(text@),
{
    text.parse::<DocumentMut>()
}

/// Relies on `TomlError`'s `Display`: the error's message.
#[verifier::external_body]
fn toml_error_message(e: &TomlError) -> (r: String) {
    e.to_string()
}

/// Relies on `DocumentMut`'s `Display`: renders the tree as text.
#[verifier::external_body]
fn render_toml(doc: &DocumentMut) -> (r: String)
    ensures
        r@ == toml_text(*doc),
{
    doc.to_string()
}

/// Relies on `TableLike::contains_key`: whether the table (or inline table)
/// at `doc[outer][inner]` holds `key`; none where there is no such table.
#[verifier::external_body]
fn nested_key_present(doc: &DocumentMut, outer: &str, inner: &str, key: &str) -> (r: Option<bool>)
    ensures
        match r {
            Some(b) => b == key_paths(*doc).contains(path3(outer@, inner@, key@)),
            None => !key_paths(*doc).contains(path3(outer@, inner@, key@)),
        },
{
    let table = doc.get(outer)?.get(inner)?.as_table_like()?;
    Some(table.contains_key(key))
}

/// Relies on `TableLike::remove`: removes `key` from the table (or inline
/// table) at `doc[outer][inner]` and tells whether it was there, counting a
/// placeholder without a value as absent, as `contains_key` does; none where
/// there is no such table. The lookups on the way insert nothing.
#[verifier::external_body]
fn remove_nested_key(doc: &mut DocumentMut, outer: &str, inner: &str, key: &str) -> (r: Option<
    bool,
>)
    ensures
        match r {
            Some(b) => b == key_paths(*old(doc)).contains(path3(outer@, inner@, key@)),
            None => !key_paths(*old(doc)).contains(path3(outer@, inner@, key@)),
        },
        key_paths(*final(doc)) == key_paths(*old(doc)).remove(path3(outer@, inner@, key@)),
        array_items(*final(doc)) == array_items(*old(doc)).remove(path3(outer@, inner@, key@)),
{
    let table = doc.get_mut(outer)?.as_table_like_mut()?.get_mut(inner)?.as_table_like_mut()?;
    match table.remove(key) {
        Some(Item::None) => Some(false),
        Some(_) => Some(true),
        None => Some(false),
    }
}

/// Whether an array item stays when the strings `dropped` are removed.
pub open spec fn item_kept(item: Option<Seq<char>>, dropped: Seq<Seq<char>>) -> bool {
    match item {
        Some(s) => !dropped.contains(s),
        None => true,
    }
}

/// The items of an array that stay when the strings `dropped` are removed, in
/// their order.
pub open spec fn kept_items(items: Seq<Option<Seq<char>>>, dropped: Seq<Seq<char>>) -> Seq<
    Option<Seq<char>>,
> {
    items.filter(|x: Option<Seq<char>>| item_kept(x, dropped))
}

/// Relies on `Array::retain` and `Array::len`: keeps, in their order, the
/// items of the array at `doc[outer][inner][key]` that `keeps_item` accepts,
/// and returns the array's length before and after; none where there is no
/// such array. An array found there is a value, so its key is present. The
/// lookups on the way insert nothing.
#[verifier::external_body]
fn retain_array_items(
    doc: &mut DocumentMut,
    outer: &str,
    inner: &str,
    key: &str,
    dropped: &Vec<String>,
) -> (r: Option<(usize, usize)>)
    ensures
        ({
            let p = path3(outer@, inner@, key@);
            let before = array_items(*old(doc));
            &&& r is None <==> !before.contains_key(p)
            &&& r is None ==> *final(doc) == *old(doc)
            &&& r is Some ==> key_paths(*old(doc)).contains(p)
            &&& r matches Some((n, m)) ==> {
                &&& n == before[p].len()
                &&& m == kept_items(before[p], names(dropped@)).len()
                &&& array_items(*final(doc)) == before.insert(
                    p,
                    kept_items(before[p], names(dropped@)),
                )
                &&& key_paths(*final(doc)) == key_paths(*old(doc))
            }
        }),
{
    let array = doc.get_mut(outer)?.as_table_like_mut()?.get_mut(inner)?.as_table_like_mut()?.get_mut(key)?.as_array_mut()?;
    let before = array.len();
    array.retain(|v| keeps_item(v.as_str(), dropped));
    Some((before, array.len()))
}

/// Whether an array item stays when the strings `dropped` are removed: an item
/// that is not a string always stays.
pub fn keeps_item(item: Option<&str>, dropped: &Vec<String>) -> (r: bool)
    ensures
        r == item_kept(
            match item {
                Some(s) => Some(s@),
                None => None,
            },
            names(dropped@),
        ),
{
    match item {
        Some(s) => !contains_name(dropped, &s.to_owned()),
        None => true,
    }
}

/// Why a configuration file could not be read as TOML.
#[derive(Clone, Debug)]
pub struct ParseError {
    pub message: String,
}

/// A configuration file: its text as read, and the tree that edits change.
pub struct Document {
    tree: DocumentMut,
    source: String,
    edited: bool,
}

/// What the edits see of a document: its key paths and its arrays.
pub struct DocModel {
    pub keys: Set<Seq<Seq<char>>>,
    pub arrays: Map<Seq<Seq<char>>, Seq<Option<Seq<char>>>>,
}

impl Document {
    /// The text the document was parsed from.
    pub closed spec fn source(&self) -> Seq<char> {
        self.source@
    }

    /// Whether an edit has changed the tree.
    pub closed spec fn edited(&self) -> bool {
        self.edited
    }

    /// The key paths `[outer, inner, key]` of the tree.
    pub closed spec fn keys(&self) -> Set<Seq<Seq<char>>> {
        key_paths(self.tree)
    }

    /// The arrays of the tree, by path `[outer, inner, key]`.
    pub closed spec fn arrays(&self) -> Map<Seq<Seq<char>>, Seq<Option<Seq<char>>>> {
        array_items(self.tree)
    }

    pub open spec fn model(&self) -> DocModel {
        DocModel { keys: self.keys(), arrays: self.arrays() }
    }

    /// The text that `render` gives: the source while nothing is edited, the
    /// rendered tree after.
    pub closed spec fn rendered(&self) -> Seq<char> {
        if self.edited {
            toml_text(self.tree)
        } else {
            self.source@
        }
    }

    /// Parses a configuration file; a malformed one is an error before any
    /// edit.
    pub fn parse(text: String) -> (r: Result<Document, ParseError>)
        ensures
            r is Ok <==> parses_as_toml(text@),
            r matches Ok(d) ==> d.source() == text@ && !d.edited() && d.rendered() == text@,
    {
        match parse_toml(text.as_str()) {
            Ok(tree) => Ok(Document { tree, source: text, edited: false }),
            Err(e) => Err(ParseError { message: toml_error_message(&e) }),
        }
    }

    /// The text the document was parsed from.
    pub fn source_text(&self) -> (r: &String)
        ensures
            r@ == self.source(),
    {
        &self.source
    }

    /// Whether an edit has changed the tree.
    pub fn is_edited(&self) -> (r: bool)
        ensures
            r == self.edited(),
    {
        self.edited
    }

    /// The document as text. A document that no edit has changed renders as
    /// the text it was parsed from, byte for byte.
    pub fn render(&self) -> (r: String)
        ensures
            r@ == self.rendered(),
            !self.edited() ==> r@ == self.source(),
    {
        if self.edited {
            render_toml(&self.tree)
        } else {
            self.source.clone()
        }
    }

    /// Whether the table `doc[outer][inner]` holds `key`.
    pub fn has_key(&self, outer: &str, inner: &str, key: &str) -> (r: bool)
        ensures
            r == self.keys().contains(path3(outer@, inner@, key@)),
    {
        match nested_key_present(&self.tree, outer, inner, key) {
            Some(b) => b,
            None => false,
        }
    }

    /// Removes `key` from the table `doc[outer][inner]`; tells whether it was
    /// there. Nothing else changes.
    pub fn remove_key(&mut self, outer: &str, inner: &str, key: &str) -> (r: bool)
        ensures
            r == old(self).keys().contains(path3(outer@, inner@, key@)),
            final(self).keys() == old(self).keys().remove(path3(outer@, inner@, key@)),
            final(self).arrays() == old(self).arrays().remove(path3(outer@, inner@, key@)),
            final(self).source() == old(self).source(),
            final(self).edited() == (old(self).edited() || r),
    {
        let removed = match remove_nested_key(&mut self.tree, outer, inner, key) {
            Some(b) => b,
            None => false,
        };
        if removed {
            self.edited = true;
        }
        removed
    }

    /// Removes from the array `doc[outer][inner][key]` the string items listed
    /// in `dropped`, keeping the others in their order; where that leaves the
    /// array empty, removes `key` as well, since an empty list says nothing.
    /// Returns how many items were removed, or none where there is no such
    /// array (and then nothing changes).
    pub fn remove_sequence_items(
        &mut self,
        outer: &str,
        inner: &str,
        key: &str,
        dropped: &Vec<String>,
    ) -> (r: Option<usize>)
        ensures
            r is None <==> !old(self).arrays().contains_key(path3(outer@, inner@, key@)),
            final(self).model() == sequence_items_removed(
                old(self).model(),
                path3(outer@, inner@, key@),
                names(dropped@),
            ),
            r is Some ==> (final(self).keys().contains(path3(outer@, inner@, key@)) <==> kept_items(
                old(self).arrays()[path3(outer@, inner@, key@)],
                names(dropped@),
            ).len() > 0),
            r matches Some(n) ==> n == old(self).arrays()[path3(outer@, inner@, key@)].len()
                - kept_items(old(self).arrays()[path3(outer@, inner@, key@)], names(dropped@)).len(),
            final(self).source() == old(self).source(),
            final(self).edited() == (old(self).edited() || r is Some),
    {
        let ghost p = path3(outer@, inner@, key@);
        match retain_array_items(&mut self.tree, outer, inner, key, dropped) {
            None => None,
            Some((before, left)) => {
                self.edited = true;
                if left == 0 {
                    remove_nested_key(&mut self.tree, outer, inner, key);
                    assert(array_items(self.tree) =~= old(self).arrays().remove(p));
                }
                assert(left <= before) by {
                    broadcast use vstd::seq_lib::group_filter_ensures;

                }
                Some(before - left)
            },
        }
    }
}

/// The model after removing the strings `dropped` from the array at `p`, and
/// the key itself where the array empties; unchanged where there is no array.
pub open spec fn sequence_items_removed(
    m: DocModel,
    p: Seq<Seq<char>>,
    dropped: Seq<Seq<char>>,
) -> DocModel {
    if !m.arrays.contains_key(p) {
        m
    } else {
        let kept = kept_items(m.arrays[p], dropped);
        if kept.len() == 0 {
            DocModel { keys: m.keys.remove(p), arrays: m.arrays.remove(p) }
        } else {
            DocModel { keys: m.keys, arrays: m.arrays.insert(p, kept) }
        }
    }
}

} // verus!
