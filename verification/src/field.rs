//! Values read out of structured documents.

use vstd::prelude::*;

verus! {

/// What a document holds under a key.
#[derive(Debug, Clone, PartialEq, Eq)]
pub enum Field {
    /// No such key.
    Absent,
    /// A string.
    Text(String),
    /// An integer.
    Number(i64),
    /// A truth value.
    Flag(bool),
    /// A list; an item that is a string as that string, any other as `None`.
    List(Vec<Option<String>>),
    /// A value of another kind.
    Other,
}

/// What a document holds under a key, as plain values.
pub enum FieldView {
    Absent,
    Text(Seq<char>),
    Number(i64),
    Flag(bool),
    List(Seq<Option<Seq<char>>>),
    Other,
}

impl View for Field {
    type V = FieldView;

    open spec fn view(&self) -> FieldView {
        match self {
            Field::Absent => FieldView::Absent,
            Field::Text(s) => FieldView::Text(s@),
            Field::Number(n) => FieldView::Number(*n),
            Field::Flag(b) => FieldView::Flag(*b),
            Field::List(items) => FieldView::List(
                Seq::new(items@.len(), |i: int| crate::post::opt_text(items@[i])),
            ),
            Field::Other => FieldView::Other,
        }
    }
}

/// A value of a document with everything in it.
pub enum Tree {
    /// A string.
    Text(Seq<char>),
    /// An integer.
    Number(i64),
    /// A truth value.
    Flag(bool),
    /// A list, item by item.
    List(Seq<Tree>),
    /// A table: each key with its value.
    Table(Map<Seq<char>, Tree>),
    /// A value of another kind, a float or a date: the text that stands for
    /// it in a document.
    Other(Seq<char>),
}

/// What a value is, without what is in a list or a table.
pub open spec fn field_of(tree: Tree) -> FieldView {
    match tree {
        Tree::Text(t) => FieldView::Text(t),
        Tree::Number(n) => FieldView::Number(n),
        Tree::Flag(b) => FieldView::Flag(b),
        _ => FieldView::Other,
    }
}

/// The entries of a table: each key with what its value is.
pub open spec fn entries_of(trees: Map<Seq<char>, Tree>) -> Map<Seq<char>, FieldView> {
    Map::new(|key: Seq<char>| trees.contains_key(key), |key: Seq<char>| field_of(trees[key]))
}

/// Whether `trees` holds a table under `section` and that table holds `key`.
pub open spec fn has_nested(trees: Map<Seq<char>, Tree>, section: Seq<char>, key: Seq<char>)
    -> bool {
    trees.contains_key(section) && (trees[section] matches Tree::Table(inner)
        && inner.contains_key(key))
}

/// The entries of the tables in a table: each key whose value is itself a
/// table, paired with each key of that table, with what the value there is.
pub open spec fn nested_of(trees: Map<Seq<char>, Tree>) -> Map<(Seq<char>, Seq<char>), FieldView> {
    Map::new(
        |at: (Seq<char>, Seq<char>)| has_nested(trees, at.0, at.1),
        |at: (Seq<char>, Seq<char>)| field_of(trees[at.0]->Table_0[at.1]),
    )
}

/// What `fields` holds under `key`.
pub open spec fn spec_lookup(fields: Map<Seq<char>, FieldView>, key: Seq<char>) -> FieldView {
    if fields.contains_key(key) {
        fields[key]
    } else {
        FieldView::Absent
    }
}

/// What `fields` holds under `key` of the table `section`.
pub open spec fn spec_lookup_in(
    fields: Map<(Seq<char>, Seq<char>), FieldView>,
    section: Seq<char>,
    key: Seq<char>,
) -> FieldView {
    if fields.contains_key((section, key)) {
        fields[(section, key)]
    } else {
        FieldView::Absent
    }
}

} // verus!
