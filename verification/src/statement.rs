//! The statements that an index is written from, and their order.

use vstd::prelude::*;
use vstd::relations::{sorted_by, total_ordering};
use vstd::seq_lib::{lemma_sorted_unique, to_multiset_build, to_multiset_insert};
use crate::text::{
    chars_le, chars_of, lemma_name_le_antisymmetric, lemma_name_le_reflexive,
    lemma_name_le_total, lemma_name_le_transitive, name_le,
};

verus! {

/// What a package exposes of one of its submodules.
#[derive(Debug, Clone, PartialEq, Eq)]
pub enum ImportStatements {
    /// The submodule itself, by its name.
    Import(String),
    /// An attribute of a submodule: the submodule's name, then the attribute's.
    FromImport(String, String),
}

/// The mathematical form of an `ImportStatements`.
pub enum ImportView {
    Import(Seq<char>),
    FromImport(Seq<char>, Seq<char>),
}

impl View for ImportStatements {
    type V = ImportView;

    open spec fn view(&self) -> ImportView {
        match self {
            ImportStatements::Import(module) => ImportView::Import(module@),
            ImportStatements::FromImport(module, attribute) => ImportView::FromImport(
                module@,
                attribute@,
            ),
        }
    }
}

impl ImportStatements {
    /// A copy of the statement.
    pub fn copy(&self) -> (same: ImportStatements)
        ensures
            same@ == self@,
    {
        match self {
            ImportStatements::Import(module) => ImportStatements::Import(module.clone()),
            ImportStatements::FromImport(module, attribute) => ImportStatements::FromImport(
                module.clone(),
                attribute.clone(),
            ),
        }
    }

    /// The name that the statement exposes: the submodule's, or the attribute's.
    pub fn exposed(&self) -> (name: &String)
        ensures
            name@ == exposed_name(self@),
    {
        match self {
            ImportStatements::Import(module) => module,
            ImportStatements::FromImport(_, attribute) => attribute,
        }
    }
}

/// The name that a statement exposes: the submodule's, or the attribute's.
pub open spec fn exposed_name(statement: ImportView) -> Seq<char> {
    match statement {
        ImportView::Import(module) => module,
        ImportView::FromImport(_, attribute) => attribute,
    }
}

/// The views of a sequence of statements, in order.
pub open spec fn import_views(statements: Seq<ImportStatements>) -> Seq<ImportView> {
    statements.map_values(|s: ImportStatements| s@)
}

/// The order in which sorted statements stand: submodules before attributes;
/// submodules by name; attributes by their submodule's name, then their own.
pub open spec fn statement_le(a: ImportView, b: ImportView) -> bool {
    match (a, b) {
        (ImportView::Import(m), ImportView::Import(n)) => name_le(m, n),
        (ImportView::Import(_), ImportView::FromImport(_, _)) => true,
        (ImportView::FromImport(_, _), ImportView::Import(_)) => false,
        (ImportView::FromImport(m, x), ImportView::FromImport(n, y)) => if m == n {
            name_le(x, y)
        } else {
            name_le(m, n)
        },
    }
}

/// `statement_le` as a relation.
pub open spec fn statement_order() -> spec_fn(ImportView, ImportView) -> bool {
    |a: ImportView, b: ImportView| statement_le(a, b)
}

/// `statement_le` is a total order.
pub proof fn lemma_statement_order_total()
    ensures
        total_ordering(statement_order()),
{
    let order = statement_order();
    assert forall|x: ImportView| #[trigger] order(x, x) by {
        match x {
            ImportView::Import(m) => lemma_name_le_reflexive(m),
            ImportView::FromImport(m, a) => lemma_name_le_reflexive(a),
        }
    }
    assert forall|x: ImportView, y: ImportView| #[trigger]
        order(x, y) && #[trigger] order(y, x) implies x == y by {
        match (x, y) {
            (ImportView::Import(m), ImportView::Import(n)) => lemma_name_le_antisymmetric(m, n),
            (ImportView::FromImport(m, a), ImportView::FromImport(n, b)) => {
                if m == n {
                    lemma_name_le_antisymmetric(a, b);
                } else {
                    lemma_name_le_antisymmetric(m, n);
                }
            },
            _ => {},
        }
    }
    assert forall|x: ImportView, y: ImportView, z: ImportView| #[trigger]
        order(x, y) && #[trigger] order(y, z) implies order(x, z) by {
        match (x, y, z) {
            (
                ImportView::Import(m),
                ImportView::Import(n),
                ImportView::Import(o),
            ) => lemma_name_le_transitive(m, n, o),
            (
                ImportView::FromImport(m, a),
                ImportView::FromImport(n, b),
                ImportView::FromImport(o, c),
            ) => {
                if m == n && n == o {
                    lemma_name_le_transitive(a, b, c);
                } else if m != n && n != o {
                    lemma_name_le_transitive(m, n, o);
                    if m == o {
                        lemma_name_le_antisymmetric(m, n);
                    }
                }
            },
            _ => {},
        }
    }
    assert forall|x: ImportView, y: ImportView| #[trigger] order(x, y) || #[trigger] order(
        y,
        x,
    ) by {
        match (x, y) {
            (ImportView::Import(m), ImportView::Import(n)) => lemma_name_le_total(m, n),
            (ImportView::FromImport(m, a), ImportView::FromImport(n, b)) => {
                if m == n {
                    lemma_name_le_total(a, b);
                } else {
                    lemma_name_le_total(m, n);
                }
            },
            _ => {},
        }
    }
}

/// The statements in sorted order.
pub open spec fn sorted_statements(statements: Seq<ImportView>) -> Seq<ImportView> {
    statements.sort_by(statement_order())
}

/// A statement's names as characters, for comparing.
struct SortKey {
    attribute_of: Option<Vec<char>>,
    name: Vec<char>,
}

impl View for SortKey {
    type V = ImportView;

    closed spec fn view(&self) -> ImportView {
        match self.attribute_of {
            None => ImportView::Import(self.name@),
            Some(module) => ImportView::FromImport(module@, self.name@),
        }
    }
}

fn key_of(statement: &ImportStatements) -> (key: SortKey)
    ensures
        key@ == statement@,
{
    match statement {
        ImportStatements::Import(module) => SortKey {
            attribute_of: None,
            name: chars_of(module.as_str()),
        },
        ImportStatements::FromImport(module, attribute) => SortKey {
            attribute_of: Some(chars_of(module.as_str())),
            name: chars_of(attribute.as_str()),
        },
    }
}

fn key_le(a: &SortKey, b: &SortKey) -> (r: bool)
    ensures
        r == statement_le(a@, b@),
{
    match (&a.attribute_of, &b.attribute_of) {
        (None, None) => chars_le(&a.name, &b.name),
        (None, Some(_)) => true,
        (Some(_), None) => false,
        (Some(m), Some(n)) => {
            let forth = chars_le(m, n);
            let back = chars_le(n, m);
            proof {
                if forth && back {
                    lemma_name_le_antisymmetric(m@, n@);
                }
                if m@ == n@ {
                    lemma_name_le_reflexive(m@);
                }
            }
            if forth && back {
                chars_le(&a.name, &b.name)
            } else {
                forth
            }
        },
    }
}

/// Sorts statements: submodules before attributes; submodules by name;
/// attributes by their submodule's name, then their own.
pub fn sort_statements(statements: &Vec<ImportStatements>) -> (sorted: Vec<ImportStatements>)
    ensures
        import_views(sorted@) == sorted_statements(import_views(statements@)),
{
    let ghost order = statement_order();
    let ghost given = import_views(statements@);
    let mut sorted: Vec<ImportStatements> = Vec::new();
    let mut keys: Vec<SortKey> = Vec::new();
    let mut i: usize = 0;
    proof {
        lemma_statement_order_total();
        assert(given.take(0) =~= Seq::<ImportView>::empty());
        assert(import_views(sorted@) =~= Seq::<ImportView>::empty());
    }
    while i < statements.len()
        invariant
            i <= statements.len(),
            order == statement_order(),
            total_ordering(order),
            given == import_views(statements@),
            keys@.len() == sorted@.len(),
            forall|k: int| 0 <= k < keys@.len() ==> (#[trigger] keys@[k])@ == sorted@[k]@,
            sorted_by(import_views(sorted@), order),
            import_views(sorted@).to_multiset() == given.take(i as int).to_multiset(),
        decreases statements.len() - i,
    {
        let key = key_of(&statements[i]);
        let mut p: usize = 0;
        while p < keys.len() && key_le(&keys[p], &key)
            invariant
                p <= keys.len(),
                keys@.len() == sorted@.len(),
                forall|k: int| 0 <= k < keys@.len() ==> (#[trigger] keys@[k])@ == sorted@[k]@,
                forall|k: int| 0 <= k < p ==> statement_le(sorted@[k]@, key@),
            decreases keys.len() - p,
        {
            p += 1;
        }
        let ghost before = import_views(sorted@);
        let ghost item = key@;
        proof {
            assert(given.take(i as int + 1) =~= given.take(i as int).push(item));
            to_multiset_build(given.take(i as int), item);
            to_multiset_insert(before, p as int, item);
            assert forall|a: int, b: int| 0 <= a < b < before.len() + 1 implies order(
                #[trigger] before.insert(p as int, item)[a],
                #[trigger] before.insert(p as int, item)[b],
            ) by {
                if a == p {
                    assert(order(item, before[p as int]) || order(before[p as int], item));
                    if p < b - 1 {
                        assert(order(before[p as int], before[b - 1]));
                    }
                }
            }
        }
        keys.insert(p, key);
        sorted.insert(p, statements[i].copy());
        assert(import_views(sorted@) =~= before.insert(p as int, item));
        i += 1;
    }
    proof {
        assert(given.take(i as int) =~= given);
        given.lemma_sort_by_ensures(order);
        lemma_sorted_unique(import_views(sorted@), given.sort_by(order), order);
    }
    sorted
}

} // verus!
