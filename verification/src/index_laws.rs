//! What holds of every index.

use vstd::prelude::*;
use vstd::seq_lib::lemma_sorted_unique;
use crate::render::{
    arranged, attributes_of, grouped_attributes, import_names, public_names, rendered,
    source_modules,
};
use crate::statement::{ImportView, exposed_name, lemma_statement_order_total, statement_order};
use crate::text::name_le;

verus! {

proof fn lemma_grouped_attributes_hold(
    statements: Seq<ImportView>,
    modules: Seq<Seq<char>>,
    k: int,
    j: int,
)
    requires
        0 <= k < modules.len(),
        0 <= j < attributes_of(statements, modules[k]).len(),
    ensures
        grouped_attributes(statements, modules).contains(
            attributes_of(statements, modules[k])[j],
        ),
    decreases modules.len(),
{
    let before = grouped_attributes(statements, modules.drop_last());
    let last = attributes_of(statements, modules.last());
    let all = grouped_attributes(statements, modules);
    if k == modules.len() - 1 {
        assert(all[before.len() + j] == last[j]);
    } else {
        lemma_grouped_attributes_hold(statements, modules.drop_last(), k, j);
        let name = attributes_of(statements, modules[k])[j];
        let at = choose|at: int| 0 <= at < before.len() && before[at] == name;
        assert(all[at] == name);
    }
}

/// An index's `__all__` holds every name that the index imports: each
/// submodule that it imports, and each attribute of each of its groups.
pub proof fn lemma_public_names_complete(statements: Seq<ImportView>)
    ensures
        forall|i: int|
            0 <= i < import_names(statements).len() ==> public_names(statements).contains(
                #[trigger] import_names(statements)[i],
            ),
        forall|k: int, j: int|
            0 <= k < source_modules(statements).len() && 0 <= j < attributes_of(
                statements,
                source_modules(statements)[k],
            ).len() ==> public_names(statements).contains(
                #[trigger] attributes_of(statements, source_modules(statements)[k])[j],
            ),
{
    let imports = import_names(statements);
    let modules = source_modules(statements);
    let grouped = grouped_attributes(statements, modules);
    let public = public_names(statements);
    assert forall|i: int| 0 <= i < imports.len() implies public.contains(
        #[trigger] imports[i],
    ) by {
        assert(public[i] == imports[i]);
    }
    assert forall|k: int, j: int|
        0 <= k < modules.len() && 0 <= j < attributes_of(
            statements,
            modules[k],
        ).len() implies public.contains(#[trigger] attributes_of(statements, modules[k])[j]) by {
        lemma_grouped_attributes_hold(statements, modules, k, j);
        let name = attributes_of(statements, modules[k])[j];
        let at = choose|at: int| 0 <= at < grouped.len() && grouped[at] == name;
        assert(public[imports.len() + at] == name);
    }
}

/// With sorting, an index's text depends on which statements it exposes and
/// how often, not on the order in which they were found.
pub proof fn lemma_sorted_text_ignores_order(a: Seq<ImportView>, b: Seq<ImportView>)
    requires
        a.to_multiset() == b.to_multiset(),
    ensures
        rendered(a, true) == rendered(b, true),
{
    let order = statement_order();
    lemma_statement_order_total();
    a.lemma_sort_by_ensures(order);
    b.lemma_sort_by_ensures(order);
    lemma_sorted_unique(a.sort_by(order), b.sort_by(order), order);
}


/// Every entry of an index's `__all__` is a name that one of the
/// statements exposes.
pub proof fn lemma_public_names_are_exposed(statements: Seq<ImportView>, i: int)
    requires
        0 <= i < public_names(statements).len(),
    ensures
        exists|k: int|
            0 <= k < statements.len() && exposed_name(
                #[trigger] statements[k],
            ) == public_names(statements)[i],
{
    let imports = import_names(statements);
    if i < imports.len() {
        lemma_import_names_are_exposed(statements, i);
    } else {
        lemma_grouped_attributes_are_exposed(
            statements,
            source_modules(statements),
            i - imports.len(),
        );
    }
}

proof fn lemma_import_names_are_exposed(statements: Seq<ImportView>, i: int)
    requires
        0 <= i < import_names(statements).len(),
    ensures
        exists|k: int|
            0 <= k < statements.len() && #[trigger] statements[k] == ImportView::Import(
                import_names(statements)[i],
            ),
    decreases statements.len(),
{
    let before = import_names(statements.drop_last());
    if i < before.len() {
        lemma_import_names_are_exposed(statements.drop_last(), i);
    }
}

proof fn lemma_attributes_are_exposed(statements: Seq<ImportView>, module: Seq<char>, i: int)
    requires
        0 <= i < attributes_of(statements, module).len(),
    ensures
        exists|k: int|
            0 <= k < statements.len() && #[trigger] statements[k] == ImportView::FromImport(
                module,
                attributes_of(statements, module)[i],
            ),
    decreases statements.len(),
{
    let before = attributes_of(statements.drop_last(), module);
    if i < before.len() {
        lemma_attributes_are_exposed(statements.drop_last(), module, i);
    }
}

proof fn lemma_grouped_attributes_are_exposed(
    statements: Seq<ImportView>,
    modules: Seq<Seq<char>>,
    i: int,
)
    requires
        0 <= i < grouped_attributes(statements, modules).len(),
    ensures
        exists|k: int|
            0 <= k < statements.len() && exposed_name(
                #[trigger] statements[k],
            ) == grouped_attributes(statements, modules)[i],
    decreases modules.len(),
{
    let before = grouped_attributes(statements, modules.drop_last());
    if i < before.len() {
        lemma_grouped_attributes_are_exposed(statements, modules.drop_last(), i);
    } else {
        lemma_attributes_are_exposed(statements, modules.last(), i - before.len());
    }
}

proof fn lemma_import_names_in_order(statements: Seq<ImportView>, i: int, j: int)
    requires
        0 <= i < j < import_names(statements).len(),
    ensures
        exists|k: int, l: int|
            0 <= k < l < statements.len() && #[trigger] statements[k] == ImportView::Import(
                import_names(statements)[i],
            ) && #[trigger] statements[l] == ImportView::Import(import_names(statements)[j]),
    decreases statements.len(),
{
    let rest = statements.drop_last();
    let before = import_names(rest);
    if j < before.len() {
        lemma_import_names_in_order(rest, i, j);
        let (k, l) = choose|k: int, l: int|
            0 <= k < l < rest.len() && #[trigger] rest[k] == ImportView::Import(before[i])
                && #[trigger] rest[l] == ImportView::Import(before[j]);
    } else {
        lemma_import_names_are_exposed(rest, i);
    }
}

proof fn lemma_attributes_in_order(
    statements: Seq<ImportView>,
    module: Seq<char>,
    i: int,
    j: int,
)
    requires
        0 <= i < j < attributes_of(statements, module).len(),
    ensures
        exists|k: int, l: int|
            0 <= k < l < statements.len() && #[trigger] statements[k] == ImportView::FromImport(
                module,
                attributes_of(statements, module)[i],
            ) && #[trigger] statements[l] == ImportView::FromImport(
                module,
                attributes_of(statements, module)[j],
            ),
    decreases statements.len(),
{
    let rest = statements.drop_last();
    let before = attributes_of(rest, module);
    if j < before.len() {
        lemma_attributes_in_order(rest, module, i, j);
        let (k, l) = choose|k: int, l: int|
            0 <= k < l < rest.len() && #[trigger] rest[k] == ImportView::FromImport(
                module,
                before[i],
            ) && #[trigger] rest[l] == ImportView::FromImport(module, before[j]);
    } else {
        lemma_attributes_are_exposed(rest, module, i);
    }
}

/// Whether a statement exposes an attribute of `module`.
pub open spec fn is_from(statement: ImportView, module: Seq<char>) -> bool {
    statement matches ImportView::FromImport(source, _) && source == module
}

proof fn lemma_source_modules_occur(statements: Seq<ImportView>, i: int)
    requires
        0 <= i < source_modules(statements).len(),
    ensures
        exists|k: int|
            0 <= k < statements.len() && is_from(
                #[trigger] statements[k],
                source_modules(statements)[i],
            ),
    decreases statements.len(),
{
    let rest = statements.drop_last();
    let before = source_modules(rest);
    if i < before.len() {
        lemma_source_modules_occur(rest, i);
    }
}

proof fn lemma_source_modules_cover(statements: Seq<ImportView>, k: int)
    requires
        0 <= k < statements.len(),
        statements[k] is FromImport,
    ensures
        source_modules(statements).contains(statements[k]->FromImport_0),
    decreases statements.len(),
{
    let rest = statements.drop_last();
    let before = source_modules(rest);
    let all = source_modules(statements);
    let module = statements[k]->FromImport_0;
    if k < rest.len() {
        lemma_source_modules_cover(rest, k);
        let at = choose|at: int| 0 <= at < before.len() && before[at] == module;
        assert(all[at] == module);
    } else {
        if !before.contains(module) {
            assert(all[all.len() - 1] == module);
        }
    }
}

proof fn lemma_source_modules_in_order(statements: Seq<ImportView>, i: int, j: int)
    requires
        0 <= i < j < source_modules(statements).len(),
    ensures
        source_modules(statements)[i] != source_modules(statements)[j],
        exists|k: int, l: int|
            0 <= k < l < statements.len() && is_from(
                #[trigger] statements[k],
                source_modules(statements)[i],
            ) && is_from(#[trigger] statements[l], source_modules(statements)[j]),
    decreases statements.len(),
{
    let rest = statements.drop_last();
    let before = source_modules(rest);
    if j < before.len() {
        lemma_source_modules_in_order(rest, i, j);
        let (k, l) = choose|k: int, l: int|
            0 <= k < l < rest.len() && is_from(#[trigger] rest[k], before[i]) && is_from(
                #[trigger] rest[l],
                before[j],
            );
    } else {
        lemma_source_modules_occur(rest, i);
    }
}

/// With sorting, an index imports its submodules in lexicographic order,
/// its groups stand in the lexicographic order of their submodules, one
/// group for each, and the attributes of a group stand in lexicographic
/// order.
pub proof fn lemma_sorted_index_is_in_order(statements: Seq<ImportView>)
    ensures
        ({
            let sorted = arranged(statements, true);
            &&& forall|i: int, j: int|
                0 <= i < j < import_names(sorted).len() ==> name_le(
                    #[trigger] import_names(sorted)[i],
                    #[trigger] import_names(sorted)[j],
                )
            &&& forall|i: int, j: int|
                0 <= i < j < source_modules(sorted).len() ==> #[trigger] source_modules(sorted)[i]
                    != #[trigger] source_modules(sorted)[j] && name_le(
                    source_modules(sorted)[i],
                    source_modules(sorted)[j],
                )
            &&& forall|module: Seq<char>, i: int, j: int|
                0 <= i < j < attributes_of(sorted, module).len() ==> name_le(
                    #[trigger] attributes_of(sorted, module)[i],
                    #[trigger] attributes_of(sorted, module)[j],
                )
        }),
{
    let order = statement_order();
    let sorted = arranged(statements, true);
    lemma_statement_order_total();
    statements.lemma_sort_by_ensures(order);
    assert forall|i: int, j: int| 0 <= i < j < import_names(sorted).len() implies
        name_le(
        #[trigger] import_names(sorted)[i],
        #[trigger] import_names(sorted)[j],
    ) by {
        lemma_import_names_in_order(sorted, i, j);
        let (k, l) = choose|k: int, l: int|
            0 <= k < l < sorted.len() && #[trigger] sorted[k] == ImportView::Import(
                import_names(sorted)[i],
            ) && #[trigger] sorted[l] == ImportView::Import(import_names(sorted)[j]);
        assert(order(sorted[k], sorted[l]));
    }
    assert forall|i: int, j: int| 0 <= i < j < source_modules(sorted).len() implies
        #[trigger] source_modules(sorted)[i] != #[trigger] source_modules(sorted)[j]
        && name_le(source_modules(sorted)[i], source_modules(sorted)[j]) by {
        lemma_source_modules_in_order(sorted, i, j);
        let (k, l) = choose|k: int, l: int|
            0 <= k < l < sorted.len() && is_from(
                #[trigger] sorted[k],
                source_modules(sorted)[i],
            ) && is_from(#[trigger] sorted[l], source_modules(sorted)[j]);
        assert(order(sorted[k], sorted[l]));
    }
    assert forall|module: Seq<char>, i: int, j: int|
        0 <= i < j < attributes_of(sorted, module).len() implies name_le(
        #[trigger] attributes_of(sorted, module)[i],
        #[trigger] attributes_of(sorted, module)[j],
    ) by {
        lemma_attributes_in_order(sorted, module, i, j);
        let (k, l) = choose|k: int, l: int|
            0 <= k < l < sorted.len() && #[trigger] sorted[k] == ImportView::FromImport(
                module,
                attributes_of(sorted, module)[i],
            ) && #[trigger] sorted[l] == ImportView::FromImport(
                module,
                attributes_of(sorted, module)[j],
            );
        assert(order(sorted[k], sorted[l]));
    }
}

proof fn lemma_import_names_cover(statements: Seq<ImportView>, k: int)
    requires
        0 <= k < statements.len(),
        statements[k] is Import,
    ensures
        import_names(statements).contains(statements[k]->Import_0),
    decreases statements.len(),
{
    let rest = statements.drop_last();
    let before = import_names(rest);
    let all = import_names(statements);
    let module = statements[k]->Import_0;
    if k < rest.len() {
        lemma_import_names_cover(rest, k);
        let at = choose|at: int| 0 <= at < before.len() && before[at] == module;
        assert(all[at] == module);
    } else {
        assert(all[all.len() - 1] == module);
    }
}

proof fn lemma_attributes_cover(statements: Seq<ImportView>, k: int)
    requires
        0 <= k < statements.len(),
        statements[k] is FromImport,
    ensures
        attributes_of(statements, statements[k]->FromImport_0).contains(
            statements[k]->FromImport_1,
        ),
    decreases statements.len(),
{
    let rest = statements.drop_last();
    let module = statements[k]->FromImport_0;
    let attribute = statements[k]->FromImport_1;
    let before = attributes_of(rest, module);
    let all = attributes_of(statements, module);
    if k < rest.len() {
        lemma_attributes_cover(rest, k);
        let at = choose|at: int| 0 <= at < before.len() && before[at] == attribute;
        assert(all[at] == attribute);
    } else {
        assert(all[all.len() - 1] == attribute);
    }
}

/// An index leaves no statement out: it imports every submodule that the
/// statements expose, and has a group for every submodule that they expose
/// an attribute of, with that attribute in it.
pub proof fn lemma_every_statement_is_rendered(statements: Seq<ImportView>, k: int)
    requires
        0 <= k < statements.len(),
    ensures
        match statements[k] {
            ImportView::Import(module) => import_names(statements).contains(module),
            ImportView::FromImport(module, attribute) => source_modules(statements).contains(
                module,
            ) && attributes_of(statements, module).contains(attribute),
        },
{
    match statements[k] {
        ImportView::Import(_) => lemma_import_names_cover(statements, k),
        ImportView::FromImport(_, _) => {
            lemma_source_modules_cover(statements, k);
            lemma_attributes_cover(statements, k);
        },
    }
}

} // verus!
