//! The text of an index.

use vstd::prelude::*;
use vstd::string::*;
use crate::statement::{
    ImportStatements, ImportView, import_views, sort_statements, sorted_statements,
};
use crate::text::{contains_name, lemma_texts_push, texts};

verus! {

/// The names of the submodules that the statements expose, in order.
pub open spec fn import_names(statements: Seq<ImportView>) -> Seq<Seq<char>>
    decreases statements.len(),
{
    if statements.len() == 0 {
        Seq::empty()
    } else {
        let before = import_names(statements.drop_last());
        match statements.last() {
            ImportView::Import(module) => before.push(module),
            ImportView::FromImport(_, _) => before,
        }
    }
}

/// The submodules that the statements expose attributes of, each once, in
/// the order in which they first occur.
pub open spec fn source_modules(statements: Seq<ImportView>) -> Seq<Seq<char>>
    decreases statements.len(),
{
    if statements.len() == 0 {
        Seq::empty()
    } else {
        let before = source_modules(statements.drop_last());
        match statements.last() {
            ImportView::FromImport(module, _) if !before.contains(module) => before.push(module),
            _ => before,
        }
    }
}

/// The attributes that the statements expose of `module`, in order.
pub open spec fn attributes_of(statements: Seq<ImportView>, module: Seq<char>) -> Seq<Seq<char>>
    decreases statements.len(),
{
    if statements.len() == 0 {
        Seq::empty()
    } else {
        let before = attributes_of(statements.drop_last(), module);
        match statements.last() {
            ImportView::FromImport(source, attribute) if source == module => before.push(
                attribute,
            ),
            _ => before,
        }
    }
}

/// The attributes that the statements expose of each of `modules` in turn.
pub open spec fn grouped_attributes(
    statements: Seq<ImportView>,
    modules: Seq<Seq<char>>,
) -> Seq<Seq<char>>
    decreases modules.len(),
{
    if modules.len() == 0 {
        Seq::empty()
    } else {
        grouped_attributes(statements, modules.drop_last()) + attributes_of(
            statements,
            modules.last(),
        )
    }
}

/// The entries of an index's `__all__`: the submodules, then the attributes
/// group by group, each in the order in which the index imports it.
pub open spec fn public_names(statements: Seq<ImportView>) -> Seq<Seq<char>> {
    import_names(statements) + grouped_attributes(statements, source_modules(statements))
}

/// One line for each name: `before`, the name, `after`.
pub open spec fn framed_lines(names: Seq<Seq<char>>, before: Seq<char>, after: Seq<char>) -> Seq<
    char,
>
    decreases names.len(),
{
    if names.len() == 0 {
        Seq::empty()
    } else {
        framed_lines(names.drop_last(), before, after) + before + names.last() + after
    }
}

/// The lines that import the submodules: `from . import NAME`.
pub open spec fn import_lines(names: Seq<Seq<char>>) -> Seq<char> {
    framed_lines(names, "from . import "@, "\n"@)
}

/// The lines of a group, one attribute each, indented and with a comma.
pub open spec fn attribute_lines(attributes: Seq<Seq<char>>) -> Seq<char> {
    framed_lines(attributes, "    "@, ",\n"@)
}

/// The group that imports `attributes` from `module`, in parentheses.
pub open spec fn group_text(module: Seq<char>, attributes: Seq<Seq<char>>) -> Seq<char> {
    "from ."@ + module + " import (\n"@ + attribute_lines(attributes) + ")\n"@
}

/// The groups of `modules` in turn, each with the attributes that the
/// statements expose of it.
pub open spec fn groups_text(statements: Seq<ImportView>, modules: Seq<Seq<char>>) -> Seq<char>
    decreases modules.len(),
{
    if modules.len() == 0 {
        Seq::empty()
    } else {
        groups_text(statements, modules.drop_last()) + group_text(
            modules.last(),
            attributes_of(statements, modules.last()),
        )
    }
}

/// The entries of `__all__`, one each, indented, quoted and with a comma.
pub open spec fn public_lines(names: Seq<Seq<char>>) -> Seq<char> {
    framed_lines(names, "    \""@, "\",\n"@)
}

/// The text of the index that exposes `statements` in the order given: the
/// imports of the submodules, an empty line, the groups, an empty line, and
/// `__all__`.
pub open spec fn index_text(statements: Seq<ImportView>) -> Seq<char> {
    import_lines(import_names(statements)) + "\n"@ + groups_text(
        statements,
        source_modules(statements),
    ) + "\n__all__ = [\n"@ + public_lines(public_names(statements)) + "]\n"@
}

/// The statements in the order in which an index exposes them: sorted, or as given.
pub open spec fn arranged(statements: Seq<ImportView>, sort: bool) -> Seq<ImportView> {
    if sort {
        sorted_statements(statements)
    } else {
        statements
    }
}

/// The text of the index that exposes `statements`.
pub open spec fn rendered(statements: Seq<ImportView>, sort: bool) -> Seq<char> {
    index_text(arranged(statements, sort))
}

/// The names of the submodules that the statements expose, in order.
fn import_names_of(statements: &Vec<ImportStatements>) -> (names: Vec<String>)
    ensures
        texts(names@) == import_names(import_views(statements@)),
{
    let ghost views = import_views(statements@);
    let mut names: Vec<String> = Vec::new();
    let mut i: usize = 0;
    while i < statements.len()
        invariant
            i <= statements.len(),
            views == import_views(statements@),
            texts(names@) == import_names(views.take(i as int)),
        decreases statements.len() - i,
    {
        assert(views.take(i as int + 1).drop_last() =~= views.take(i as int));
        match &statements[i] {
            ImportStatements::Import(module) => {
                proof {
                    lemma_texts_push(names@, *module);
                }
                names.push(module.clone());
            },
            ImportStatements::FromImport(_, _) => {},
        }
        i += 1;
    }
    assert(views.take(i as int) =~= views);
    names
}

/// The submodules that the statements expose attributes of, each once, in
/// the order in which they first occur.
///
/// The groups are found by scanning vectors, not through a hash map: the
/// order in which a hash map is walked is not fixed, and an index's text may
/// not depend on it; nor does vstd say of a hash map with `String` keys
/// which keys it holds.
fn source_modules_of(statements: &Vec<ImportStatements>) -> (modules: Vec<String>)
    ensures
        texts(modules@) == source_modules(import_views(statements@)),
{
    let ghost views = import_views(statements@);
    let mut modules: Vec<String> = Vec::new();
    let mut i: usize = 0;
    while i < statements.len()
        invariant
            i <= statements.len(),
            views == import_views(statements@),
            texts(modules@) == source_modules(views.take(i as int)),
        decreases statements.len() - i,
    {
        assert(views.take(i as int + 1).drop_last() =~= views.take(i as int));
        match &statements[i] {
            ImportStatements::FromImport(module, _) => {
                if !contains_name(&modules, module) {
                    proof {
                        lemma_texts_push(modules@, *module);
                    }
                    modules.push(module.clone());
                }
            },
            ImportStatements::Import(_) => {},
        }
        i += 1;
    }
    assert(views.take(i as int) =~= views);
    modules
}

/// The attributes that the statements expose of `module`, in order.
fn attributes_from(statements: &Vec<ImportStatements>, module: &String) -> (attributes: Vec<
    String,
>)
    ensures
        texts(attributes@) == attributes_of(import_views(statements@), module@),
{
    let ghost views = import_views(statements@);
    let mut attributes: Vec<String> = Vec::new();
    let mut i: usize = 0;
    while i < statements.len()
        invariant
            i <= statements.len(),
            views == import_views(statements@),
            texts(attributes@) == attributes_of(views.take(i as int), module@),
        decreases statements.len() - i,
    {
        assert(views.take(i as int + 1).drop_last() =~= views.take(i as int));
        match &statements[i] {
            ImportStatements::FromImport(source, attribute) => {
                if *source == *module {
                    proof {
                        lemma_texts_push(attributes@, *attribute);
                    }
                    attributes.push(attribute.clone());
                }
            },
            ImportStatements::Import(_) => {},
        }
        i += 1;
    }
    assert(views.take(i as int) =~= views);
    attributes
}

/// Appends one line for each name: `before`, the name, `after`.
fn append_lines(text: &mut String, names: &Vec<String>, before: &str, after: &str)
    ensures
        final(text)@ == old(text)@ + framed_lines(texts(names@), before@, after@),
{
    let ghost start = text@;
    let ghost all = texts(names@);
    let mut i: usize = 0;
    while i < names.len()
        invariant
            i <= names.len(),
            all == texts(names@),
            text@ == start + framed_lines(all.take(i as int), before@, after@),
        decreases names.len() - i,
    {
        assert(all.take(i as int + 1).drop_last() =~= all.take(i as int));
        text.append(before);
        text.append(names[i].as_str());
        text.append(after);
        i += 1;
    }
    assert(all.take(i as int) =~= all);
}

/// Appends the groups of `modules` in turn.
fn append_groups(text: &mut String, statements: &Vec<ImportStatements>, modules: &Vec<String>)
    ensures
        final(text)@ == old(text)@ + groups_text(import_views(statements@), texts(modules@)),
{
    let ghost start = text@;
    let ghost views = import_views(statements@);
    let ghost all = texts(modules@);
    let mut i: usize = 0;
    while i < modules.len()
        invariant
            i <= modules.len(),
            views == import_views(statements@),
            all == texts(modules@),
            text@ == start + groups_text(views, all.take(i as int)),
        decreases modules.len() - i,
    {
        assert(all.take(i as int + 1).drop_last() =~= all.take(i as int));
        let attributes = attributes_from(statements, &modules[i]);
        text.append("from .");
        text.append(modules[i].as_str());
        text.append(" import (\n");
        append_lines(text, &attributes, "    ", ",\n");
        text.append(")\n");
        i += 1;
    }
    assert(all.take(i as int) =~= all);
}

/// The entries of `__all__`: the submodules, then the attributes group by group.
fn public_names_of(
    statements: &Vec<ImportStatements>,
    imports: &Vec<String>,
    modules: &Vec<String>,
) -> (names: Vec<String>)
    requires
        texts(imports@) == import_names(import_views(statements@)),
        texts(modules@) == source_modules(import_views(statements@)),
    ensures
        texts(names@) == public_names(import_views(statements@)),
{
    let ghost views = import_views(statements@);
    let ghost all = texts(modules@);
    let mut names: Vec<String> = Vec::new();
    let mut i: usize = 0;
    while i < imports.len()
        invariant
            i <= imports.len(),
            texts(names@) == texts(imports@).take(i as int),
        decreases imports.len() - i,
    {
        proof {
            lemma_texts_push(names@, imports[i as int]);
        }
        names.push(imports[i].clone());
        i += 1;
    }
    let mut j: usize = 0;
    while j < modules.len()
        invariant
            j <= modules.len(),
            views == import_views(statements@),
            all == texts(modules@),
            texts(names@) == texts(imports@) + grouped_attributes(views, all.take(j as int)),
        decreases modules.len() - j,
    {
        assert(all.take(j as int + 1).drop_last() =~= all.take(j as int));
        let ghost so_far = grouped_attributes(views, all.take(j as int));
        let attributes = attributes_from(statements, &modules[j]);
        let mut k: usize = 0;
        while k < attributes.len()
            invariant
                k <= attributes.len(),
                texts(names@) == texts(imports@) + (so_far + texts(attributes@).take(k as int)),
            decreases attributes.len() - k,
        {
            proof {
                lemma_texts_push(names@, attributes[k as int]);
            }
            names.push(attributes[k].clone());
            k += 1;
        }
        j += 1;
    }
    assert(all.take(j as int) =~= all);
    names
}

/// The text of the index that exposes `statements` in the order given.
fn render_arranged(statements: &Vec<ImportStatements>) -> (text: String)
    ensures
        text@ == index_text(import_views(statements@)),
{
    let imports = import_names_of(statements);
    let modules = source_modules_of(statements);
    let public = public_names_of(statements, &imports, &modules);
    let mut text = String::new();
    append_lines(&mut text, &imports, "from . import ", "\n");
    text.append("\n");
    append_groups(&mut text, statements, &modules);
    text.append("\n__all__ = [\n");
    append_lines(&mut text, &public, "    \"", "\",\n");
    text.append("]\n");
    text
}

/// The text of the index that exposes `statements`.
///
/// First come the submodules, one line each: `from . import NAME`. After an
/// empty line come the attributes, grouped by the submodule that they come
/// from, the groups in the order in which their submodules first occur:
/// `from .NAME import (`, one indented line for each attribute, and `)`.
/// After another empty line comes `__all__`, a list with one entry for each
/// name imported above, in the same order. With `sort` the statements are
/// sorted first: the submodules by name, the attributes by their submodule's
/// name and then their own.
pub fn render(statements: &Vec<ImportStatements>, sort: bool) -> (text: String)
    ensures
        text@ == rendered(import_views(statements@), sort),
{
    if sort {
        let sorted = sort_statements(statements);
        render_arranged(&sorted)
    } else {
        render_arranged(statements)
    }
}

} // verus!
