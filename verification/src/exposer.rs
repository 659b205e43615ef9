//! Which top-level names a module exposes.

use vstd::prelude::*;
use vstd::string::*;
use crate::syntax::{
    Element, ElementView, Expression, ExpressionView, Statement, StatementView, Syntax,
    SyntaxView, element_views, statement_views,
};
use crate::text::{
    begins_with_underscore, contains_name, lemma_texts_push, starts_with_underscore, texts,
};

verus! {

/// The identifiers of the bare names among `elements`, in order.
pub open spec fn element_names(elements: Seq<ElementView>) -> Seq<Seq<char>>
    decreases elements.len(),
{
    if elements.len() == 0 {
        Seq::empty()
    } else {
        let before = element_names(elements.drop_last());
        match elements.last() {
            ElementView::Name(id) => before.push(id),
            _ => before,
        }
    }
}

/// The values of the string literals among `elements`, in order.
pub open spec fn literal_values(elements: Seq<ElementView>) -> Seq<Seq<char>>
    decreases elements.len(),
{
    if elements.len() == 0 {
        Seq::empty()
    } else {
        let before = literal_values(elements.drop_last());
        match elements.last() {
            ElementView::StringLiteral(value) => before.push(value),
            _ => before,
        }
    }
}

/// The name under which a module declares its public names.
pub open spec fn public_list_name() -> Seq<char> {
    "__all__"@
}

/// Whether a statement is an assignment whose sole target is the name `__all__`.
pub open spec fn assigns_public_list(statement: StatementView) -> bool {
    statement matches StatementView::Assign { targets, .. } && targets.len() == 1 && targets[0]
        == ExpressionView::Name(public_list_name())
}

/// The public names that a module declares, if it declares any.
///
/// The first assignment to `__all__` alone decides. A list display declares
/// the values of the string literals among its elements; any other
/// right-hand side declares nothing.
pub open spec fn public_list(body: Seq<StatementView>) -> Option<Set<Seq<char>>>
    decreases body.len(),
{
    if body.len() == 0 {
        None
    } else if assigns_public_list(body[0]) {
        match body[0]->value {
            ExpressionView::List(elements) => Some(literal_values(elements).to_set()),
            _ => None,
        }
    } else {
        public_list(body.drop_first())
    }
}

/// The names that one statement binds at top level, in order: the name of a
/// function or class; for an assignment, its first target if that is a bare
/// name, or the bare names among the elements of its first target if that is
/// a tuple.
pub open spec fn statement_names(statement: StatementView) -> Seq<Seq<char>> {
    match statement {
        StatementView::FunctionDef(name) => seq![name],
        StatementView::ClassDef(name) => seq![name],
        StatementView::Assign { targets, .. } => if targets.len() == 0 {
            Seq::empty()
        } else {
            match targets[0] {
                ExpressionView::Name(id) => seq![id],
                ExpressionView::Tuple(elements) => element_names(elements),
                _ => Seq::empty(),
            }
        },
        StatementView::Other => Seq::empty(),
    }
}

/// The names that the statements of `body` bind at top level, in source order.
pub open spec fn candidates(body: Seq<StatementView>) -> Seq<Seq<char>>
    decreases body.len(),
{
    if body.len() == 0 {
        Seq::empty()
    } else {
        candidates(body.drop_last()) + statement_names(body.last())
    }
}

/// Whether a name is exposed: where public names are declared, if it is one
/// of them; else, if it does not begin with an underscore.
pub open spec fn is_exposed(name: Seq<char>, declared: Option<Set<Seq<char>>>) -> bool {
    match declared {
        Some(list) => list.contains(name),
        None => !begins_with_underscore(name),
    }
}

/// `is_exposed` under a fixed declaration, as a predicate on names.
pub open spec fn exposure(declared: Option<Set<Seq<char>>>) -> spec_fn(Seq<char>) -> bool {
    |name: Seq<char>| is_exposed(name, declared)
}

/// The declaration that counts: the module's own if it is respected, else none.
pub open spec fn effective_list(body: Seq<StatementView>, respect_all: bool) -> Option<
    Set<Seq<char>>,
> {
    if respect_all {
        public_list(body)
    } else {
        None
    }
}

/// The names that a module exposes: its candidates that are exposed, in
/// source order, each as often as it is bound. Anything but a module
/// exposes nothing.
pub open spec fn exposed_names(syntax: SyntaxView, respect_all: bool) -> Seq<Seq<char>> {
    match syntax {
        SyntaxView::Module(body) => candidates(body).filter(
            exposure(effective_list(body, respect_all)),
        ),
        SyntaxView::Other => Seq::empty(),
    }
}

proof fn lemma_element_names_step(elements: Seq<ElementView>, j: int)
    requires
        0 <= j < elements.len(),
    ensures
        element_names(elements.take(j + 1)) == match elements[j] {
            ElementView::Name(id) => element_names(elements.take(j)).push(id),
            _ => element_names(elements.take(j)),
        },
{
    assert(elements.take(j + 1).drop_last() =~= elements.take(j));
}

proof fn lemma_literal_values_step(elements: Seq<ElementView>, j: int)
    requires
        0 <= j < elements.len(),
    ensures
        literal_values(elements.take(j + 1)) == match elements[j] {
            ElementView::StringLiteral(value) => literal_values(elements.take(j)).push(value),
            _ => literal_values(elements.take(j)),
        },
{
    assert(elements.take(j + 1).drop_last() =~= elements.take(j));
}

proof fn lemma_candidates_step(body: Seq<StatementView>, i: int)
    requires
        0 <= i < body.len(),
    ensures
        candidates(body.take(i + 1)) == candidates(body.take(i)) + statement_names(body[i]),
{
    assert(body.take(i + 1).drop_last() =~= body.take(i));
}

/// The values of the string literals among `elements`.
fn string_literals(elements: &Vec<Element>) -> (values: Vec<String>)
    ensures
        texts(values@) == literal_values(element_views(elements@)),
{
    let ghost views = element_views(elements@);
    let mut values: Vec<String> = Vec::new();
    let mut j: usize = 0;
    while j < elements.len()
        invariant
            j <= elements.len(),
            views == element_views(elements@),
            texts(values@) == literal_values(views.take(j as int)),
        decreases elements.len() - j,
    {
        proof {
            lemma_literal_values_step(views, j as int);
        }
        match &elements[j] {
            Element::StringLiteral(value) => {
                proof {
                    lemma_texts_push(values@, *value);
                }
                values.push(value.clone());
            },
            _ => {},
        }
        j += 1;
    }
    assert(views.take(j as int) =~= views);
    values
}

/// Decides `assigns_public_list`.
fn is_public_list_assignment(statement: &Statement) -> (r: bool)
    ensures
        r == assigns_public_list(statement@),
{
    match statement {
        Statement::Assign { targets, value } => {
            if targets.len() != 1 {
                return false;
            }
            match &targets[0] {
                Expression::Name(id) => {
                    let all = String::from_str("__all__");
                    *id == all
                },
                _ => false,
            }
        },
        _ => false,
    }
}

/// The public names that `body` declares, if it declares any.
///
/// The names are held in a vector and found by comparing: vstd does not say
/// of a hash set of `String`s which strings it holds.
fn declared_public_list(body: &Vec<Statement>) -> (declared: Option<Vec<String>>)
    ensures
        match declared {
            Some(list) => public_list(statement_views(body@)) == Some(texts(list@).to_set()),
            None => public_list(statement_views(body@)) is None,
        },
{
    let ghost views = statement_views(body@);
    let mut i: usize = 0;
    assert(views.skip(0) =~= views);
    while i < body.len()
        invariant
            i <= body.len(),
            views == statement_views(body@),
            public_list(views) == public_list(views.skip(i as int)),
        decreases body.len() - i,
    {
        assert(views.skip(i as int).drop_first() =~= views.skip(i as int + 1));
        if is_public_list_assignment(&body[i]) {
            match &body[i] {
                Statement::Assign { targets, value } => {
                    match value {
                        Expression::List(elements) => {
                            return Some(string_literals(elements));
                        },
                        _ => {
                            return None;
                        },
                    }
                },
                _ => {
                    return None;
                },
            }
        }
        i += 1;
    }
    None
}

/// Decides `is_exposed` against a declaration held as a vector.
fn exposes(name: &String, declared: &Option<Vec<String>>) -> (r: bool)
    ensures
        r == is_exposed(
            name@,
            match declared {
                Some(list) => Some(texts(list@).to_set()),
                None => None,
            },
        ),
{
    match declared {
        Some(list) => contains_name(list, name),
        None => !starts_with_underscore(name.as_str()),
    }
}

/// The names that a module exposes.
///
/// A module exposes the names of its top-level functions and classes, the
/// bare names that stand first among the targets of its top-level
/// assignments, and the bare names in a tuple that stands first there.
/// Where `respect_all` is set and the module assigns a list display to
/// `__all__`, only the names in that list are exposed; otherwise only those
/// that do not begin with an underscore. The names come in source order,
/// each as often as it is bound.
pub fn get_exposed_names(parsed: &Syntax, respect_all: bool) -> (names: Vec<String>)
    ensures
        texts(names@) == exposed_names(parsed@, respect_all),
{
    let mut names: Vec<String> = Vec::new();
    let body = match parsed {
        Syntax::Module(body) => body,
        Syntax::Other => {
            return names;
        },
    };
    let declared = if respect_all {
        declared_public_list(body)
    } else {
        None
    };
    let ghost views = statement_views(body@);
    let ghost keep = exposure(effective_list(views, respect_all));
    proof {
        reveal(Seq::filter);
    }
    let mut i: usize = 0;
    while i < body.len()
        invariant
            i <= body.len(),
            views == statement_views(body@),
            keep == exposure(effective_list(views, respect_all)),
            match declared {
                Some(list) => effective_list(views, respect_all) == Some(texts(list@).to_set()),
                None => effective_list(views, respect_all) is None,
            },
            texts(names@) == candidates(views.take(i as int)).filter(keep),
        decreases body.len() - i,
    {
        let ghost before = candidates(views.take(i as int));
        proof {
            reveal(Seq::filter);
            lemma_candidates_step(views, i as int);
            Seq::filter_distributes_over_add(before, statement_names(views[i as int]), keep);
        }
        match &body[i] {
            Statement::FunctionDef(name) => {
                push_if_exposed(&mut names, name, &declared, Ghost(keep));
            },
            Statement::ClassDef(name) => {
                push_if_exposed(&mut names, name, &declared, Ghost(keep));
            },
            Statement::Assign { targets, value } => {
                if targets.len() > 0 {
                    match &targets[0] {
                        Expression::Name(id) => {
                            push_if_exposed(&mut names, id, &declared, Ghost(keep));
                        },
                        Expression::Tuple(elements) => {
                            push_exposed_elements(&mut names, elements, &declared, Ghost(keep));
                        },
                        _ => {},
                    }
                }
            },
            Statement::Other => {},
        }
        i += 1;
    }
    assert(views.take(i as int) =~= views);
    names
}

/// Appends `name` to `names` if it is exposed.
fn push_if_exposed(
    names: &mut Vec<String>,
    name: &String,
    declared: &Option<Vec<String>>,
    Ghost(keep): Ghost<spec_fn(Seq<char>) -> bool>,
)
    requires
        keep == exposure(
            match declared {
                Some(list) => Some(texts(list@).to_set()),
                None => None,
            },
        ),
    ensures
        texts(final(names)@) == texts(old(names)@) + seq![name@].filter(keep),
{
    proof {
        reveal(Seq::filter);
        Seq::<Seq<char>>::empty().lemma_filter_push(name@, keep);
    }
    if exposes(name, declared) {
        proof {
            lemma_texts_push(names@, *name);
        }
        names.push(name.clone());
    }
}

/// Appends to `names` the bare names among `elements` that are exposed.
fn push_exposed_elements(
    names: &mut Vec<String>,
    elements: &Vec<Element>,
    declared: &Option<Vec<String>>,
    Ghost(keep): Ghost<spec_fn(Seq<char>) -> bool>,
)
    requires
        keep == exposure(
            match declared {
                Some(list) => Some(texts(list@).to_set()),
                None => None,
            },
        ),
    ensures
        texts(final(names)@) == texts(old(names)@) + element_names(
            element_views(elements@),
        ).filter(keep),
{
    let ghost views = element_views(elements@);
    let ghost start = texts(names@);
    proof {
        reveal(Seq::filter);
    }
    let mut j: usize = 0;
    while j < elements.len()
        invariant
            j <= elements.len(),
            views == element_views(elements@),
            keep == exposure(
                match declared {
                    Some(list) => Some(texts(list@).to_set()),
                    None => None,
                },
            ),
            texts(names@) == start + element_names(views.take(j as int)).filter(keep),
        decreases elements.len() - j,
    {
        let ghost before = element_names(views.take(j as int));
        proof {
            lemma_element_names_step(views, j as int);
        }
        match &elements[j] {
            Element::Name(id) => {
                proof {
                    before.lemma_filter_push(id@, keep);
                    lemma_texts_push(names@, *id);
                }
                if exposes(id, declared) {
                    names.push(id.clone());
                }
            },
            _ => {},
        }
        j += 1;
    }
    assert(views.take(j as int) =~= views);
}


/// Where a module declares no public names, or its declaration is not
/// respected, no name that it exposes begins with an underscore.
pub proof fn lemma_underscore_rule(syntax: SyntaxView, respect_all: bool)
    requires
        syntax matches SyntaxView::Module(body) ==> effective_list(body, respect_all) is None,
    ensures
        forall|i: int|
            0 <= i < exposed_names(syntax, respect_all).len() ==> !begins_with_underscore(
                #[trigger] exposed_names(syntax, respect_all)[i],
            ),
{
    match syntax {
        SyntaxView::Module(body) => {
            let keep = exposure(effective_list(body, respect_all));
            assert forall|i: int| 0 <= i < candidates(body).filter(keep).len() implies keep(
                #[trigger] candidates(body).filter(keep)[i],
            ) by {
                candidates(body).lemma_filter_pred(keep, i);
            }
        },
        SyntaxView::Other => {},
    }
}

/// Where a module declares its public names and the declaration is
/// respected, the module exposes those of its candidates that are declared,
/// whatever they begin with, and nothing else: the names exposed are the
/// declared names that the module binds at top level.
pub proof fn lemma_public_list_precedence(body: Seq<StatementView>, list: Set<Seq<char>>)
    requires
        public_list(body) == Some(list),
    ensures
        exposed_names(SyntaxView::Module(body), true) == candidates(body).filter(
            |name: Seq<char>| list.contains(name),
        ),
        exposed_names(SyntaxView::Module(body), true).to_set() == list.intersect(
            candidates(body).to_set(),
        ),
{
    let keep = exposure(Some(list));
    let listed = |name: Seq<char>| list.contains(name);
    assert(keep =~= listed) by {
        assert forall|name: Seq<char>| #[trigger] keep(name) == listed(name) by {}
    }
    let all = candidates(body);
    let exposed = all.filter(keep);
    assert forall|name: Seq<char>| exposed.to_set().contains(name) == list.intersect(
        all.to_set(),
    ).contains(name) by {
        if exposed.contains(name) {
            let i = choose|i: int| 0 <= i < exposed.len() && exposed[i] == name;
            all.lemma_filter_pred(keep, i);
            all.lemma_filter_contains_rev(keep, name);
        }
        if list.contains(name) && all.contains(name) {
            let i = choose|i: int| 0 <= i < all.len() && all[i] == name;
            all.lemma_filter_contains(keep, i);
        }
    }
}

} // verus!
