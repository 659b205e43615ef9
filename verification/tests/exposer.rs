use mkinit::exposer::get_exposed_names;
use mkinit::parser::{parse_module, ParseFailure, PythonVersion, MAX_SOURCE_BYTES};
use mkinit::syntax::{Element, Expression, Statement, Syntax};

fn py312() -> PythonVersion {
    PythonVersion { major: 3, minor: 12 }
}

fn exposed(source: &str, respect_all: bool) -> Vec<String> {
    let syntax = parse_module(source, py312()).expect("the source parses");
    get_exposed_names(&syntax, respect_all)
}

fn names(list: &[&str]) -> Vec<String> {
    list.iter().map(|s| s.to_string()).collect()
}

#[test]
fn parses_definitions_and_assignments() {
    let syntax = parse_module("def foo(): pass\nclass Bar: pass\nX = 1\n", py312()).unwrap();
    assert_eq!(
        syntax,
        Syntax::Module(vec![
            Statement::FunctionDef("foo".to_string()),
            Statement::ClassDef("Bar".to_string()),
            Statement::Assign {
                targets: vec![Expression::Name("X".to_string())],
                value: Expression::Other,
            },
        ])
    );
}

#[test]
fn parses_tuples_lists_and_chained_targets() {
    let syntax = parse_module("a, b[0] = 1, 2\nx = y = [\"s\", t, 3]\nimport os\n", py312()).unwrap();
    assert_eq!(
        syntax,
        Syntax::Module(vec![
            Statement::Assign {
                targets: vec![Expression::Tuple(vec![
                    Element::Name("a".to_string()),
                    Element::Other,
                ])],
                value: Expression::Tuple(vec![Element::Other, Element::Other]),
            },
            Statement::Assign {
                targets: vec![
                    Expression::Name("x".to_string()),
                    Expression::Name("y".to_string()),
                ],
                value: Expression::List(vec![
                    Element::StringLiteral("s".to_string()),
                    Element::Name("t".to_string()),
                    Element::Other,
                ]),
            },
            Statement::Other,
        ])
    );
}

#[test]
fn parses_empty_source_as_empty_module() {
    assert_eq!(parse_module("", py312()), Ok(Syntax::Module(vec![])));
}

#[test]
fn rejects_invalid_source_with_a_message() {
    let outcome = parse_module("def (:\n", py312());
    match outcome {
        Err(ParseFailure::Rejected(message)) => assert!(!message.is_empty()),
        other => panic!("ended as {:?}", other),
    }
}

#[test]
fn same_source_parses_alike() {
    let source = "def f(): pass\n__all__ = ['f']\n";
    assert_eq!(parse_module(source, py312()), parse_module(source, py312()));
}

#[test]
fn exposes_functions_classes_and_assignments_in_source_order() {
    assert_eq!(
        exposed("X = 1\ndef foo(): pass\nclass Bar: pass\nY = 2\n", true),
        names(&["X", "foo", "Bar", "Y"])
    );
}

#[test]
fn hides_names_that_begin_with_an_underscore() {
    assert_eq!(exposed("_hidden = 0\nVisible = 1\n", true), names(&["Visible"]));
    assert_eq!(exposed("def _f(): pass\nclass _C: pass\n__x = 1\n", false), names(&[]));
}

#[test]
fn public_list_overrides_the_underscore_rule() {
    assert_eq!(
        exposed("__all__ = [\"_hidden\"]\n_hidden = 0\nVisible = 1\n", true),
        names(&["_hidden"])
    );
}

#[test]
fn public_list_is_ignored_unless_respected() {
    assert_eq!(
        exposed("__all__ = [\"_hidden\"]\n_hidden = 0\nVisible = 1\n", false),
        names(&["Visible"])
    );
}

#[test]
fn public_list_itself_is_a_candidate() {
    assert_eq!(exposed("__all__ = [\"__all__\", \"a\"]\na = 1\n", true), names(&["__all__", "a"]));
}

#[test]
fn public_list_keeps_only_names_bound_at_top_level() {
    assert_eq!(exposed("__all__ = [\"a\", \"missing\"]\na = 1\nb = 2\n", true), names(&["a"]));
}

#[test]
fn public_list_ignores_elements_that_are_not_string_literals() {
    assert_eq!(exposed("__all__ = [\"a\", b, 3]\na = 1\nb = 2\n", true), names(&["a"]));
}

#[test]
fn public_list_that_is_no_list_declares_nothing() {
    assert_eq!(
        exposed("__all__ = (\"_a\",)\n_a = 1\nb = 2\n", true),
        names(&["b"])
    );
}

#[test]
fn only_the_first_public_list_counts() {
    assert_eq!(
        exposed("__all__ = [\"a\"]\n__all__ = [\"b\"]\na = 1\nb = 2\n", true),
        names(&["a"])
    );
    assert_eq!(
        exposed("__all__ = 3\n__all__ = [\"_b\"]\na = 1\n_b = 2\n", true),
        names(&["a"])
    );
}

#[test]
fn public_list_needs_a_sole_target() {
    assert_eq!(
        exposed("__all__ = other = [\"_a\"]\n_a = 1\nb = 2\n", true),
        names(&["b"])
    );
}

#[test]
fn tuple_targets_expose_their_bare_names() {
    assert_eq!(exposed("A, _b, C = 1, 2, 3\n", true), names(&["A", "C"]));
    assert_eq!(exposed("a, b.c, (d, e) = 1, 2, (3, 4)\n", true), names(&["a"]));
}

#[test]
fn only_the_first_target_counts() {
    assert_eq!(exposed("x = y = 1\n", true), names(&["x"]));
}

#[test]
fn other_statements_expose_nothing() {
    let source = "import os\nfrom a import b\nx: int = 1\ny += 1\nif True:\n    z = 1\nfor i in []:\n    pass\n";
    assert_eq!(exposed(source, true), names(&[]));
}

#[test]
fn duplicates_are_kept() {
    assert_eq!(exposed("a = 1\na = 2\ndef a(): pass\n", true), names(&["a", "a", "a"]));
}

#[test]
fn anything_but_a_module_exposes_nothing() {
    assert_eq!(get_exposed_names(&Syntax::Other, true), names(&[]));
    assert_eq!(get_exposed_names(&Syntax::Other, false), names(&[]));
}

#[test]
fn assignment_without_targets_exposes_nothing() {
    let syntax = Syntax::Module(vec![
        Statement::Assign { targets: vec![], value: Expression::List(vec![]) },
        Statement::FunctionDef("f".to_string()),
    ]);
    assert_eq!(get_exposed_names(&syntax, true), names(&["f"]));
}

#[test]
fn empty_public_list_exposes_nothing() {
    assert_eq!(exposed("__all__ = []\na = 1\n", true), names(&[]));
}

#[test]
fn unicode_names_are_exposed() {
    assert_eq!(exposed("größe = 1\n_größe = 2\n", true), names(&["größe"]));
}

#[test]
fn parse_failures_describe_themselves() {
    assert_eq!(MAX_SOURCE_BYTES, 4294967295);
    assert_eq!(
        ParseFailure::TooLong.describe(),
        "Source text is longer than 4294967295 bytes"
    );
    assert_eq!(ParseFailure::Rejected("no".to_string()).describe(), "no");
    match parse_module("x = (\n", py312()) {
        Err(failure) => match &failure {
            ParseFailure::Rejected(message) => assert_eq!(&failure.describe(), message),
            other => panic!("failed as {:?}", other),
        },
        Ok(syntax) => panic!("parsed as {:?}", syntax),
    }
}
