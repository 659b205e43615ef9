use mkinit::render::render;
use mkinit::statement::{sort_statements, ImportStatements};

fn import(module: &str) -> ImportStatements {
    ImportStatements::Import(module.to_string())
}

fn from(module: &str, attribute: &str) -> ImportStatements {
    ImportStatements::FromImport(module.to_string(), attribute.to_string())
}

#[test]
fn renders_one_module_with_two_names() {
    let statements = vec![import("a"), from("a", "foo"), from("a", "X")];
    assert_eq!(
        render(&statements, false),
        "from . import a\n\nfrom .a import (\n    foo,\n    X,\n)\n\n__all__ = [\n    \"a\",\n    \"foo\",\n    \"X\",\n]\n"
    );
}

#[test]
fn renders_sorted_by_code_point() {
    let statements = vec![import("a"), from("a", "foo"), from("a", "X")];
    assert_eq!(
        render(&statements, true),
        "from . import a\n\nfrom .a import (\n    X,\n    foo,\n)\n\n__all__ = [\n    \"a\",\n    \"X\",\n    \"foo\",\n]\n"
    );
}

#[test]
fn renders_modules_alphabetically_when_sorting() {
    let statements = vec![import("z"), from("z", "g"), import("a"), from("a", "f")];
    assert_eq!(
        render(&statements, true),
        "from . import a\nfrom . import z\n\nfrom .a import (\n    f,\n)\nfrom .z import (\n    g,\n)\n\n__all__ = [\n    \"a\",\n    \"z\",\n    \"f\",\n    \"g\",\n]\n"
    );
}

#[test]
fn renders_in_discovery_order_without_sorting() {
    let statements = vec![import("z"), from("z", "g"), import("a"), from("a", "f")];
    assert_eq!(
        render(&statements, false),
        "from . import z\nfrom . import a\n\nfrom .z import (\n    g,\n)\nfrom .a import (\n    f,\n)\n\n__all__ = [\n    \"z\",\n    \"a\",\n    \"g\",\n    \"f\",\n]\n"
    );
}

#[test]
fn groups_attributes_of_one_module_where_it_first_occurs() {
    let statements = vec![from("m", "b"), from("n", "c"), from("m", "a")];
    assert_eq!(
        render(&statements, false),
        "\nfrom .m import (\n    b,\n    a,\n)\nfrom .n import (\n    c,\n)\n\n__all__ = [\n    \"b\",\n    \"a\",\n    \"c\",\n]\n"
    );
}

#[test]
fn renders_a_module_without_names() {
    assert_eq!(
        render(&vec![import("a")], true),
        "from . import a\n\n\n__all__ = [\n    \"a\",\n]\n"
    );
}

#[test]
fn renders_no_statements_as_an_empty_list() {
    assert_eq!(render(&vec![], true), "\n\n__all__ = [\n]\n");
}

#[test]
fn keeps_duplicates() {
    let statements = vec![import("a"), import("a"), from("a", "x"), from("a", "x")];
    assert_eq!(
        render(&statements, true),
        "from . import a\nfrom . import a\n\nfrom .a import (\n    x,\n    x,\n)\n\n__all__ = [\n    \"a\",\n    \"a\",\n    \"x\",\n    \"x\",\n]\n"
    );
}

#[test]
fn sorted_text_does_not_depend_on_the_order_given() {
    let one = vec![import("b"), from("b", "y"), from("b", "x"), import("a"), from("a", "z")];
    let other = vec![from("a", "z"), from("b", "x"), import("a"), from("b", "y"), import("b")];
    assert_eq!(render(&one, true), render(&other, true));
    assert_ne!(render(&one, false), render(&other, false));
}

#[test]
fn rendering_twice_gives_the_same_text() {
    let statements = vec![import("b"), from("b", "y"), import("a")];
    assert_eq!(render(&statements, false), render(&statements, false));
    assert_eq!(render(&statements, true), render(&statements, true));
}

#[test]
fn sorts_submodules_before_attributes() {
    let statements = vec![from("a", "x"), import("b"), from("a", "w"), import("a")];
    assert_eq!(
        sort_statements(&statements),
        vec![import("a"), import("b"), from("a", "w"), from("a", "x")]
    );
}

#[test]
fn sorts_a_prefix_before_the_longer_name() {
    let statements = vec![import("ab"), import("a"), import("B"), import("")];
    assert_eq!(
        sort_statements(&statements),
        vec![import(""), import("B"), import("a"), import("ab")]
    );
}

#[test]
fn sorts_attributes_by_module_then_name() {
    let statements = vec![from("b", "a"), from("a", "z"), from("ab", "c"), from("a", "b")];
    assert_eq!(
        sort_statements(&statements),
        vec![from("a", "b"), from("a", "z"), from("ab", "c"), from("b", "a")]
    );
}

#[test]
fn sorts_beyond_ascii_by_code_point() {
    let statements = vec![import("é"), import("z"), import("\u{10000}"), import("\u{ffff}")];
    assert_eq!(
        sort_statements(&statements),
        vec![import("z"), import("é"), import("\u{ffff}"), import("\u{10000}")]
    );
}

#[test]
fn exposed_name_picks_module_or_attribute() {
    assert_eq!(import("m").exposed(), "m");
    assert_eq!(from("m", "a").exposed(), "a");
    assert_eq!(from("m", "a").copy(), from("m", "a"));
}

fn listed_in_all(text: &str) -> Vec<String> {
    let start = text.find("__all__ = [\n").expect("the index declares __all__");
    text[start..]
        .lines()
        .skip(1)
        .take_while(|line| *line != "]")
        .map(|line| {
            line.trim_start_matches("    \"").trim_end_matches("\",").to_string()
        })
        .collect()
}

fn imported(text: &str) -> Vec<String> {
    let end = text.find("__all__ = [\n").expect("the index declares __all__");
    let mut names = Vec::new();
    for line in text[..end].lines() {
        if let Some(module) = line.strip_prefix("from . import ") {
            names.push(module.to_string());
        } else if let Some(attribute) = line.strip_prefix("    ") {
            names.push(attribute.trim_end_matches(',').to_string());
        }
    }
    names
}

#[test]
fn every_imported_name_is_listed_in_all() {
    let statements = vec![
        import("pkg"),
        from("pkg", "mod"),
        from("pkg", "f"),
        import("b"),
        from("b", "g"),
        from("pkg", "h"),
        import("a"),
    ];
    for sort in [false, true] {
        let text = render(&statements, sort);
        let all = listed_in_all(&text);
        let names = imported(&text);
        assert_eq!(names.len(), 7);
        for name in &names {
            assert!(all.contains(name), "{} is not in __all__", name);
        }
        assert_eq!(all, names);
    }
}

#[test]
fn all_follows_the_order_of_the_imports() {
    let statements = vec![import("z"), from("z", "b"), from("y", "c"), import("y"), from("z", "a")];
    assert_eq!(
        listed_in_all(&render(&statements, false)),
        vec!["z", "y", "b", "a", "c"]
    );
    assert_eq!(
        listed_in_all(&render(&statements, true)),
        vec!["y", "z", "c", "a", "b"]
    );
}

#[test]
fn index_text_is_ascii_for_ascii_names() {
    let statements = vec![import("a"), from("a", "f")];
    assert!(render(&statements, true).is_ascii());
}
