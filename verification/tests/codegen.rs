use mkinit::codegen::{has_source_suffix, is_index_name, join_path, IndexFile, InitMaker};
use mkinit::error::Error;
use mkinit::parser::{ParseFailure, PythonVersion};
use mkinit::statement::ImportStatements;
use mkinit::tree::{list, probe, visits, Contents, Entry, Node};
use mkinit::replay::drive;
use mkinit::walker::{Action, Event, Kind, Listed, Walk};

fn maker(root: &str, respect_all: bool, sort_imports: bool) -> InitMaker {
    InitMaker::new(
        root.to_string(),
        PythonVersion { major: 3, minor: 12 },
        respect_all,
        sort_imports,
        false,
    )
}

fn file(name: &str, text: &str) -> Entry {
    Entry { name: name.to_string(), node: Node::File(Contents::Text(text.to_string())) }
}

fn dir(name: &str, entries: Vec<Entry>) -> Entry {
    Entry { name: name.to_string(), node: Node::Directory(entries) }
}

fn import(module: &str) -> ImportStatements {
    ImportStatements::Import(module.to_string())
}

fn from(module: &str, attribute: &str) -> ImportStatements {
    ImportStatements::FromImport(module.to_string(), attribute.to_string())
}

fn index(path: &str, contents: &str) -> IndexFile {
    IndexFile { path: path.to_string(), contents: contents.to_string() }
}

#[test]
fn one_module_with_a_function_and_a_constant() {
    let tree = Node::Directory(vec![file("a.py", "def foo(): pass\nX = 1\n")]);
    let outcome = maker("pkg", true, false).make_init(&tree);
    assert_eq!(outcome.result, Ok(vec![import("a"), from("a", "foo"), from("a", "X")]));
    assert_eq!(
        outcome.written,
        vec![index(
            "pkg/__init__.py",
            "from . import a\n\nfrom .a import (\n    foo,\n    X,\n)\n\n__all__ = [\n    \"a\",\n    \"foo\",\n    \"X\",\n]\n"
        )]
    );
}

#[test]
fn hidden_name_is_not_listed() {
    let tree = Node::Directory(vec![file("a.py", "_hidden = 0\nVisible = 1\n")]);
    let outcome = maker("pkg", true, true).make_init(&tree);
    assert_eq!(
        outcome.written,
        vec![index(
            "pkg/__init__.py",
            "from . import a\n\nfrom .a import (\n    Visible,\n)\n\n__all__ = [\n    \"a\",\n    \"Visible\",\n]\n"
        )]
    );
}

#[test]
fn declared_name_is_the_only_attribute() {
    let tree = Node::Directory(vec![file(
        "a.py",
        "__all__ = [\"_hidden\"]\n_hidden = 0\nVisible = 1\n",
    )]);
    let outcome = maker("pkg", true, true).make_init(&tree);
    assert_eq!(outcome.result, Ok(vec![import("a"), from("a", "_hidden")]));
    assert_eq!(
        outcome.written,
        vec![index(
            "pkg/__init__.py",
            "from . import a\n\nfrom .a import (\n    _hidden,\n)\n\n__all__ = [\n    \"a\",\n    \"_hidden\",\n]\n"
        )]
    );
}

#[test]
fn empty_directory_is_not_written_nor_mentioned() {
    let tree = Node::Directory(vec![
        dir("empty", vec![]),
        file("a.py", "def f(): pass\n"),
    ]);
    let outcome = maker("pkg", true, true).make_init(&tree);
    assert_eq!(outcome.result, Ok(vec![import("a"), from("a", "f")]));
    assert_eq!(outcome.written.len(), 1);
    assert_eq!(outcome.written[0].path, "pkg/__init__.py");
    assert!(!outcome.written[0].contents.contains("empty"));
    assert!(outcome.written[0].contents.contains("from . import a\n"));
}

#[test]
fn directory_without_modules_at_any_depth_is_silent() {
    let tree = Node::Directory(vec![
        dir("empty", vec![dir("deeper", vec![]), file("notes.txt", "x = 1\n")]),
        file("README.md", "# readme\n"),
    ]);
    let outcome = maker("pkg", true, true).make_init(&tree);
    assert_eq!(outcome.result, Ok(vec![]));
    assert_eq!(outcome.written, vec![]);
}

#[test]
fn subpackage_is_exposed_one_level_deep() {
    let tree = Node::Directory(vec![dir("sub", vec![file("b.py", "def g(): pass\n")])]);
    let outcome = maker("pkg", true, true).make_init(&tree);
    assert_eq!(outcome.result, Ok(vec![import("sub"), from("sub", "b"), from("sub", "g")]));
    assert_eq!(
        outcome.written,
        vec![
            index(
                "pkg/sub/__init__.py",
                "from . import b\n\nfrom .b import (\n    g,\n)\n\n__all__ = [\n    \"b\",\n    \"g\",\n]\n"
            ),
            index(
                "pkg/__init__.py",
                "from . import sub\n\nfrom .sub import (\n    b,\n    g,\n)\n\n__all__ = [\n    \"sub\",\n    \"b\",\n    \"g\",\n]\n"
            ),
        ]
    );
}

#[test]
fn grandchild_attributes_come_through_the_child() {
    let tree = Node::Directory(vec![dir(
        "p",
        vec![dir("q", vec![file("m.py", "def a(): pass\n")])],
    )]);
    let outcome = maker("pkg", true, false).make_init(&tree);
    assert_eq!(
        outcome.result,
        Ok(vec![import("p"), from("p", "q"), from("p", "m"), from("p", "a")])
    );
    assert_eq!(outcome.written.len(), 3);
    assert_eq!(outcome.written[0].path, "pkg/p/q/__init__.py");
    assert_eq!(outcome.written[1].path, "pkg/p/__init__.py");
    assert_eq!(
        outcome.written[1].contents,
        "from . import q\n\nfrom .q import (\n    m,\n    a,\n)\n\n__all__ = [\n    \"q\",\n    \"m\",\n    \"a\",\n]\n"
    );
    assert_eq!(outcome.written[2].path, "pkg/__init__.py");
}

#[test]
fn modules_are_sorted_in_imports_and_in_all() {
    let tree = Node::Directory(vec![
        file("z.py", "def last(): pass\n"),
        file("a.py", "def first(): pass\n"),
    ]);
    let outcome = maker("pkg", true, true).make_init(&tree);
    assert_eq!(
        outcome.result,
        Ok(vec![import("z"), from("z", "last"), import("a"), from("a", "first")])
    );
    assert_eq!(
        outcome.written,
        vec![index(
            "pkg/__init__.py",
            "from . import a\nfrom . import z\n\nfrom .a import (\n    first,\n)\nfrom .z import (\n    last,\n)\n\n__all__ = [\n    \"a\",\n    \"z\",\n    \"first\",\n    \"last\",\n]\n"
        )]
    );
}

#[test]
fn sorted_indexes_do_not_depend_on_the_order_of_entries() {
    let one = Node::Directory(vec![
        file("z.py", "def last(): pass\n"),
        dir("sub", vec![file("c.py", "C = 1\n"), file("b.py", "B = 1\n")]),
        file("a.py", "def first(): pass\n"),
    ]);
    let other = Node::Directory(vec![
        file("a.py", "def first(): pass\n"),
        file("z.py", "def last(): pass\n"),
        dir("sub", vec![file("b.py", "B = 1\n"), file("c.py", "C = 1\n")]),
    ]);
    let mut first = maker("pkg", true, true).make_init(&one).written;
    let mut second = maker("pkg", true, true).make_init(&other).written;
    first.sort_by(|a, b| a.path.cmp(&b.path));
    second.sort_by(|a, b| a.path.cmp(&b.path));
    assert_eq!(first, second);
    assert_eq!(first.len(), 2);
}

#[test]
fn a_second_walk_writes_the_same_files() {
    let before = Node::Directory(vec![
        file("a.py", "def f(): pass\n"),
        dir("sub", vec![file("b.py", "def g(): pass\n")]),
    ]);
    let first = maker("pkg", true, true).make_init(&before);
    assert_eq!(first.written.len(), 2);
    let after = Node::Directory(vec![
        file("a.py", "def f(): pass\n"),
        dir(
            "sub",
            vec![
                file("b.py", "def g(): pass\n"),
                file("__init__.py", &first.written[0].contents),
            ],
        ),
        file("__init__.py", &first.written[1].contents),
    ]);
    let second = maker("pkg", true, true).make_init(&after);
    assert_eq!(second.written, first.written);
    assert_eq!(second.result, first.result);
}

#[test]
fn index_files_are_not_modules() {
    let tree = Node::Directory(vec![
        file("__init__.py", "def not_seen(): pass\n"),
        dir("__init__.py", vec![file("x.py", "X = 1\n")]),
        file("a.py", "A = 1\n"),
    ]);
    let outcome = maker("pkg", true, true).make_init(&tree);
    assert_eq!(outcome.result, Ok(vec![import("a"), from("a", "A")]));
    assert_eq!(outcome.written.len(), 1);
}

#[test]
fn other_files_are_passed_over() {
    let tree = Node::Directory(vec![
        file("notes.txt", "def f(): pass\n"),
        Entry { name: "data.py".to_string(), node: Node::Other },
        Entry { name: "gone.py".to_string(), node: Node::Missing },
        Entry {
            name: "locked.bin".to_string(),
            node: Node::File(Contents::Unreadable("permission denied".to_string())),
        },
        file("a.py", "A = 1\n"),
    ]);
    let outcome = maker("pkg", true, true).make_init(&tree);
    assert_eq!(outcome.result, Ok(vec![import("a"), from("a", "A")]));
}

#[test]
fn module_without_names_is_still_exposed() {
    let tree = Node::Directory(vec![file("a.py", "import os\n")]);
    let outcome = maker("pkg", true, true).make_init(&tree);
    assert_eq!(outcome.result, Ok(vec![import("a")]));
    assert_eq!(
        outcome.written,
        vec![index("pkg/__init__.py", "from . import a\n\n\n__all__ = [\n    \"a\",\n]\n")]
    );
}

#[test]
fn directory_named_like_a_source_file_keeps_its_name() {
    let tree = Node::Directory(vec![dir("x.py", vec![file("m.py", "M = 1\n")])]);
    let outcome = maker("pkg", true, true).make_init(&tree);
    assert_eq!(
        outcome.result,
        Ok(vec![import("x.py"), from("x.py", "m"), from("x.py", "M")])
    );
}

#[test]
fn source_file_as_root_returns_its_names_and_writes_nothing() {
    let tree = Node::File(Contents::Text("def foo(): pass\n_x = 1\nY = 2\n".to_string()));
    let outcome = maker("pkg/a.py", true, true).make_init(&tree);
    assert_eq!(outcome.result, Ok(vec![import("foo"), import("Y")]));
    assert_eq!(outcome.written, vec![]);
}

#[test]
fn missing_root_is_an_error() {
    let outcome = maker("nowhere", true, true).make_init(&Node::Missing);
    assert_eq!(outcome.result, Err(Error::PathMissing { path: "nowhere".to_string() }));
    assert_eq!(outcome.written, vec![]);
}

#[test]
fn root_that_is_no_directory_nor_source_file_is_an_error() {
    let text = Node::File(Contents::Text("x = 1\n".to_string()));
    let outcome = maker("notes.txt", true, true).make_init(&text);
    assert_eq!(outcome.result, Err(Error::UnsupportedEntry { path: "notes.txt".to_string() }));
    let outcome = maker("socket.py", true, true).make_init(&Node::Other);
    assert_eq!(outcome.result, Err(Error::UnsupportedEntry { path: "socket.py".to_string() }));
}

#[test]
fn parse_failure_ends_the_walk_and_keeps_what_was_written() {
    let tree = Node::Directory(vec![
        dir("sub", vec![file("b.py", "def g(): pass\n")]),
        file("bad.py", "def (:\n"),
        dir("later", vec![file("c.py", "C = 1\n")]),
    ]);
    let outcome = maker("pkg", true, true).make_init(&tree);
    match &outcome.result {
        Err(Error::ParseFailed { path, message }) => {
            assert_eq!(path, "pkg/bad.py");
            assert!(!message.is_empty());
        }
        other => panic!("ended with {:?}", other),
    }
    assert_eq!(outcome.written.len(), 1);
    assert_eq!(outcome.written[0].path, "pkg/sub/__init__.py");
}

#[test]
fn unreadable_file_is_a_read_failure() {
    let tree = Node::Directory(vec![Entry {
        name: "a.py".to_string(),
        node: Node::File(Contents::Unreadable("permission denied".to_string())),
    }]);
    let outcome = maker("pkg", true, true).make_init(&tree);
    assert_eq!(
        outcome.result,
        Err(Error::ReadFailed {
            path: "pkg/a.py".to_string(),
            message: "permission denied".to_string()
        })
    );
    assert_eq!(outcome.written, vec![]);
}

#[test]
fn verbosity_does_not_change_the_outcome() {
    let tree = Node::Directory(vec![file("a.py", "def f(): pass\n")]);
    let version = PythonVersion { major: 3, minor: 12 };
    let quiet = InitMaker::new("pkg".to_string(), version, true, true, false).make_init(&tree);
    let loud = InitMaker::new("pkg".to_string(), version, true, true, true).make_init(&tree);
    assert_eq!(quiet.written, loud.written);
    assert_eq!(quiet.result, loud.result);
}

#[test]
fn no_index_file_for_no_statements() {
    assert_eq!(maker("pkg", true, true).process_init_file(&vec![]), None);
}

#[test]
fn index_file_stands_in_the_root() {
    let file = maker("pkg/sub", true, true).process_init_file(&vec![import("a")]);
    assert_eq!(
        file,
        Some(index("pkg/sub/__init__.py", "from . import a\n\n\n__all__ = [\n    \"a\",\n]\n"))
    );
}

#[test]
fn new_keeps_its_arguments() {
    let version = PythonVersion { major: 3, minor: 9 };
    let made = InitMaker::new("src".to_string(), version, false, true, true);
    assert_eq!(made.root, "src");
    assert_eq!(made.py_version, version);
    assert!(!made.respect_all);
    assert!(made.sort_imports);
    assert!(made.verbose);
}

#[test]
fn with_root_changes_the_root_only() {
    let version = PythonVersion { major: 3, minor: 9 };
    let made = InitMaker::new("src".to_string(), version, false, true, true);
    let moved = made.with_root("src/pkg".to_string());
    assert_eq!(moved, InitMaker::new("src/pkg".to_string(), version, false, true, true));
    assert_eq!(made.root, "src");
}

#[test]
fn source_suffix_is_dot_py() {
    assert!(has_source_suffix("a.py"));
    assert!(has_source_suffix("a.b.py"));
    assert!(has_source_suffix(".py"));
    assert!(has_source_suffix("é.py"));
    assert!(!has_source_suffix("py"));
    assert!(!has_source_suffix("a.pyc"));
    assert!(!has_source_suffix("a.PY"));
    assert!(!has_source_suffix(""));
}

#[test]
fn stems_and_paths() {
    let listed = |name: &str, kind: Kind| Listed { name: name.to_string(), kind };
    assert_eq!(listed("mod.py", Kind::File).stem(), "mod");
    assert_eq!(listed("a.b.py", Kind::File).stem(), "a.b");
    assert_eq!(listed("notes.txt", Kind::File).stem(), "notes.txt");
    assert_eq!(listed("pkg.py", Kind::Directory).stem(), "pkg.py");
    assert_eq!(listed("pkg", Kind::Directory).stem(), "pkg");
    assert_eq!(join_path(&"a/b".to_string(), "c.py"), "a/b/c.py");
    assert!(is_index_name(&"__init__.py".to_string()));
    assert!(!is_index_name(&"__init__.pyc".to_string()));
}

#[test]
fn visited_entries() {
    assert!(visits(&file("a.py", "")));
    assert!(visits(&dir("a", vec![])));
    assert!(!visits(&file("a.txt", "")));
    assert!(!visits(&file("__init__.py", "")));
    assert!(!visits(&dir("__init__.py", vec![])));
    assert!(!visits(&Entry { name: "a.py".to_string(), node: Node::Other }));
    assert!(!visits(&Entry { name: "a".to_string(), node: Node::Missing }));
    let listed = |name: &str, kind: Kind| Listed { name: name.to_string(), kind };
    assert!(listed("a.py", Kind::File).is_visited());
    assert!(listed("a", Kind::Directory).is_visited());
    assert!(!listed("a", Kind::File).is_visited());
    assert!(!listed("a.py", Kind::Other).is_visited());
    assert!(!listed("a.py", Kind::Missing).is_visited());
    assert!(!listed("__init__.py", Kind::File).is_visited());
}

#[test]
fn listing_of_a_tree() {
    assert_eq!(probe(&Node::Missing), Kind::Missing);
    assert_eq!(probe(&Node::Other), Kind::Other);
    assert_eq!(probe(&Node::Directory(vec![])), Kind::Directory);
    assert_eq!(probe(&Node::File(Contents::Text(String::new()))), Kind::File);
    let entries = vec![
        file("a.py", "A = 1\n"),
        dir("sub", vec![file("b.py", "")]),
        Entry { name: "odd".to_string(), node: Node::Other },
    ];
    assert_eq!(
        list(&entries),
        vec![
            Listed { name: "a.py".to_string(), kind: Kind::File },
            Listed { name: "sub".to_string(), kind: Kind::Directory },
            Listed { name: "odd".to_string(), kind: Kind::Other },
        ]
    );
}

#[test]
fn errors_describe_themselves() {
    assert_eq!(
        Error::PathMissing { path: "p".to_string() }.describe(),
        "Path p does not exist"
    );
    assert_eq!(
        Error::UnsupportedEntry { path: "p".to_string() }.describe(),
        "Path p is not a directory or Python source file"
    );
    assert_eq!(
        Error::ParseFailed { path: "p".to_string(), message: "m".to_string() }.describe(),
        "Failed to parse file p: m"
    );
    assert_eq!(
        Error::ParseFailed {
            path: "p".to_string(),
            message: ParseFailure::TooLong.describe()
        }
        .describe(),
        "Failed to parse file p: Source text is longer than 4294967295 bytes"
    );
    assert_eq!(
        Error::ReadFailed { path: "p".to_string(), message: "m".to_string() }.describe(),
        "Failed to read file p: m"
    );
    assert_eq!(
        Error::WriteFailed { path: "p".to_string(), message: "m".to_string() }.describe(),
        "Failed to write file p: m"
    );
}

#[test]
fn driving_a_walk_through_a_tree_answers_all_it_asks() {
    let tree = Node::Directory(vec![
        dir("sub", vec![file("b.py", "def g(): pass\n")]),
        file("a.py", "def f(): pass\n"),
    ]);
    let (mut walk, first) = Walk::start(maker("pkg", true, true));
    assert_eq!(first, Action::Probe { path: "pkg".to_string() });
    let mut written = vec![index("earlier/__init__.py", "")];
    let last = drive(&mut walk, &tree, &mut written);
    assert_eq!(last, Action::Finish);
    assert_eq!(written.len(), 3);
    assert_eq!(written[0].path, "earlier/__init__.py");
    assert_eq!(written[1].path, "pkg/sub/__init__.py");
    assert_eq!(written[2].path, "pkg/__init__.py");
    assert_eq!(
        walk.into_result(),
        Some(Ok(vec![
            import("sub"),
            from("sub", "b"),
            from("sub", "g"),
            import("a"),
            from("a", "f"),
        ]))
    );
}

#[test]
fn driving_a_walk_that_is_over_changes_nothing() {
    let (mut walk, _) = Walk::start(maker("pkg", true, true));
    assert_eq!(walk.step(Event::Found(Kind::Missing)), Action::Finish);
    let tree = Node::Directory(vec![file("a.py", "def f(): pass\n")]);
    let mut written = vec![];
    assert_eq!(drive(&mut walk, &tree, &mut written), Action::Finish);
    assert_eq!(written, vec![]);
    assert_eq!(walk.into_result(), Some(Err(Error::PathMissing { path: "pkg".to_string() })));
}
