use mkinit::codegen::{IndexFile, InitMaker};
use mkinit::error::Error;
use mkinit::parser::PythonVersion;
use mkinit::statement::ImportStatements;
use mkinit::walker::{Action, Event, Kind, Listed, Walk};

fn start(root: &str, sort_imports: bool) -> (Walk, Action) {
    Walk::start(InitMaker::new(
        root.to_string(),
        PythonVersion { major: 3, minor: 12 },
        true,
        sort_imports,
        false,
    ))
}

fn probe(path: &str) -> Action {
    Action::Probe { path: path.to_string() }
}

fn read(path: &str) -> Action {
    Action::Read { path: path.to_string() }
}

fn listed(name: &str, kind: Kind) -> Listed {
    Listed { name: name.to_string(), kind }
}

fn import(module: &str) -> ImportStatements {
    ImportStatements::Import(module.to_string())
}

fn from(module: &str, attribute: &str) -> ImportStatements {
    ImportStatements::FromImport(module.to_string(), attribute.to_string())
}

fn write(path: &str, contents: &str) -> Action {
    Action::Write { file: IndexFile { path: path.to_string(), contents: contents.to_string() } }
}

#[test]
fn walk_starts_by_probing_the_root() {
    let (walk, action) = start("pkg", true);
    assert_eq!(action, probe("pkg"));
    assert_eq!(walk.depth(), 0);
    assert!(!walk.is_over());
    assert!(!walk.has_failed());
    assert_eq!(walk.into_result(), None);
}

#[test]
fn walk_through_a_package_and_a_subpackage() {
    let (mut walk, action) = start("pkg", true);
    assert_eq!(action, probe("pkg"));
    assert_eq!(walk.step(Event::Found(Kind::Directory)), Action::List { path: "pkg".to_string() });
    let entries = vec![
        listed("README.md", Kind::File),
        listed("z.py", Kind::File),
        listed("__init__.py", Kind::File),
        listed("sub", Kind::Directory),
        listed("link", Kind::Other),
    ];
    assert_eq!(walk.step(Event::Listing(entries)), probe("pkg/z.py"));
    assert_eq!(walk.depth(), 1);
    assert_eq!(walk.step(Event::Found(Kind::File)), read("pkg/z.py"));
    assert_eq!(walk.step(Event::Text("def last(): pass\n".to_string())), probe("pkg/sub"));
    assert_eq!(
        walk.step(Event::Found(Kind::Directory)),
        Action::List { path: "pkg/sub".to_string() }
    );
    assert_eq!(
        walk.step(Event::Listing(vec![listed("b.py", Kind::File)])),
        probe("pkg/sub/b.py")
    );
    assert_eq!(walk.depth(), 2);
    assert_eq!(walk.step(Event::Found(Kind::File)), read("pkg/sub/b.py"));
    assert_eq!(
        walk.step(Event::Text("def g(): pass\n".to_string())),
        write(
            "pkg/sub/__init__.py",
            "from . import b\n\nfrom .b import (\n    g,\n)\n\n__all__ = [\n    \"b\",\n    \"g\",\n]\n"
        )
    );
    assert_eq!(
        walk.step(Event::Written),
        write(
            "pkg/__init__.py",
            "from . import sub\nfrom . import z\n\nfrom .sub import (\n    b,\n    g,\n)\nfrom .z import (\n    last,\n)\n\n__all__ = [\n    \"sub\",\n    \"z\",\n    \"b\",\n    \"g\",\n    \"last\",\n]\n"
        )
    );
    assert_eq!(walk.depth(), 1);
    assert_eq!(walk.step(Event::Written), Action::Finish);
    assert!(walk.is_over());
    assert!(!walk.has_failed());
    assert_eq!(walk.depth(), 0);
    assert_eq!(
        walk.into_result(),
        Some(Ok(vec![
            import("z"),
            from("z", "last"),
            import("sub"),
            from("sub", "b"),
            from("sub", "g"),
        ]))
    );
}

#[test]
fn walk_leaves_an_empty_directory_without_a_word() {
    let (mut walk, _) = start("pkg", true);
    walk.step(Event::Found(Kind::Directory));
    let entries = vec![listed("empty", Kind::Directory), listed("a.py", Kind::File)];
    assert_eq!(walk.step(Event::Listing(entries)), probe("pkg/empty"));
    assert_eq!(
        walk.step(Event::Found(Kind::Directory)),
        Action::List { path: "pkg/empty".to_string() }
    );
    assert_eq!(
        walk.step(Event::Listing(vec![listed("notes.txt", Kind::File)])),
        probe("pkg/a.py")
    );
    assert_eq!(walk.depth(), 1);
    assert_eq!(walk.step(Event::Found(Kind::File)), read("pkg/a.py"));
    assert_eq!(
        walk.step(Event::Text("def f(): pass\n".to_string())),
        write(
            "pkg/__init__.py",
            "from . import a\n\nfrom .a import (\n    f,\n)\n\n__all__ = [\n    \"a\",\n    \"f\",\n]\n"
        )
    );
    assert_eq!(walk.step(Event::Written), Action::Finish);
    assert_eq!(walk.into_result(), Some(Ok(vec![import("a"), from("a", "f")])));
}

#[test]
fn walk_of_an_empty_root_ends_without_writing() {
    let (mut walk, _) = start("pkg", true);
    walk.step(Event::Found(Kind::Directory));
    assert_eq!(walk.step(Event::Listing(vec![])), Action::Finish);
    assert_eq!(walk.into_result(), Some(Ok(vec![])));
}

#[test]
fn walk_of_a_source_file_returns_its_names() {
    let (mut walk, action) = start("pkg/a.py", true);
    assert_eq!(action, probe("pkg/a.py"));
    assert_eq!(walk.step(Event::Found(Kind::File)), read("pkg/a.py"));
    assert_eq!(walk.step(Event::Text("X = 1\n_y = 2\n".to_string())), Action::Finish);
    assert_eq!(walk.into_result(), Some(Ok(vec![import("X")])));
}

#[test]
fn walk_fails_where_nothing_stands() {
    let (mut walk, _) = start("nowhere", true);
    assert_eq!(walk.step(Event::Found(Kind::Missing)), Action::Finish);
    assert!(walk.has_failed());
    assert_eq!(
        walk.into_result(),
        Some(Err(Error::PathMissing { path: "nowhere".to_string() }))
    );
}

#[test]
fn walk_fails_when_an_entry_has_gone() {
    let (mut walk, _) = start("pkg", true);
    walk.step(Event::Found(Kind::Directory));
    assert_eq!(walk.step(Event::Listing(vec![listed("a.py", Kind::File)])), probe("pkg/a.py"));
    assert_eq!(walk.step(Event::Found(Kind::Missing)), Action::Finish);
    assert_eq!(
        walk.into_result(),
        Some(Err(Error::PathMissing { path: "pkg/a.py".to_string() }))
    );
}

#[test]
fn walk_fails_on_what_it_cannot_walk() {
    let (mut walk, _) = start("notes.txt", true);
    assert_eq!(walk.step(Event::Found(Kind::File)), Action::Finish);
    assert_eq!(
        walk.into_result(),
        Some(Err(Error::UnsupportedEntry { path: "notes.txt".to_string() }))
    );
    let (mut walk, _) = start("pipe.py", true);
    assert_eq!(walk.step(Event::Found(Kind::Other)), Action::Finish);
    assert_eq!(
        walk.into_result(),
        Some(Err(Error::UnsupportedEntry { path: "pipe.py".to_string() }))
    );
}

#[test]
fn walk_fails_when_a_file_cannot_be_read() {
    let (mut walk, _) = start("a.py", true);
    walk.step(Event::Found(Kind::File));
    assert_eq!(walk.step(Event::Failed("permission denied".to_string())), Action::Finish);
    assert_eq!(
        walk.into_result(),
        Some(Err(Error::ReadFailed {
            path: "a.py".to_string(),
            message: "permission denied".to_string()
        }))
    );
}

#[test]
fn walk_fails_when_a_directory_cannot_be_listed() {
    let (mut walk, _) = start("pkg", true);
    walk.step(Event::Found(Kind::Directory));
    assert_eq!(walk.step(Event::Failed("permission denied".to_string())), Action::Finish);
    assert_eq!(
        walk.into_result(),
        Some(Err(Error::ReadFailed {
            path: "pkg".to_string(),
            message: "permission denied".to_string()
        }))
    );
}

#[test]
fn walk_fails_when_the_parser_rejects_a_file() {
    let (mut walk, _) = start("a.py", true);
    walk.step(Event::Found(Kind::File));
    assert_eq!(walk.step(Event::Text("def (:\n".to_string())), Action::Finish);
    match walk.into_result() {
        Some(Err(Error::ParseFailed { path, message })) => {
            assert_eq!(path, "a.py");
            assert!(!message.is_empty());
        }
        other => panic!("ended with {:?}", other),
    }
}

#[test]
fn walk_fails_when_an_index_cannot_be_written() {
    let (mut walk, _) = start("pkg", true);
    walk.step(Event::Found(Kind::Directory));
    walk.step(Event::Listing(vec![listed("a.py", Kind::File)]));
    walk.step(Event::Found(Kind::File));
    let action = walk.step(Event::Text("A = 1\n".to_string()));
    assert_eq!(
        action,
        write(
            "pkg/__init__.py",
            "from . import a\n\nfrom .a import (\n    A,\n)\n\n__all__ = [\n    \"a\",\n    \"A\",\n]\n"
        )
    );
    assert_eq!(walk.step(Event::Failed("read-only file system".to_string())), Action::Finish);
    assert_eq!(
        walk.into_result(),
        Some(Err(Error::WriteFailed {
            path: "pkg/__init__.py".to_string(),
            message: "read-only file system".to_string()
        }))
    );
}

#[test]
fn event_that_answers_nothing_counts_as_a_failure() {
    let (mut walk, _) = start("pkg", true);
    assert_eq!(walk.step(Event::Written), Action::Finish);
    assert_eq!(walk.into_result(), Some(Err(Error::PathMissing { path: "pkg".to_string() })));

    let (mut walk, _) = start("pkg", true);
    walk.step(Event::Found(Kind::Directory));
    assert_eq!(walk.step(Event::Found(Kind::Directory)), Action::Finish);
    assert_eq!(
        walk.into_result(),
        Some(Err(Error::ReadFailed { path: "pkg".to_string(), message: String::new() }))
    );

    let (mut walk, _) = start("a.py", true);
    walk.step(Event::Found(Kind::File));
    assert_eq!(walk.step(Event::Listing(vec![])), Action::Finish);
    assert_eq!(
        walk.into_result(),
        Some(Err(Error::ReadFailed { path: "a.py".to_string(), message: String::new() }))
    );

    let (mut walk, _) = start("pkg", true);
    walk.step(Event::Found(Kind::Directory));
    walk.step(Event::Listing(vec![listed("a.py", Kind::File)]));
    walk.step(Event::Found(Kind::File));
    walk.step(Event::Text("A = 1\n".to_string()));
    assert_eq!(walk.step(Event::Text("x".to_string())), Action::Finish);
    assert_eq!(
        walk.into_result(),
        Some(Err(Error::WriteFailed { path: "pkg/__init__.py".to_string(), message: String::new() }))
    );
}

#[test]
fn walk_that_is_over_stays_over() {
    let (mut walk, _) = start("nowhere", true);
    assert_eq!(walk.step(Event::Found(Kind::Missing)), Action::Finish);
    assert_eq!(walk.step(Event::Found(Kind::Directory)), Action::Finish);
    assert_eq!(walk.step(Event::Written), Action::Finish);
    assert!(walk.is_over());
    assert_eq!(
        walk.into_result(),
        Some(Err(Error::PathMissing { path: "nowhere".to_string() }))
    );
}

#[test]
fn walk_goes_by_what_it_finds_not_by_the_listing() {
    let (mut walk, _) = start("pkg", false);
    walk.step(Event::Found(Kind::Directory));
    assert_eq!(walk.step(Event::Listing(vec![listed("a.py", Kind::File)])), probe("pkg/a.py"));
    assert_eq!(
        walk.step(Event::Found(Kind::Directory)),
        Action::List { path: "pkg/a.py".to_string() }
    );
    assert_eq!(walk.step(Event::Listing(vec![])), Action::Finish);
    assert_eq!(walk.into_result(), Some(Ok(vec![])));
}

fn run(root: &str, sort_imports: bool, answers: Vec<Event>) -> (Vec<Action>, Walk) {
    let (mut walk, first) = start(root, sort_imports);
    let mut actions = vec![first];
    for event in answers {
        actions.push(walk.step(event));
    }
    (actions, walk)
}

#[test]
fn walk_without_sorting_keeps_the_order_of_the_listing() {
    let (actions, walk) = run(
        "pkg",
        false,
        vec![
            Event::Found(Kind::Directory),
            Event::Listing(vec![listed("z.py", Kind::File), listed("a.py", Kind::File)]),
            Event::Found(Kind::File),
            Event::Text("def last(): pass\n".to_string()),
            Event::Found(Kind::File),
            Event::Text("def first(): pass\n".to_string()),
            Event::Written,
        ],
    );
    assert_eq!(
        actions,
        vec![
            probe("pkg"),
            Action::List { path: "pkg".to_string() },
            probe("pkg/z.py"),
            read("pkg/z.py"),
            probe("pkg/a.py"),
            read("pkg/a.py"),
            write(
                "pkg/__init__.py",
                "from . import z\nfrom . import a\n\nfrom .z import (\n    last,\n)\nfrom .a import (\n    first,\n)\n\n__all__ = [\n    \"z\",\n    \"a\",\n    \"last\",\n    \"first\",\n]\n"
            ),
            Action::Finish,
        ]
    );
    assert_eq!(
        walk.into_result(),
        Some(Ok(vec![import("z"), from("z", "last"), import("a"), from("a", "first")]))
    );
}

#[test]
fn walk_writes_a_child_index_before_its_parent_reads_on() {
    let (actions, _) = run(
        "pkg",
        true,
        vec![
            Event::Found(Kind::Directory),
            Event::Listing(vec![listed("sub", Kind::Directory), listed("a.py", Kind::File)]),
            Event::Found(Kind::Directory),
            Event::Listing(vec![listed("b.py", Kind::File)]),
            Event::Found(Kind::File),
            Event::Text("B = 1\n".to_string()),
            Event::Written,
        ],
    );
    assert_eq!(
        actions[6],
        write(
            "pkg/sub/__init__.py",
            "from . import b\n\nfrom .b import (\n    B,\n)\n\n__all__ = [\n    \"b\",\n    \"B\",\n]\n"
        )
    );
    assert_eq!(actions[7], probe("pkg/a.py"));
}

#[test]
fn walk_respects_the_settings_it_started_with() {
    let (mut walk, _) = Walk::start(InitMaker::new(
        "m.py".to_string(),
        PythonVersion { major: 3, minor: 12 },
        false,
        true,
        true,
    ));
    walk.step(Event::Found(Kind::File));
    walk.step(Event::Text("__all__ = [\"_a\"]\n_a = 1\nb = 2\n".to_string()));
    assert_eq!(walk.into_result(), Some(Ok(vec![import("b")])));
}

#[test]
fn syntax_newer_than_the_target_is_no_parse_failure() {
    let source = "match x:\n    case []:\n        pass\n";
    let old = Walk::start(InitMaker::new(
        "m.py".to_string(),
        PythonVersion { major: 3, minor: 8 },
        true,
        true,
        false,
    ));
    let new = Walk::start(InitMaker::new(
        "m.py".to_string(),
        PythonVersion { major: 3, minor: 12 },
        true,
        true,
        false,
    ));
    for (mut walk, _) in [old, new] {
        walk.step(Event::Found(Kind::File));
        assert_eq!(walk.step(Event::Text(source.to_string())), Action::Finish);
        assert_eq!(walk.into_result(), Some(Ok(vec![])));
    }
}
