use sweep::config::{Config, EntryType, Kind};
use sweep::fsmodel::{Event, FsNode};
use sweep::manager::Manager;
use sweep::matcher::{find, pattern_check};
use sweep::walker::remove;

fn file(name: &str) -> FsNode {
    FsNode::File {
        name: String::from(name),
    }
}

fn dir(name: &str, entries: Vec<FsNode>) -> FsNode {
    FsNode::Dir {
        name: String::from(name),
        entries,
    }
}

fn strings(items: &[&str]) -> Vec<String> {
    items.iter().map(|s| String::from(*s)).collect()
}

fn excluded(name: &str) -> Event {
    Event::Excluded {
        name: String::from(name),
    }
}

fn removing(name: &str) -> Event {
    Event::Removing {
        name: String::from(name),
    }
}

fn removed(name: &str) -> Event {
    Event::Removed {
        name: String::from(name),
    }
}

#[test]
fn find_is_case_insensitive_and_first() {
    let list = strings(&["alpha", "Build", "BUILD"]);
    assert_eq!(find("bUiLd", &list), Some(1));
    assert_eq!(find("alpha", &list), Some(0));
    assert_eq!(find("beta", &list), None);
    assert_eq!(find("anything", &strings(&[])), None);
}

#[test]
fn pattern_check_discriminates_kind_and_type() {
    let patterns = strings(&["tmp", "build"]);
    // A folder rule matches a directory by name, never a file.
    assert_eq!(
        pattern_check(&String::from("build"), &EntryType::Directory, &patterns, &Kind::Folder),
        Some(1)
    );
    assert_eq!(
        pattern_check(&String::from("build"), &EntryType::Regular, &patterns, &Kind::Folder),
        None
    );
    // A file rule matches a regular file by extension, never a directory.
    assert_eq!(
        pattern_check(&String::from("a.tmp"), &EntryType::Regular, &patterns, &Kind::File),
        Some(0)
    );
    assert_eq!(
        pattern_check(&String::from("dir.tmp"), &EntryType::Directory, &patterns, &Kind::File),
        None
    );
    // Entries of neither type never match.
    assert_eq!(
        pattern_check(&String::from("a.tmp"), &EntryType::Other, &patterns, &Kind::File),
        None
    );
}

#[test]
fn pattern_check_extension_edges() {
    let patterns = strings(&["tmp", "gitignore"]);
    // No extension: never matches, even when the whole name is a pattern.
    assert_eq!(
        pattern_check(&String::from("tmp"), &EntryType::Regular, &patterns, &Kind::File),
        None
    );
    // A leading dot does not start an extension.
    assert_eq!(
        pattern_check(&String::from(".gitignore"), &EntryType::Regular, &patterns, &Kind::File),
        None
    );
    // Only the last dot counts.
    assert_eq!(
        pattern_check(&String::from("a.tmp.bak"), &EntryType::Regular, &patterns, &Kind::File),
        None
    );
    assert_eq!(
        pattern_check(&String::from("archive.tar.TMP"), &EntryType::Regular, &patterns, &Kind::File),
        Some(0)
    );
}

#[test]
fn folder_rule_scenario() {
    let entries = vec![
        dir("build", vec![file("artifact.o"), dir("deep", vec![file("x.txt")])]),
        dir("src", vec![file("main.rs")]),
        dir("node_modules", vec![file("dep.js")]),
    ];
    let mut log = Vec::new();
    let kept = remove(
        entries,
        &Kind::Folder,
        &strings(&["build"]),
        &strings(&["node_modules"]),
        false,
        &mut log,
    );
    assert_eq!(
        kept,
        vec![
            dir("src", vec![file("main.rs")]),
            dir("node_modules", vec![file("dep.js")]),
        ]
    );
    assert_eq!(
        log,
        vec![removing("build"), removed("build"), excluded("node_modules")]
    );
}

#[test]
fn file_rule_scenario() {
    let entries = vec![file("a.tmp"), file("a.tmp.bak"), dir("dir.tmp", vec![])];
    let mut log = Vec::new();
    let kept = remove(
        entries,
        &Kind::File,
        &strings(&["tmp"]),
        &strings(&[]),
        false,
        &mut log,
    );
    assert_eq!(kept, vec![file("a.tmp.bak"), dir("dir.tmp", vec![])]);
    assert_eq!(log, vec![removing("a.tmp"), removed("a.tmp")]);
}

#[test]
fn file_rule_clears_matching_files() {
    let entries = vec![
        file("one.LOG"),
        file("two.log"),
        dir("keep", vec![file("three.log")]),
    ];
    let mut log = Vec::new();
    let kept = remove(
        entries,
        &Kind::File,
        &strings(&["log"]),
        &strings(&[]),
        false,
        &mut log,
    );
    // Only directories remain at this level; the subdirectory was descended
    // into and cleared too.
    assert_eq!(kept, vec![dir("keep", vec![])]);
    assert_eq!(
        log,
        vec![
            removing("one.LOG"),
            removed("one.LOG"),
            removing("two.log"),
            removed("two.log"),
            removing("three.log"),
            removed("three.log"),
        ]
    );
}

#[test]
fn second_run_removes_nothing() {
    let entries = vec![
        file("a.tmp"),
        dir("build", vec![file("b.tmp")]),
        dir("src", vec![file("c.tmp"), file("keep.rs")]),
    ];
    let patterns = strings(&["tmp"]);
    let exclude = strings(&["build"]);
    let mut log = Vec::new();
    let once = remove(entries, &Kind::File, &patterns, &exclude, false, &mut log);
    let expected_once = vec![
        dir("build", vec![file("b.tmp")]),
        dir("src", vec![file("keep.rs")]),
    ];
    assert_eq!(once, expected_once);
    let mut log2 = Vec::new();
    let twice = remove(once, &Kind::File, &patterns, &exclude, false, &mut log2);
    assert_eq!(twice, expected_once);
    // The second run reports exclusions alone: no intent, no removal.
    assert_eq!(log2, vec![excluded("build")]);
}

#[test]
fn dry_run_changes_nothing() {
    let entries = vec![
        file("a.tmp"),
        dir("build", vec![file("b.tmp")]),
        dir("node_modules", vec![]),
    ];
    let mut log = Vec::new();
    let kept = remove(
        entries,
        &Kind::File,
        &strings(&["tmp"]),
        &strings(&["node_modules"]),
        true,
        &mut log,
    );
    assert_eq!(
        kept,
        vec![
            file("a.tmp"),
            dir("build", vec![file("b.tmp")]),
            dir("node_modules", vec![]),
        ]
    );
    // Intent is reported; completion never is.
    assert_eq!(
        log,
        vec![removing("a.tmp"), removing("b.tmp"), excluded("node_modules")]
    );
}

#[test]
fn exclusion_beats_match() {
    // The entry's name is both a pattern and an exclusion: it stays, and is
    // not recursed into (no event mentions its child).
    let entries = vec![dir("build", vec![file("inner.tmp")])];
    let mut log = Vec::new();
    let kept = remove(
        entries,
        &Kind::Folder,
        &strings(&["build"]),
        &strings(&["BUILD"]),
        false,
        &mut log,
    );
    assert_eq!(kept, vec![dir("build", vec![file("inner.tmp")])]);
    assert_eq!(log, vec![excluded("build")]);
}

#[test]
fn kind_discrimination() {
    // A file rule never removes a directory whose name matches a pattern.
    let entries = vec![dir("tmp", vec![file("inner.rs")])];
    let mut log = Vec::new();
    let kept = remove(
        entries,
        &Kind::File,
        &strings(&["tmp"]),
        &strings(&[]),
        false,
        &mut log,
    );
    assert_eq!(kept, vec![dir("tmp", vec![file("inner.rs")])]);
    assert_eq!(log, vec![]);

    // A folder rule never removes a file whose extension matches a pattern.
    let entries = vec![file("note.build")];
    let mut log = Vec::new();
    let kept = remove(
        entries,
        &Kind::Folder,
        &strings(&["build"]),
        &strings(&[]),
        false,
        &mut log,
    );
    assert_eq!(kept, vec![file("note.build")]);
    assert_eq!(log, vec![]);
}

#[test]
fn matched_directory_is_opaque() {
    // target/ matches the folder rule; keep.txt inside would match a file
    // rule but is never separately evaluated.
    let entries = vec![dir("target", vec![file("keep.txt")])];
    let mut log = Vec::new();
    let kept = remove(
        entries,
        &Kind::Folder,
        &strings(&["target"]),
        &strings(&[]),
        false,
        &mut log,
    );
    assert_eq!(kept, vec![]);
    assert_eq!(log, vec![removing("target"), removed("target")]);
}

#[test]
fn match_is_case_insensitive() {
    // Fails if case folding handed its input back unchanged.
    let entries = vec![dir("Build", vec![]), file("NOTES.Tmp")];
    let mut log = Vec::new();
    let kept = remove(
        entries,
        &Kind::Folder,
        &strings(&["BUILD"]),
        &strings(&[]),
        false,
        &mut log,
    );
    assert_eq!(kept, vec![file("NOTES.Tmp")]);

    let entries = vec![file("NOTES.Tmp")];
    let mut log = Vec::new();
    let kept = remove(
        entries,
        &Kind::File,
        &strings(&["tMP"]),
        &strings(&[]),
        false,
        &mut log,
    );
    assert_eq!(kept, vec![]);
}

#[test]
fn execute_runs_each_rule_on_its_root() {
    let mut manager = Manager::new();
    manager.add(Config::new(
        String::from("/work/a"),
        Kind::Folder,
        strings(&["build"]),
        Some(strings(&["node_modules"])),
    ));
    manager.add(Config::new(
        String::from("/work/b"),
        Kind::File,
        strings(&["tmp"]),
        None,
    ));
    let mut roots = vec![
        dir("a", vec![dir("build", vec![file("x.o")]), dir("node_modules", vec![])]),
        dir("b", vec![file("junk.tmp"), file("keep.rs")]),
    ];
    let log = manager.execute(&mut roots);
    assert_eq!(
        roots,
        vec![
            dir("a", vec![dir("node_modules", vec![])]),
            dir("b", vec![file("keep.rs")]),
        ]
    );
    assert_eq!(
        log,
        vec![
            removing("build"),
            removed("build"),
            excluded("node_modules"),
            removing("junk.tmp"),
            removed("junk.tmp"),
        ]
    );
}

#[test]
fn empty_patterns_walk_but_remove_nothing() {
    let entries = vec![
        dir("a", vec![dir("b", vec![file("deep.tmp")])]),
        file("top.tmp"),
    ];
    let mut log = Vec::new();
    let kept = remove(
        entries,
        &Kind::File,
        &strings(&[]),
        &strings(&[]),
        false,
        &mut log,
    );
    assert_eq!(
        kept,
        vec![
            dir("a", vec![dir("b", vec![file("deep.tmp")])]),
            file("top.tmp"),
        ]
    );
    assert_eq!(log, vec![]);
}
