//! The per-file artifact classifier and the project-directory classifier.

use liboskar::file_contents_to_regex;
use liboskar::glob_exists;
use liboskar::is_artifact;
use liboskar::is_executable;
use liboskar::is_project_dir;
use liboskar::match_extension;
use liboskar::ArtifactType;
use liboskar::FsDir;
use liboskar::FsEntry;
use liboskar::FsFile;

fn file(name: &str) -> FsEntry {
    FsEntry::File(FsFile { name: name.to_string(), len: 1, blocks: 0, mode: 0o644, text: None })
}

fn dir(name: &str) -> FsEntry {
    FsEntry::Dir(FsDir { name: name.to_string(), entries: Vec::new() })
}

#[test]
fn executable_bits() {
    assert!(is_executable(0o755));
    assert!(is_executable(0o100));
    assert!(is_executable(0o010));
    assert!(is_executable(0o001));
    assert!(!is_executable(0o644));
    assert!(!is_executable(0o000));
}

#[test]
fn known_suffix_is_artifact_in_any_context() {
    assert!(is_artifact("x.o", "p/x.o", 0o644, false, &None));
    assert!(is_artifact("x.rlib", "p/x.rlib", 0o644, false, &None));
    assert!(is_artifact("x.hi", "p/x.hi", 0o644, false, &None));
    assert!(is_artifact("x.pyc", "p/x.pyc", 0o644, false, &None));
    assert!(is_artifact("lib.so.1", "p/lib.so.1", 0o644, false, &None));
    assert!(is_artifact("x.dump-simpl", "p/x.dump-simpl", 0o644, false, &None));
    let ig = Some(file_contents_to_regex("*.txt\n"));
    assert!(is_artifact("x.o", "p/x.o", 0o644, false, &ig));
}

#[test]
fn vim_tags_only_when_asked() {
    assert!(is_artifact("tags", "p/tags", 0o644, true, &None));
    assert!(!is_artifact("tags", "p/tags", 0o644, false, &None));
}

#[test]
fn statistics_file_without_context() {
    assert!(is_artifact("flxg_stats.txt", "p/flxg_stats.txt", 0o644, false, &None));
    assert!(!is_artifact("other_stats.txt", "p/other_stats.txt", 0o644, false, &None));
}

#[test]
fn classifier_conjunction() {
    let ig = Some(file_contents_to_regex("*.out\n"));
    // executable, secondary suffix, and ignore-matched: an artifact
    assert!(is_artifact("run.out", "proj/run.out", 0o755, false, &ig));
    // the secondary suffix with an ignore match suffices without the bit
    assert!(is_artifact("run.out", "proj/run.out", 0o644, false, &ig));
    // so does the executable bit with an ignore match, without a suffix
    let ig_all = Some(file_contents_to_regex("*\n"));
    assert!(is_artifact("runner", "proj/runner", 0o755, false, &ig_all));
    // an ignore match alone — no bit, no suffix — never classifies
    assert!(!is_artifact("notes.txt", "proj/notes.txt", 0o644, false, &ig_all));
    // a generated look without the ignore match never classifies either
    let ig_miss = Some(file_contents_to_regex("*.log\n"));
    assert!(!is_artifact("run.out", "proj/run.out", 0o755, false, &ig_miss));
    assert!(!is_artifact("run.out", "proj/run.out", 0o644, false, &ig_miss));
    // nothing at all
    assert!(!is_artifact("notes.txt", "proj/notes.txt", 0o644, false, &None));
}

#[test]
fn extension_classification() {
    assert!(matches!(match_extension("x.hi", "p/x.hi"), ArtifactType::Haskell));
    assert!(matches!(match_extension("x.prof", "p/x.prof"), ArtifactType::Haskell));
    assert!(matches!(match_extension("x.ibc", "p/x.ibc"), ArtifactType::Idris));
    assert!(matches!(match_extension("a.stack-work.meta", "p/x"), ArtifactType::Haskell));
    assert!(matches!(match_extension("notes.txt", "p/notes.txt"), ArtifactType::Unknown));
}

#[test]
fn project_dir_needs_confirmation() {
    let with_cargo = vec![file("Cargo.toml"), dir("target")];
    assert!(is_project_dir(&with_cargo, "target"));
    let without = vec![file("README.md"), dir("target")];
    assert!(!is_project_dir(&without, "target"));
}

#[test]
fn project_dir_rules() {
    assert!(is_project_dir(&Vec::new(), "node_modules"));
    let hs = vec![file("pkg.cabal")];
    assert!(is_project_dir(&hs, ".stack-work"));
    assert!(is_project_dir(&hs, "dist"));
    assert!(is_project_dir(&hs, "dist-newstyle"));
    let elm = vec![file("elm-package.json")];
    assert!(is_project_dir(&elm, "elm-stuff"));
    let py = vec![file("setup.py")];
    assert!(is_project_dir(&py, "pkg.egg-info"));
    assert!(is_project_dir(&py, "build"));
    // "nimcache" has a confirmation rule but is absent from the name
    // table, so it is never classified
    let nim = vec![file("main.nim")];
    assert!(!is_project_dir(&nim, "nimcache"));
    // a name that only ends like a table name falls through unconfirmed
    let cargo = vec![file("Cargo.toml")];
    assert!(!is_project_dir(&cargo, "mytarget"));
    // no table match at all
    assert!(!is_project_dir(&cargo, "src"));
}

#[test]
fn sibling_glob_probe() {
    let sibs = vec![file("paper.tex"), file("notes.md")];
    assert!(glob_exists(&sibs, ".tex"));
    assert!(!glob_exists(&sibs, ".cabal"));
}
