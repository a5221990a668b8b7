//! The traversal engines over synthetic directory trees: aggregation,
//! depth-collapse, filtering, sorting, the parallel plan, and cleanup.

use liboskar::clean_project_dirs;
use liboskar::print_dir;
use liboskar::push_subdir;
use liboskar::read_all;
use liboskar::read_all_fast;
use liboskar::read_no_excludes;
use liboskar::read_size;
use liboskar::FileSize;
use liboskar::FileTree;
use liboskar::FsDir;
use liboskar::FsEntry;
use liboskar::FsFile;
use liboskar::Status;
use liboskar::Walk;

fn plain_file(name: &str, len: u64) -> FsEntry {
    FsEntry::File(FsFile { name: name.to_string(), len, blocks: 0, mode: 0o644, text: None })
}

fn sparse_file(name: &str, len: u64, blocks: u64) -> FsEntry {
    FsEntry::File(FsFile { name: name.to_string(), len, blocks, mode: 0o644, text: None })
}

fn exec_file(name: &str, len: u64) -> FsEntry {
    FsEntry::File(FsFile { name: name.to_string(), len, blocks: 0, mode: 0o755, text: None })
}

fn text_file(name: &str, text: &str) -> FsEntry {
    FsEntry::File(FsFile {
        name: name.to_string(),
        len: text.len() as u64,
        blocks: 0,
        mode: 0o644,
        text: Some(text.to_string()),
    })
}

fn subdir(name: &str, entries: Vec<FsEntry>) -> FsEntry {
    FsEntry::Dir(FsDir { name: name.to_string(), entries })
}

/// root with file a=100 B, file b=2,000,000 B, and sub/ holding c=50 B
fn scenario_tree() -> FsDir {
    FsDir {
        name: ".".to_string(),
        entries: vec![
            plain_file("a", 100),
            plain_file("b", 2_000_000),
            subdir("sub", vec![plain_file("c", 50)]),
        ],
    }
}

#[test]
fn aggregation_totals() {
    let root = scenario_tree();
    assert_eq!(2_000_150, read_no_excludes(&root, None, &None, false).get());
    assert_eq!(2_000_150, read_size(".", &root, None, &None, false, false).get());
    let t = read_all(".", &root, 0, None, None, &None, false, false);
    assert_eq!(2_000_150, t.file_size.get());
    // every file and directory appears once, with its own subtree total
    assert_eq!(4, t.files.len());
    assert_eq!("./sub/c", t.files[2].name);
    assert_eq!(50, t.files[2].bytes.get());
    assert_eq!("./sub", t.files[3].name);
    assert_eq!(50, t.files[3].bytes.get());
}

#[test]
fn depth_collapse_preserves_totals() {
    let root = FsDir {
        name: "r".to_string(),
        entries: vec![
            plain_file("top", 7),
            subdir(
                "one",
                vec![plain_file("x", 10), subdir("two", vec![plain_file("y", 20)])],
            ),
        ],
    };
    let full = read_all("r", &root, 0, None, None, &None, false, false);
    let limited = read_all("r", &root, 0, Some(1), None, &None, false, false);
    let fast_full = read_all_fast("r", &root, 0, None);
    let fast_limited = read_all_fast("r", &root, 0, Some(1));
    assert_eq!(37, full.file_size.get());
    assert_eq!(37, limited.file_size.get());
    assert_eq!(37, fast_full.file_size.get());
    assert_eq!(37, fast_limited.file_size.get());
    // the limited run collapses `one` to a single sized entry
    assert_eq!(2, limited.files.len());
    assert_eq!("r/one", limited.files[1].name);
    assert_eq!(30, limited.files[1].bytes.get());
}

#[test]
fn scenario_threshold_depth_one() {
    let root = scenario_tree();
    let t = read_all(".", &root, 0, Some(1), None, &None, false, false);
    let shown = t.filtered(Some(1_000_000), false, Some(1));
    // kept entries: only b; the grand total line survives the threshold
    assert_eq!(2_000_150, shown.file_size.get());
    assert_eq!(1, shown.files.len());
    assert_eq!("./b", shown.files[0].name);
    assert_eq!(2_000_000, shown.files[0].bytes.get());
}

#[test]
fn filter_is_monotone_in_threshold() {
    let root = scenario_tree();
    let lo = read_all(".", &root, 0, None, None, &None, false, false).filtered(
        Some(40),
        false,
        None,
    );
    let hi = read_all(".", &root, 0, None, None, &None, false, false).filtered(
        Some(120),
        false,
        None,
    );
    for kept in hi.files.iter() {
        assert!(kept.bytes.get() > 120);
        assert!(lo.files.iter().any(|e| e.name == kept.name));
    }
    assert!(hi.files.len() <= lo.files.len());
}

#[test]
fn filter_dirs_only_and_total_suppression() {
    let root = scenario_tree();
    let t = read_all(".", &root, 0, None, None, &None, false, false);
    let dirs = t.filtered(Some(10), true, None);
    assert_eq!(1, dirs.files.len());
    assert_eq!("./sub", dirs.files[0].name);
    // a whole tree below the threshold reports a zero total
    let small = FsDir { name: "s".to_string(), entries: vec![plain_file("tiny", 3)] };
    let suppressed = read_all("s", &small, 0, None, None, &None, false, false).filtered(
        Some(1_000),
        false,
        None,
    );
    assert_eq!(0, suppressed.file_size.get());
    assert_eq!(0, suppressed.files.len());
}

#[test]
fn sort_ascending_without_count() {
    let root = scenario_tree();
    let t = read_all(".", &root, 0, None, None, &None, false, false);
    let sorted = t.sort(None, None, false, None);
    assert_eq!(4, sorted.files.len());
    for w in sorted.files.windows(2) {
        assert!(w[0].bytes.get() <= w[1].bytes.get());
    }
}

#[test]
fn sort_is_stable_among_equal_sizes() {
    let mut t = FileTree::new();
    t.push("first".to_string(), FileSize::new(10), None, 1, false);
    t.push("mid".to_string(), FileSize::new(5), None, 1, false);
    t.push("second".to_string(), FileSize::new(10), None, 1, false);
    t.push("third".to_string(), FileSize::new(10), None, 1, false);
    let asc = t.sort(None, None, false, None);
    assert_eq!(
        vec!["mid", "first", "second", "third"],
        asc.files.iter().map(|e| e.name.as_str()).collect::<Vec<_>>()
    );
    let mut t2 = FileTree::new();
    t2.push("first".to_string(), FileSize::new(10), None, 1, false);
    t2.push("big".to_string(), FileSize::new(99), None, 1, false);
    t2.push("second".to_string(), FileSize::new(10), None, 1, false);
    let desc = t2.sort(Some(10), None, false, None);
    assert_eq!(
        vec!["big", "first", "second"],
        desc.files.iter().map(|e| e.name.as_str()).collect::<Vec<_>>()
    );
}

#[test]
fn sort_top_k_keeps_the_largest() {
    let root = scenario_tree();
    let t = read_all(".", &root, 0, None, None, &None, false, false);
    let top = t.sort(Some(2), None, false, None);
    assert_eq!(2, top.files.len());
    assert_eq!(2_000_000, top.files[0].bytes.get());
    assert_eq!(100, top.files[1].bytes.get());
}

#[test]
fn artifact_mode_counts_artifacts_only() {
    let root = FsDir {
        name: "p".to_string(),
        entries: vec![
            text_file(".gitignore", "*.out\n"),
            plain_file("lib.o", 11),
            exec_file("run.out", 23),
            plain_file("plain.out", 37),
            plain_file("src.rs", 41),
        ],
    };
    // lib.o by suffix; run.out is executable and ignore-matched; plain.out
    // lacks the bit but its secondary suffix and the ignore match suffice;
    // src.rs is source and stays
    let total = read_size("p", &root, None, &None, false, true).get();
    assert_eq!(71, total);
}

#[test]
fn project_directory_collapses_whole() {
    let root = FsDir {
        name: "p".to_string(),
        entries: vec![
            plain_file("Cargo.toml", 5),
            subdir("target", vec![plain_file("big.bin", 1000), plain_file("dep.rs", 9)]),
        ],
    };
    // in artifact mode the confirmed target directory counts whole,
    // classification disabled beneath it; Cargo.toml itself is no artifact
    let total = read_size("p", &root, None, &None, false, true).get();
    assert_eq!(1009, total);
}

#[test]
fn parallel_plan_matches_sequential_total() {
    let root = FsDir {
        name: "root".to_string(),
        entries: vec![
            plain_file("top", 11),
            subdir("alpha", vec![plain_file("x", 100), subdir("deep", vec![plain_file("y", 7)])]),
            subdir("beta", vec![plain_file("z", 200)]),
        ],
    };
    for nproc in [1usize, 2, 5] {
        let w = Walk::new("root".to_string(), nproc);
        let (units, files_total) = push_subdir(&w, &root);
        let mut sum = files_total.get();
        let mut data = 0;
        let mut done = 0;
        for unit in units.iter() {
            match unit {
                Status::Done => done += 1,
                Status::Data(uw) => {
                    let sub = match data {
                        0 => &root.entries[1],
                        _ => &root.entries[2],
                    };
                    let sub = match sub {
                        FsEntry::Dir(d) => d,
                        _ => panic!("expected a directory"),
                    };
                    let (added, _listing) = print_dir(uw, sub);
                    sum += added.get();
                    data += 1;
                },
            }
        }
        assert_eq!(2, data);
        assert_eq!(nproc, done);
        let sequential = read_all("root", &root, 0, None, None, &None, false, false);
        assert_eq!(sequential.file_size.get(), sum);
        assert_eq!(318, sum);
    }
}

#[test]
fn print_dir_respects_threshold_and_zero_depth() {
    let sub = FsDir { name: "alpha".to_string(), entries: vec![plain_file("x", 100)] };
    let mut w = Walk::new("root/alpha".to_string(), 1);
    w.set_threshold(1_000);
    let (added, listing) = print_dir(&w, &sub);
    assert_eq!(100, added.get());
    assert!(listing.is_none());

    let mut w2 = Walk::new("root/alpha".to_string(), 1);
    w2.set_depth(0);
    let (added2, listing2) = print_dir(&w2, &sub);
    assert_eq!(100, added2.get());
    assert!(listing2.is_none());

    let mut w3 = Walk::new("root/alpha".to_string(), 1);
    w3.with_files();
    let (added3, listing3) = print_dir(&w3, &sub);
    assert_eq!(100, added3.get());
    let shown = listing3.unwrap();
    assert_eq!(1, shown.files.len());
    assert_eq!("root/alpha/x", shown.files[0].name);
}

#[test]
fn cleanup_deletes_outputs_and_spares_sources() {
    let root = FsDir {
        name: "work".to_string(),
        entries: vec![
            plain_file("lib.o", 10),
            plain_file("keep.rs", 20),
            plain_file("Cargo.toml", 5),
            subdir("target", vec![plain_file("big.bin", 1000)]),
            subdir(".git", vec![plain_file("config.o", 1)]),
            subdir("docs", vec![plain_file("paper.tex", 9), plain_file("paper.log", 2)]),
        ],
    };
    let deleted = clean_project_dirs(&root, "work", &Vec::new(), None);
    assert!(deleted.contains(&"work/lib.o".to_string()));
    assert!(deleted.contains(&"work/target".to_string()));
    assert!(deleted.contains(&"work/docs/paper.log".to_string()));
    assert!(!deleted.iter().any(|p| p.contains(".git")));
    assert!(!deleted.contains(&"work/keep.rs".to_string()));
    assert!(!deleted.contains(&"work/Cargo.toml".to_string()));
    assert!(!deleted.contains(&"work/docs/paper.tex".to_string()));
    assert_eq!(3, deleted.len());
}

#[test]
fn cleanup_exclusion_guard_prevents_deletion() {
    let root = FsDir {
        name: "work".to_string(),
        entries: vec![plain_file("lib.o", 10), plain_file("other.o", 10)],
    };
    let guard = liboskar::check_regex("lib").unwrap();
    let deleted = clean_project_dirs(&root, "work", &Vec::new(), Some(&guard));
    assert_eq!(vec!["work/other.o".to_string()], deleted);
}

#[test]
fn ignore_context_resolution_order() {
    let dir = FsDir {
        name: "p".to_string(),
        entries: vec![
            text_file(".gitignore", "*.out\n"),
            text_file(".ignore", "*.conf\n"),
            exec_file("x.out", 3),
            exec_file("y.conf", 5),
        ],
    };
    // .ignore wins over .gitignore, so only the .conf file is an artifact
    let total = liboskar::read_size("p", &dir, None, &None, false, true).get();
    assert_eq!(5, total);
}

#[test]
fn excludes_prune_files_and_directories() {
    let root = FsDir {
        name: "r".to_string(),
        entries: vec![
            plain_file("keep.rs", 10),
            plain_file("skip.tmp", 100),
            subdir("skipdir", vec![plain_file("inner", 1000)]),
        ],
    };
    let ex = liboskar::check_regex(r"(\.tmp$|skipdir)").unwrap();
    let t = read_all("r", &root, 0, None, Some(&ex), &None, false, false);
    assert_eq!(10, t.file_size.get());
    assert_eq!(1, t.files.len());
    assert_eq!("r/keep.rs", t.files[0].name);
}

#[test]
fn parallel_plan_carries_the_exclusion_regex() {
    let root = FsDir {
        name: "r".to_string(),
        entries: vec![
            plain_file("skip.tmp", 100),
            subdir("alpha", vec![plain_file("x", 7), plain_file("y.tmp", 900)]),
        ],
    };
    let mut w = Walk::new("r".to_string(), 1);
    w.set_regex(liboskar::check_regex(r"\.tmp$").unwrap());
    let (units, files_total) = push_subdir(&w, &root);
    // the excluded immediate file contributes nothing
    assert_eq!(0, files_total.get());
    let mut sum = files_total.get();
    for unit in units.iter() {
        if let Status::Data(uw) = unit {
            let sub = match &root.entries[1] {
                FsEntry::Dir(d) => d,
                _ => unreachable!(),
            };
            let (added, _) = print_dir(uw, sub);
            sum += added.get();
        }
    }
    // the unit inherits the regex, so the nested .tmp file is pruned too
    assert_eq!(7, sum);
    let sequential = read_all("r", &root, 0, None, Some(&w.excludes.clone().unwrap()), &None, false, false);
    assert_eq!(sequential.file_size.get(), sum);
}

#[test]
fn ignore_context_is_inherited_by_subdirectories() {
    let root = FsDir {
        name: "p".to_string(),
        entries: vec![
            text_file(".gitignore", "*.out\n"),
            subdir("inner", vec![exec_file("gen.out", 13), plain_file("src.rs", 17)]),
        ],
    };
    // `inner` has no ignore file of its own; the parent's context carries
    // down, so its executable .out file is classified reclaimable
    let total = read_size("p", &root, None, &None, false, true).get();
    assert_eq!(13, total);
}

#[test]
fn size_selects_blocks_or_length() {
    assert_eq!(42, liboskar::size(42, 9, false));
    assert_eq!(4608, liboskar::size(42, 9, true));
}

#[test]
fn tree_push_merges_subtrees() {
    let mut parent = FileTree::new();
    parent.push("a".to_string(), FileSize::new(5), None, 1, false);
    let mut child = FileTree::new();
    child.push("sub/f".to_string(), FileSize::new(10), None, 2, false);
    let child_size = child.file_size;
    parent.push("sub".to_string(), child_size, Some(child), 1, true);
    assert_eq!(15, parent.file_size.get());
    assert_eq!(3, parent.files.len());
    assert_eq!("a", parent.files[0].name);
    assert_eq!("sub/f", parent.files[1].name);
    assert_eq!("sub", parent.files[2].name);
}

#[test]
fn parallel_units_inherit_the_artifact_flag() {
    let root = FsDir {
        name: "r".to_string(),
        entries: vec![subdir("alpha", vec![plain_file("x.o", 10), plain_file("src.rs", 90)])],
    };
    let mut w = Walk::new("r".to_string(), 1);
    w.artifacts_only();
    let (units, files_total) = push_subdir(&w, &root);
    assert_eq!(0, files_total.get());
    let mut added_total = 0u64;
    for unit in units.iter() {
        if let Status::Data(uw) = unit {
            assert!(uw.artifacts_only);
            let sub = match &root.entries[0] {
                FsEntry::Dir(d) => d,
                _ => unreachable!(),
            };
            let (added, _) = print_dir(uw, sub);
            added_total += added.get();
        }
    }
    // the unit classifies below the first level: only the object file counts
    assert_eq!(10, added_total);
}

#[test]
fn blocks_accounting_scales_root_files() {
    let root = FsDir {
        name: "r".to_string(),
        entries: vec![sparse_file("sparse.bin", 1_000_000, 8)],
    };
    let plain = Walk::new("r".to_string(), 1);
    let (_, by_length) = push_subdir(&plain, &root);
    assert_eq!(1_000_000, by_length.get());
    let mut blocky = Walk::new("r".to_string(), 1);
    blocky.blocks();
    let (units, by_blocks) = push_subdir(&blocky, &root);
    assert_eq!(8 * 512, by_blocks.get());
    assert!(units.iter().all(|u| matches!(u, Status::Done)));
}

#[test]
fn cleanup_deletes_a_project_directory_root_whole() {
    let target = FsDir {
        name: "target".to_string(),
        entries: vec![plain_file("big.bin", 10), plain_file("notes.txt", 5)],
    };
    let manifest = FsEntry::File(FsFile {
        name: "Cargo.toml".to_string(),
        len: 1,
        blocks: 0,
        mode: 0o644,
        text: None,
    });
    let siblings = vec![manifest];
    let deleted = clean_project_dirs(&target, "proj/target", &siblings, None);
    assert_eq!(vec!["proj/target".to_string()], deleted);
    // without the confirming manifest beside it, only the contents match
    let deleted2 = clean_project_dirs(&target, "proj/target", &Vec::new(), None);
    assert_eq!(Vec::<String>::new(), deleted2);
}
