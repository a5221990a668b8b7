//! The ignore-pattern compiler: glob translation, literal patterns, the
//! darcs dialect, and graceful degradation on malformed input.

use liboskar::darcs_contents_to_regex;
use liboskar::file_contents_to_regex;
use liboskar::check_regex;
use liboskar::get_excludes;

#[test]
fn cabal_regex_ignore() {
    let file_contents = "dist\ndist-*\ncabal-dev\n*.o\n*.hi\n*.chi\n*.chs.h\n.cabal-sandbox/\ncabal.sandbox.config\n";
    let _ = file_contents_to_regex(file_contents);
}

#[test]
fn bug_regex_ignore() {
    let file_contents = "# cache files\n*.aux\n*.out\n\n_site/\n";
    let reg = file_contents_to_regex(file_contents);
    let _ = reg.len();
}

#[test]
fn glob_star_translation() {
    let set = file_contents_to_regex("*.log\n");
    assert!(set.is_match("a.log"));
    assert!(set.is_match("dir/b.log"));
    assert!(!set.is_match("a.logx"));
}

#[test]
fn question_mark_translation() {
    let set = file_contents_to_regex("?.o\n");
    assert!(set.is_match("a.o"));
    assert!(!set.is_match("a.c"));
}

#[test]
fn literal_pattern_matches_only_that_ending() {
    let set = file_contents_to_regex("mylit\n");
    assert!(set.is_match("mylit"));
    assert!(set.is_match("path/mylit"));
    assert!(!set.is_match("mylitx"));
}

#[test]
fn leading_comment_line_is_stripped() {
    let set = file_contents_to_regex("# build outputs\n*.o\n");
    assert!(set.is_match("x.o"));
    assert!(!set.is_match("build"));
}

#[test]
fn malformed_input_yields_empty_set() {
    // an unbalanced group does not compile; the result matches nothing
    let set = file_contents_to_regex("(\n");
    assert_eq!(0, set.len());
    assert!(!set.is_match("("));
    assert!(!set.is_match("anything"));
}

#[test]
fn negation_is_not_supported() {
    // the `!` prefix is compiled literally, not as a negation
    let set = file_contents_to_regex("!keep.log\n");
    assert!(set.is_match("!keep.log"));
    assert!(!set.is_match("keep.log"));
}

#[test]
fn darcs_lines_are_literal_patterns() {
    let set = darcs_contents_to_regex("\\.o$\n^_build\n");
    assert!(set.is_match("x.o"));
    assert!(!set.is_match("x_o"));
    assert!(set.is_match("_build/out"));
}

#[test]
fn darcs_underscore_escape() {
    let set = darcs_contents_to_regex("\\_site\n");
    assert!(set.is_match("_site"));
}

#[test]
fn check_regex_accepts_and_rejects() {
    let ok = check_regex(r"\.git$").unwrap();
    assert!(ok.is_match("repo/.git"));
    assert!(!ok.is_match("repo/git"));
    assert!(check_regex("(unclosed").is_none());
}

#[test]
fn excludes_default_and_wrapped() {
    let default = get_excludes(None).unwrap();
    assert!(default.is_match("work/.git"));
    assert!(default.is_match("work/_darcs"));
    assert!(!default.is_match("work/src"));

    let wrapped = get_excludes(Some("node_modules")).unwrap();
    assert!(wrapped.is_match("a/node_modules/b"));
    assert!(wrapped.is_match("work/.hg"));
    assert!(!wrapped.is_match("work/src"));

    assert!(get_excludes(Some("(broken")).is_none());
}

#[test]
fn embedded_comment_lines_are_dropped() {
    let set = file_contents_to_regex("a\n#comment\nb\n");
    assert_eq!(2, set.len());
    assert!(set.is_match("xa"));
    assert!(set.is_match("xb"));
    assert!(!set.is_match("#comment"));
    // a comment that ends the file is dropped as well
    let tail = file_contents_to_regex("a\n#tail");
    assert_eq!(1, tail.len());
    assert!(tail.is_match("xa"));
}

#[test]
fn mid_line_hash_swallows_the_rest_of_the_line() {
    let set = file_contents_to_regex("foo#bar\n");
    assert_eq!(1, set.len());
    assert!(set.is_match("xfoo#"));
    assert!(!set.is_match("foo#bar"));
}

#[test]
fn darcs_comment_lines_are_dropped() {
    let set = darcs_contents_to_regex("core\n#note\n");
    assert_eq!(1, set.len());
    assert!(set.is_match("core.0"));
    assert!(!set.is_match("#note"));
}

#[test]
fn recognizers_flag_malformed_ignore_files() {
    assert!(liboskar::gitignore_recognized("*.log\n"));
    // the regex engine rejects the unbalanced group
    assert!(!liboskar::gitignore_recognized("(\n"));
    // the translator rejects an unterminated leading comment
    assert!(!liboskar::gitignore_recognized("#unterminated"));
    assert!(liboskar::darcs_recognized("core\n"));
    // a trailing bare backslash is rejected by the translator
    assert!(!liboskar::darcs_recognized("\\"));
    // an unclosed character class is rejected by the regex engine
    assert!(!liboskar::darcs_recognized("[\n"));
}
