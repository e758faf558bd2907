use std::collections::HashMap;

use compose_locate::{
    base_filenames, first_match, holds, override_filenames, recurse_dir_name, render_path, Search,
    SearchDepth, Step,
};

type Fs = HashMap<Vec<String>, Vec<String>>;

fn path(s: &str) -> Vec<String> {
    s.split('/').filter(|c| !c.is_empty()).map(|c| c.to_string()).collect()
}

fn dir(fs: &mut Fs, at: &str, entries: &[&str]) {
    fs.insert(path(at), entries.iter().map(|e| e.to_string()).collect());
}

/// Runs a search against `fs`, returning what it found and every directory
/// it asked to list, in order.
fn run(fs: &Fs, start: &str, policy: SearchDepth, names: Vec<String>) -> (Option<String>, Vec<String>) {
    let mut search = Search::new(path(start), policy, names);
    let mut next = search.target();
    let mut listed = Vec::new();
    loop {
        listed.push(render_path(&next));
        match search.advance(fs.get(&next).cloned()) {
            Step::Scan(d) => next = d,
            Step::Found(p) => return (Some(render_path(&p)), listed),
            Step::Absent => return (None, listed),
        }
    }
}

#[test]
fn finds_base_file_two_levels_up() {
    let mut fs = Fs::new();
    dir(&mut fs, "/", &["proj"]);
    dir(&mut fs, "/proj", &["a", "docker-compose.yml", "README.md"]);
    dir(&mut fs, "/proj/a", &["b"]);
    dir(&mut fs, "/proj/a/b", &["main.rs"]);
    let (found, listed) = run(&fs, "/proj/a/b", SearchDepth::Unlimited, base_filenames());
    assert_eq!(found.as_deref(), Some("/proj/docker-compose.yml"));
    assert_eq!(listed, vec!["/proj/a/b", "/proj/a", "/proj"]);
}

#[test]
fn finds_file_in_recurse_subdirectory() {
    let mut fs = Fs::new();
    dir(&mut fs, "/proj/a", &["docker-compose", "src"]);
    dir(&mut fs, "/proj/a/docker-compose", &["docker-compose.yaml"]);
    let (found, _) = run(&fs, "/proj/a", SearchDepth::Unlimited, base_filenames());
    assert_eq!(found.as_deref(), Some("/proj/a/docker-compose/docker-compose.yaml"));
}

#[test]
fn single_match_found_from_any_depth_below() {
    let mut fs = Fs::new();
    dir(&mut fs, "/w", &["docker-compose.yaml", "x"]);
    for start in ["/w", "/w/x", "/w/x/y", "/w/x/y/z/q"] {
        let (found, _) = run(&fs, start, SearchDepth::Unlimited, base_filenames());
        assert_eq!(found.as_deref(), Some("/w/docker-compose.yaml"));
    }
}

#[test]
fn nothing_anywhere_is_absent_after_reaching_root() {
    let mut fs = Fs::new();
    dir(&mut fs, "/", &["home"]);
    dir(&mut fs, "/home", &["u"]);
    dir(&mut fs, "/home/u", &["notes.txt"]);
    let (found, listed) = run(&fs, "/home/u", SearchDepth::Unlimited, base_filenames());
    assert_eq!(found, None);
    assert_eq!(listed, vec!["/home/u", "/home", "/"]);
}

#[test]
fn unlimited_search_inspects_the_root() {
    let mut fs = Fs::new();
    dir(&mut fs, "/", &["docker-compose.yml"]);
    let (found, _) = run(&fs, "/a/b/c", SearchDepth::Unlimited, base_filenames());
    assert_eq!(found.as_deref(), Some("/docker-compose.yml"));
}

#[test]
fn limited_search_stops_after_n_steps() {
    let mut fs = Fs::new();
    dir(&mut fs, "/p", &["docker-compose.yml"]);
    let (found, listed) = run(&fs, "/p/a/b", SearchDepth::Limited(2), base_filenames());
    assert_eq!(found, None);
    assert_eq!(listed, vec!["/p/a/b", "/p/a"]);
    let (found, _) = run(&fs, "/p/a/b", SearchDepth::Limited(3), base_filenames());
    assert_eq!(found.as_deref(), Some("/p/docker-compose.yml"));
}

#[test]
fn limited_zero_and_one_scan_only_the_start() {
    let mut fs = Fs::new();
    dir(&mut fs, "/p", &["docker-compose.yml"]);
    for n in [0, 1] {
        let (found, listed) = run(&fs, "/p/a", SearchDepth::Limited(n), base_filenames());
        assert_eq!(found, None);
        assert_eq!(listed, vec!["/p/a"]);
    }
}

#[test]
fn recognized_names_order_breaks_ties() {
    let mut fs = Fs::new();
    dir(&mut fs, "/p", &["docker-compose.yaml", "docker-compose.yml"]);
    let (found, _) = run(&fs, "/p", SearchDepth::Unlimited, base_filenames());
    assert_eq!(found.as_deref(), Some("/p/docker-compose.yml"));
}

#[test]
fn direct_match_wins_over_subdirectory() {
    let mut fs = Fs::new();
    dir(&mut fs, "/p", &["docker-compose", "docker-compose.yaml"]);
    dir(&mut fs, "/p/docker-compose", &["docker-compose.yml"]);
    let (found, listed) = run(&fs, "/p", SearchDepth::Unlimited, base_filenames());
    assert_eq!(found.as_deref(), Some("/p/docker-compose.yaml"));
    assert_eq!(listed, vec!["/p"]);
}

#[test]
fn unreadable_directory_does_not_stop_the_walk() {
    let mut fs = Fs::new();
    dir(&mut fs, "/p", &["docker-compose.yml"]);
    dir(&mut fs, "/p/a/b", &[]);
    let (found, listed) = run(&fs, "/p/a/b", SearchDepth::Unlimited, base_filenames());
    assert_eq!(found.as_deref(), Some("/p/docker-compose.yml"));
    assert_eq!(listed, vec!["/p/a/b", "/p/a", "/p"]);
}

#[test]
fn empty_recurse_subdirectory_continues_upward() {
    let mut fs = Fs::new();
    dir(&mut fs, "/p", &["docker-compose.yml", "a"]);
    dir(&mut fs, "/p/a", &["docker-compose"]);
    dir(&mut fs, "/p/a/docker-compose", &["readme"]);
    let (found, listed) = run(&fs, "/p/a", SearchDepth::Unlimited, base_filenames());
    assert_eq!(found.as_deref(), Some("/p/docker-compose.yml"));
    assert_eq!(listed, vec!["/p/a", "/p/a/docker-compose", "/p"]);
}

#[test]
fn recurse_subdirectory_that_is_a_file_is_skipped() {
    let mut fs = Fs::new();
    dir(&mut fs, "/p", &["docker-compose.yml", "a"]);
    dir(&mut fs, "/p/a", &["docker-compose"]);
    let (found, _) = run(&fs, "/p/a", SearchDepth::Unlimited, base_filenames());
    assert_eq!(found.as_deref(), Some("/p/docker-compose.yml"));
}

#[test]
fn nested_recurse_subdirectories_are_followed() {
    let mut fs = Fs::new();
    dir(&mut fs, "/p", &["docker-compose"]);
    dir(&mut fs, "/p/docker-compose", &["docker-compose"]);
    dir(&mut fs, "/p/docker-compose/docker-compose", &["docker-compose.yml"]);
    let (found, _) = run(&fs, "/p", SearchDepth::Unlimited, base_filenames());
    assert_eq!(
        found.as_deref(),
        Some("/p/docker-compose/docker-compose/docker-compose.yml")
    );
}

#[test]
fn recurse_subdirectory_of_an_ancestor_is_searched() {
    let mut fs = Fs::new();
    dir(&mut fs, "/p", &["docker-compose", "a"]);
    dir(&mut fs, "/p/docker-compose", &["docker-compose.override.yaml"]);
    let (found, _) = run(&fs, "/p/a", SearchDepth::Unlimited, override_filenames());
    assert_eq!(
        found.as_deref(),
        Some("/p/docker-compose/docker-compose.override.yaml")
    );
}

#[test]
fn override_search_ignores_base_names() {
    let mut fs = Fs::new();
    dir(&mut fs, "/p", &["docker-compose.yml"]);
    let (found, _) = run(&fs, "/p", SearchDepth::Unlimited, override_filenames());
    assert_eq!(found, None);
}

#[test]
fn name_sets_are_fixed() {
    assert_eq!(base_filenames(), vec!["docker-compose.yml", "docker-compose.yaml"]);
    assert_eq!(
        override_filenames(),
        vec!["docker-compose.override.yml", "docker-compose.override.yaml"]
    );
    assert_eq!(recurse_dir_name(), "docker-compose");
}

#[test]
fn listing_lookup() {
    let listing = vec!["b".to_string(), "docker-compose.yaml".to_string()];
    assert!(holds(&listing, &"b".to_string()));
    assert!(!holds(&listing, &"c".to_string()));
    assert!(!holds(&Vec::new(), &"b".to_string()));
    assert_eq!(first_match(&base_filenames(), &listing).as_deref(), Some("docker-compose.yaml"));
    assert_eq!(first_match(&override_filenames(), &listing), None);
}

#[test]
fn depth_limits() {
    assert!(!SearchDepth::Unlimited.is_exceeded(usize::MAX));
    assert!(SearchDepth::Limited(1).is_exceeded(1));
    assert!(!SearchDepth::Limited(2).is_exceeded(1));
    assert!(SearchDepth::Limited(0).is_exceeded(0));
}
