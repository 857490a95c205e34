use prustbowo::subst::{find_from, replace_all};
use prustbowo::tree::{crate_ident, instantiate_project, TemplateEntry};

fn cv(s: &str) -> Vec<char> {
    s.chars().collect()
}

fn sv(v: &[char]) -> String {
    v.iter().collect()
}

#[test]
fn replace_matches_std_replace() {
    let cases = [
        ("hello __NAME__ and __NAME__!", "__NAME__", "world"),
        ("__NAME__ at the start", "__NAME__", "x"),
        ("at the end __NAME__", "__NAME__", "x"),
        ("no token here", "__NAME__", "x"),
        ("", "__NAME__", "x"),
        ("aaa", "aa", "ba"),
        ("aaaa", "aa", "b"),
        ("abcabcabc", "abc", ""),
        ("overlap aabb", "ab", "ab"),
    ];
    for (hay, pat, val) in cases {
        let got = sv(&replace_all(&cv(hay), &cv(pat), &cv(val)));
        assert_eq!(got, hay.replace(pat, val), "case {hay:?} {pat:?} {val:?}");
    }
}

#[test]
fn substitution_removes_token() {
    let content = "crate __PROJECT_NAME__, dir __PROJECT_NAME__/src, end __PROJECT_NAME__";
    let out = sv(&replace_all(&cv(content), &cv("__PROJECT_NAME__"), &cv("my-app")));
    assert!(!out.contains("__PROJECT_NAME__"));
    assert_eq!(out, "crate my-app, dir my-app/src, end my-app");
}

#[test]
fn substitution_boundary_edge_case() {
    // A value whose tail completes the token across a replacement
    // boundary recreates the token: the documented sharp edge.
    let out = sv(&replace_all(&cv("aaa"), &cv("aa"), &cv("ba")));
    assert_eq!(out, "baa");
    assert!(out.contains("aa"));
}

#[test]
fn absent_token_leaves_content_unchanged() {
    let content = "nothing to see here";
    let out = sv(&replace_all(&cv(content), &cv("__TOKEN__"), &cv("value")));
    assert_eq!(out, content);
}

#[test]
fn find_returns_leftmost_occurrence() {
    let hay = cv("abcabc");
    let pat = cv("abc");
    assert_eq!(find_from(&hay, &pat, 0), Some(0));
    assert_eq!(find_from(&hay, &pat, 1), Some(3));
    assert_eq!(find_from(&hay, &pat, 4), None);
    assert_eq!(find_from(&cv("short"), &cv("longer pattern"), 0), None);
}

#[test]
fn crate_ident_replaces_hyphens() {
    assert_eq!(sv(&crate_ident(&cv("my-cool-app"))), "my_cool_app");
    assert_eq!(sv(&crate_ident(&cv("plain"))), "plain");
}

#[test]
fn instantiate_project_stamps_both_tokens() {
    let tree = vec![
        TemplateEntry {
            path: cv("cmd/main.rs"),
            contents: cv("use __CRATE_IDENT__::app; // __PROJECT_NAME__\n"),
        },
        TemplateEntry { path: cv("README.md"), contents: cv("# __PROJECT_NAME__\n") },
    ];
    let out = instantiate_project(tree, &cv("my-app"));
    assert_eq!(out.len(), 2);
    assert_eq!(sv(&out[0].path), "cmd/main.rs");
    assert_eq!(sv(&out[0].contents), "use my_app::app; // my-app\n");
    assert_eq!(sv(&out[1].path), "README.md");
    assert_eq!(sv(&out[1].contents), "# my-app\n");
}
