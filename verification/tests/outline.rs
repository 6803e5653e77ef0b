use soldoc::render::render_summary;
use soldoc::summary::build_summary;

fn names(list: &[&str]) -> Vec<String> {
    list.iter().map(|s| s.to_string()).collect()
}

#[test]
fn each_directory_is_announced_once() {
    let entries = build_summary(&names(&["Token", "utils/Math", "utils/Safe", "vault/Vault"]));
    let shape: Vec<(usize, &str, &str)> =
        entries.iter().map(|e| (e.depth, e.label.as_str(), e.link.as_str())).collect();
    assert_eq!(
        shape,
        vec![
            (0, "Token", "Token.md"),
            (0, "utils", "utils.md"),
            (1, "Math", "utils/Math.md"),
            (1, "Safe", "utils/Safe.md"),
            (0, "vault", "vault.md"),
            (1, "Vault", "vault/Vault.md"),
        ]
    );
}

#[test]
fn outline_renders_as_an_indented_markdown_list() {
    let entries = build_summary(&names(&["Token", "utils/Math", "utils/Safe", "vault/Vault"]));
    let text = render_summary(&entries);
    let expected = "- [Token](Token.md)\n- [utils](utils.md)\n    - [Math](utils/Math.md)\n    - [Safe](utils/Safe.md)\n- [vault](vault.md)\n    - [Vault](vault/Vault.md)\n";
    assert_eq!(text, expected);
}

#[test]
fn a_root_level_file_gets_no_ancestor_line() {
    let entries = build_summary(&names(&["Token"]));
    assert_eq!(entries.len(), 1);
    assert_eq!(entries[0].depth, 0);
    assert_eq!(entries[0].label, "Token");
    assert_eq!(entries[0].link, "Token.md");
}

#[test]
fn the_lookback_remembers_only_the_last_parent() {
    // after announcing a/b, the base "a/b" starts with "a", so "a" is
    // never announced for the later root-level sibling — the single-slot
    // lookback kept deliberately
    let entries = build_summary(&names(&["a/b/x", "a/y"]));
    let shape: Vec<(usize, &str)> = entries.iter().map(|e| (e.depth, e.label.as_str())).collect();
    assert_eq!(shape, vec![(1, "b"), (2, "x"), (1, "y")]);
}

#[test]
fn a_deeper_directory_announces_only_its_immediate_parent() {
    let entries = build_summary(&names(&["deep/nested/Thing"]));
    let shape: Vec<(usize, &str, &str)> =
        entries.iter().map(|e| (e.depth, e.label.as_str(), e.link.as_str())).collect();
    assert_eq!(
        shape,
        vec![(1, "nested", "deep/nested.md"), (2, "Thing", "deep/nested/Thing.md")]
    );
}

#[test]
fn an_empty_document_list_yields_an_empty_outline() {
    let entries = build_summary(&Vec::new());
    assert_eq!(entries.len(), 0);
    assert_eq!(render_summary(&entries), "");
}

#[test]
fn doubled_separators_count_literally() {
    // names are raw character sequences: the empty segment is kept, both
    // separators count toward the depth, and nothing fails
    let entries = build_summary(&names(&["a//b"]));
    let shape: Vec<(usize, &str, &str)> =
        entries.iter().map(|e| (e.depth, e.label.as_str(), e.link.as_str())).collect();
    assert_eq!(shape, vec![(1, "", "a/.md"), (2, "b", "a//b.md")]);
}
