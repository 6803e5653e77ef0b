use soldoc::abi::Abi;
use soldoc::doc::DocError;
use soldoc::natspec::{ContractArtifact, DevDoc, UserDoc};
use soldoc::pipeline::{build_documents, SourceContract};

fn empty_artifact() -> ContractArtifact {
    ContractArtifact {
        abi: Some(Abi { functions: Vec::new(), events: Vec::new(), errors: Vec::new() }),
        devdoc: DevDoc {
            title: Some("a title".to_string()),
            details: None,
            author: Some("someone".to_string()),
            methods: Vec::new(),
            events: Vec::new(),
            errors: Vec::new(),
        },
        userdoc: UserDoc {
            notice: None,
            methods: Vec::new(),
            events: Vec::new(),
            errors: Vec::new(),
        },
    }
}

fn entry(path: &str, contract: &str) -> SourceContract {
    SourceContract {
        path: path.to_string(),
        contract: contract.to_string(),
        artifact: empty_artifact(),
    }
}

#[test]
fn paths_outside_the_source_root_are_excluded() {
    let entries = vec![
        entry("src/Token.sol", "Token"),
        entry("lib/Vendor.sol", "Vendor"),
        entry("test/Token.t.sol", "TokenTest"),
    ];
    let docs = build_documents("src", entries).unwrap();
    assert_eq!(docs.len(), 1);
    assert_eq!(docs[0].name, "Token");
    assert_eq!(docs[0].contracts.len(), 1);
    assert_eq!(docs[0].contracts[0].name, "Token");
    assert_eq!(docs[0].contracts[0].title.as_deref(), Some("a title"));
    assert_eq!(docs[0].contracts[0].author.as_deref(), Some("someone"));
}

#[test]
fn documents_are_ordered_lexicographically_by_name() {
    let entries = vec![
        entry("src/b/x.sol", "X"),
        entry("src/a/y.sol", "Y"),
        entry("src/a/z.sol", "Z"),
    ];
    let docs = build_documents("src", entries).unwrap();
    let names: Vec<&str> = docs.iter().map(|d| d.name.as_str()).collect();
    assert_eq!(names, vec!["a/y", "a/z", "b/x"]);
}

#[test]
fn contracts_of_one_file_stay_together_in_encounter_order() {
    let entries = vec![
        entry("src/Pair.sol", "Pair"),
        entry("src/Other.sol", "Other"),
        entry("src/Pair.sol", "PairHelper"),
    ];
    let docs = build_documents("src", entries).unwrap();
    assert_eq!(docs.len(), 2);
    assert_eq!(docs[0].name, "Other");
    assert_eq!(docs[1].name, "Pair");
    let pair_names: Vec<&str> = docs[1].contracts.iter().map(|c| c.name.as_str()).collect();
    assert_eq!(pair_names, vec!["Pair", "PairHelper"]);
}

#[test]
fn nested_directories_keep_their_relative_names() {
    let entries = vec![entry("src/deep/nested/Thing.sol", "Thing")];
    let docs = build_documents("src", entries).unwrap();
    assert_eq!(docs[0].name, "deep/nested/Thing");
}

#[test]
fn an_invalid_source_root_glob_is_fatal() {
    let r = build_documents("src[", vec![entry("src[/A.sol", "A")]);
    match r {
        Err(DocError::InvalidSourceGlob { root }) => assert_eq!(root, "src["),
        _ => panic!("expected the glob error"),
    }
}

#[test]
fn a_matched_path_without_the_literal_prefix_is_an_internal_error() {
    // the glob `sr*/*` matches this path, but the literal prefix `sr*/`
    // does not lead it, so the filter and the stripping have diverged
    let r = build_documents("sr*", vec![entry("srcx/A.sol", "A")]);
    match r {
        Err(DocError::SourcePrefixMismatch { path }) => assert_eq!(path, "srcx/A.sol"),
        _ => panic!("expected the prefix error"),
    }
}

#[test]
fn a_matched_path_without_the_source_extension_is_an_internal_error() {
    let r = build_documents("src", vec![entry("src/README.md", "Stray")]);
    match r {
        Err(DocError::SourceExtensionMismatch { path }) => assert_eq!(path, "src/README.md"),
        _ => panic!("expected the extension error"),
    }
}

#[test]
fn a_contract_without_an_interface_description_is_fatal() {
    let mut bad = entry("src/Broken.sol", "Broken");
    bad.artifact.abi = None;
    let r = build_documents("src", vec![bad]);
    match r {
        Err(DocError::MissingAbi { contract }) => assert_eq!(contract, "Broken"),
        _ => panic!("expected the missing-interface error"),
    }
}
