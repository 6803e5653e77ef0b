use soldoc::abi::{Abi, Event, EventParam, Function, Param, StateMutability};
use soldoc::generate;
use soldoc::natspec::{
    ContractArtifact, DevDoc, MethodAnnotation, UserDoc, UserDocNotice,
};
use soldoc::pipeline::SourceContract;
use soldoc::render::render_summary;

fn sample_entries() -> Vec<SourceContract> {
    let abi = Abi {
        functions: vec![Function {
            name: "balanceOf".to_string(),
            signature: "balanceOf(address):(uint256)".to_string(),
            state_mutability: StateMutability::View,
            inputs: vec![Param {
                name: "owner".to_string(),
                kind: "address".to_string(),
                internal_type: Some("address".to_string()),
            }],
            outputs: vec![Param {
                name: "".to_string(),
                kind: "uint256".to_string(),
                internal_type: None,
            }],
        }],
        events: vec![Event {
            name: "Transfer".to_string(),
            inputs: vec![EventParam {
                name: "from".to_string(),
                kind: "address".to_string(),
                indexed: true,
            }],
        }],
        errors: Vec::new(),
    };
    let devdoc = DevDoc {
        title: Some("Token".to_string()),
        details: None,
        author: None,
        methods: vec![(
            "balanceOf(address)".to_string(),
            MethodAnnotation {
                details: Some("reads a balance".to_string()),
                params: vec![("owner".to_string(), "whose balance".to_string())],
                returns: Vec::new(),
            },
        )],
        events: Vec::new(),
        errors: Vec::new(),
    };
    let userdoc = UserDoc {
        notice: Some("an example".to_string()),
        methods: vec![(
            "balanceOf(address)".to_string(),
            UserDocNotice::Notice("how much you own".to_string()),
        )],
        events: Vec::new(),
        errors: Vec::new(),
    };
    vec![
        SourceContract {
            path: "src/Token.sol".to_string(),
            contract: "Token".to_string(),
            artifact: ContractArtifact { abi: Some(abi), devdoc, userdoc },
        },
        SourceContract {
            path: "src/utils/Math.sol".to_string(),
            contract: "Math".to_string(),
            artifact: ContractArtifact {
                abi: Some(Abi { functions: Vec::new(), events: Vec::new(), errors: Vec::new() }),
                devdoc: DevDoc {
                    title: None,
                    details: None,
                    author: None,
                    methods: Vec::new(),
                    events: Vec::new(),
                    errors: Vec::new(),
                },
                userdoc: UserDoc {
                    notice: None,
                    methods: Vec::new(),
                    events: Vec::new(),
                    errors: Vec::new(),
                },
            },
        },
    ]
}

#[test]
fn generation_resolves_members_and_outline_together() {
    let (docs, outline) = generate("src", sample_entries()).unwrap();
    assert_eq!(docs.len(), 2);
    assert_eq!(docs[0].name, "Token");
    assert_eq!(docs[1].name, "utils/Math");
    let token = &docs[0].contracts[0];
    assert_eq!(token.title.as_deref(), Some("Token"));
    assert_eq!(token.notice.as_deref(), Some("an example"));
    let balance_of = &token.methods[0].1[0];
    assert_eq!(balance_of.details.as_deref(), Some("reads a balance"));
    assert_eq!(balance_of.notice.as_deref(), Some("how much you own"));
    assert_eq!(balance_of.params[0].doc, "whose balance");
    assert_eq!(balance_of.params[0].internal_type.as_deref(), Some("address"));
    assert_eq!(balance_of.returns[0].name, "-");
    assert_eq!(
        balance_of.signature_line(),
        "function balanceOf(address owner) external view returns (uint256)"
    );
    assert_eq!(token.events[0].1[0].signature_line(), "event Transfer(address from)");
    let rendered = render_summary(&outline);
    assert_eq!(
        rendered,
        "- [Token](Token.md)\n- [utils](utils.md)\n    - [Math](utils/Math.md)\n"
    );
}

#[test]
fn running_the_pipeline_twice_produces_identical_output() {
    let (docs1, outline1) = generate("src", sample_entries()).unwrap();
    let (docs2, outline2) = generate("src", sample_entries()).unwrap();
    assert_eq!(docs1.len(), docs2.len());
    for (a, b) in docs1.iter().zip(docs2.iter()) {
        assert_eq!(a.name, b.name);
        assert_eq!(a.contracts.len(), b.contracts.len());
        for (ca, cb) in a.contracts.iter().zip(b.contracts.iter()) {
            assert_eq!(ca.name, cb.name);
            assert_eq!(ca.title, cb.title);
            assert_eq!(ca.notice, cb.notice);
            assert_eq!(ca.methods.len(), cb.methods.len());
            for (ma, mb) in ca.methods.iter().zip(cb.methods.iter()) {
                assert_eq!(ma.0, mb.0);
                let la: Vec<String> = ma.1.iter().map(|m| m.signature_line()).collect();
                let lb: Vec<String> = mb.1.iter().map(|m| m.signature_line()).collect();
                assert_eq!(la, lb);
            }
        }
    }
    assert_eq!(render_summary(&outline1), render_summary(&outline2));
}
