use soldoc::abi::{Param, StateMutability};
use soldoc::doc::ParamDoc;
use soldoc::doc::{ErrorDoc, EventDoc, MethodDoc};
use soldoc::sig::{build_signature_key, resolve_method_signature};

fn plain_param(name: &str, kind: &str) -> Param {
    Param { name: name.to_string(), kind: kind.to_string(), internal_type: None }
}

#[test]
fn method_signature_truncates_at_colon() {
    let key = resolve_method_signature("transfer(address,uint256):(bool)");
    assert_eq!(key, "transfer(address,uint256)");
}

#[test]
fn method_signature_without_colon_is_kept() {
    let key = resolve_method_signature("transfer(address,uint256)");
    assert_eq!(key, "transfer(address,uint256)");
}

#[test]
fn signature_key_joins_types_with_commas() {
    let kinds = vec!["address".to_string(), "uint256".to_string()];
    assert_eq!(build_signature_key("Transfer", &kinds), "Transfer(address,uint256)");
}

#[test]
fn signature_key_of_empty_type_list_keeps_parentheses() {
    let kinds: Vec<String> = Vec::new();
    assert_eq!(build_signature_key("Ping", &kinds), "Ping()");
}

#[test]
fn signature_resolution_is_deterministic() {
    let a = resolve_method_signature("f(uint8):(uint8)");
    let b = resolve_method_signature("f(uint8):(uint8)");
    assert_eq!(a, b);
    let kinds = vec!["bytes32".to_string()];
    assert_eq!(build_signature_key("E", &kinds), build_signature_key("E", &kinds));
}

#[test]
fn param_render_omits_sentinel_name() {
    let anonymous = ParamDoc {
        name: "-".to_string(),
        kind: "uint256".to_string(),
        internal_type: None,
        indexed: None,
        doc: "-".to_string(),
    };
    assert_eq!(anonymous.render(), "uint256");
    let named = ParamDoc {
        name: "amount".to_string(),
        kind: "uint256".to_string(),
        internal_type: None,
        indexed: None,
        doc: "-".to_string(),
    };
    assert_eq!(named.render(), "uint256 amount");
}

#[test]
fn method_signature_line_renders_mutability_and_returns() {
    let m = MethodDoc {
        name: "balanceOf".to_string(),
        details: None,
        notice: None,
        state_mutability: StateMutability::View,
        params: vec![ParamDoc {
            name: "owner".to_string(),
            kind: "address".to_string(),
            internal_type: None,
            indexed: None,
            doc: "-".to_string(),
        }],
        returns: vec![ParamDoc {
            name: "-".to_string(),
            kind: "uint256".to_string(),
            internal_type: None,
            indexed: None,
            doc: "-".to_string(),
        }],
    };
    assert_eq!(
        m.signature_line(),
        "function balanceOf(address owner) external view returns (uint256)"
    );
    let p = MethodDoc {
        name: "ping".to_string(),
        details: None,
        notice: None,
        state_mutability: StateMutability::Nonpayable,
        params: Vec::new(),
        returns: Vec::new(),
    };
    assert_eq!(p.signature_line(), "function ping() external nonpayable");
    let _ = plain_param("x", "uint8");
}

#[test]
fn event_and_error_signature_lines() {
    let e = EventDoc {
        name: "Transfer".to_string(),
        details: None,
        notice: None,
        params: vec![
            ParamDoc {
                name: "from".to_string(),
                kind: "address".to_string(),
                internal_type: None,
                indexed: Some(true),
                doc: "-".to_string(),
            },
            ParamDoc {
                name: "value".to_string(),
                kind: "uint256".to_string(),
                internal_type: None,
                indexed: Some(false),
                doc: "-".to_string(),
            },
        ],
    };
    assert_eq!(e.signature_line(), "event Transfer(address from, uint256 value)");
    let r = ErrorDoc {
        name: "Empty".to_string(),
        details: None,
        notice: None,
        params: Vec::new(),
    };
    assert_eq!(r.signature_line(), "error Empty()");
}
