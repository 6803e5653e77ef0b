use soldoc::abi::{Abi, ErrorDecl, Event, EventParam, Function, Param, StateMutability};
use soldoc::doc::{ContractDoc, DocError};
use soldoc::natspec::{
    DevDoc, ErrorAnnotation, EventAnnotation, MethodAnnotation, UserDoc, UserDocNotice,
};

fn param(name: &str, kind: &str) -> Param {
    Param { name: name.to_string(), kind: kind.to_string(), internal_type: None }
}

fn empty_dev() -> DevDoc {
    DevDoc {
        title: None,
        details: None,
        author: None,
        methods: Vec::new(),
        events: Vec::new(),
        errors: Vec::new(),
    }
}

fn empty_user() -> UserDoc {
    UserDoc { notice: None, methods: Vec::new(), events: Vec::new(), errors: Vec::new() }
}

fn transfer_fn() -> Function {
    Function {
        name: "transfer".to_string(),
        signature: "transfer(address,uint256):(bool)".to_string(),
        state_mutability: StateMutability::Nonpayable,
        inputs: vec![param("to", "address"), param("", "uint256")],
        outputs: vec![param("", "bool")],
    }
}

fn one_fn_abi(f: Function) -> Abi {
    Abi { functions: vec![f], events: Vec::new(), errors: Vec::new() }
}

#[test]
fn undocumented_method_defaults_to_sentinels() {
    let abi = one_fn_abi(transfer_fn());
    let methods = ContractDoc::parse_methods(&abi, &empty_dev(), &empty_user());
    assert_eq!(methods.len(), 1);
    let (name, group) = &methods[0];
    assert_eq!(name, "transfer");
    assert_eq!(group.len(), 1);
    let doc = &group[0];
    assert_eq!(doc.details, None);
    assert_eq!(doc.notice, None);
    for p in doc.params.iter().chain(doc.returns.iter()) {
        assert_eq!(p.doc, "-");
    }
}

#[test]
fn empty_parameter_name_resolves_to_sentinel_and_is_not_matched_by_position() {
    let mut dev = empty_dev();
    // descriptions exist for the named parameter and, verbatim, for the
    // empty name; position would pair "to" with the empty-name entry
    dev.methods.push((
        "transfer(address,uint256)".to_string(),
        MethodAnnotation {
            details: Some("moves tokens".to_string()),
            params: vec![
                ("to".to_string(), "the receiver".to_string()),
                ("".to_string(), "the raw amount".to_string()),
            ],
            returns: Vec::new(),
        },
    ));
    let abi = one_fn_abi(transfer_fn());
    let methods = ContractDoc::parse_methods(&abi, &dev, &empty_user());
    let doc = &methods[0].1[0];
    assert_eq!(doc.details.as_deref(), Some("moves tokens"));
    assert_eq!(doc.params[0].name, "to");
    assert_eq!(doc.params[0].doc, "the receiver");
    assert_eq!(doc.params[1].name, "-");
    assert_eq!(doc.params[1].doc, "the raw amount");
    // the output has the empty name too, and the same verbatim lookup
    assert_eq!(doc.returns[0].name, "-");
    assert_eq!(doc.returns[0].doc, "-");
}

#[test]
fn notice_forms_unwrap_identically() {
    let mut user = empty_user();
    user.methods.push((
        "transfer(address,uint256)".to_string(),
        UserDocNotice::Constructor("sends money".to_string()),
    ));
    let abi = one_fn_abi(transfer_fn());
    let methods = ContractDoc::parse_methods(&abi, &empty_dev(), &user);
    assert_eq!(methods[0].1[0].notice.as_deref(), Some("sends money"));

    let mut user2 = empty_user();
    user2.methods.push((
        "transfer(address,uint256)".to_string(),
        UserDocNotice::Notice("sends money".to_string()),
    ));
    let methods2 = ContractDoc::parse_methods(&abi, &empty_dev(), &user2);
    assert_eq!(methods2[0].1[0].notice, methods[0].1[0].notice);
}

#[test]
fn overloads_share_a_group_in_declaration_order() {
    let mut f2 = transfer_fn();
    f2.signature = "transfer(address):(bool)".to_string();
    f2.inputs = vec![param("to", "address")];
    let abi = Abi {
        functions: vec![transfer_fn(), f2],
        events: Vec::new(),
        errors: Vec::new(),
    };
    let methods = ContractDoc::parse_methods(&abi, &empty_dev(), &empty_user());
    assert_eq!(methods.len(), 1);
    assert_eq!(methods[0].1.len(), 2);
    assert_eq!(methods[0].1[0].params.len(), 2);
    assert_eq!(methods[0].1[1].params.len(), 1);
}

#[test]
fn member_groups_are_sorted_by_name() {
    let mut fa = transfer_fn();
    fa.name = "approve".to_string();
    fa.signature = "approve(address,uint256):(bool)".to_string();
    let abi = Abi {
        functions: vec![transfer_fn(), fa],
        events: Vec::new(),
        errors: Vec::new(),
    };
    let methods = ContractDoc::parse_methods(&abi, &empty_dev(), &empty_user());
    assert_eq!(methods[0].0, "approve");
    assert_eq!(methods[1].0, "transfer");
}

#[test]
fn event_parameters_keep_their_indexed_flags() {
    let abi = Abi {
        functions: Vec::new(),
        events: vec![Event {
            name: "Transfer".to_string(),
            inputs: vec![
                EventParam {
                    name: "from".to_string(),
                    kind: "address".to_string(),
                    indexed: true,
                },
                EventParam { name: "".to_string(), kind: "uint256".to_string(), indexed: false },
            ],
        }],
        errors: Vec::new(),
    };
    let mut dev = empty_dev();
    dev.events.push((
        "Transfer(address,uint256)".to_string(),
        EventAnnotation {
            details: Some("on each move".to_string()),
            params: vec![("from".to_string(), "the sender".to_string())],
        },
    ));
    let events = ContractDoc::parse_events(&abi, &dev, &empty_user());
    assert_eq!(events.len(), 1);
    let doc = &events[0].1[0];
    assert_eq!(doc.details.as_deref(), Some("on each move"));
    assert_eq!(doc.params[0].indexed, Some(true));
    assert_eq!(doc.params[0].doc, "the sender");
    assert_eq!(doc.params[1].indexed, Some(false));
    assert_eq!(doc.params[1].name, "-");
    assert_eq!(doc.params[1].doc, "-");
    assert_eq!(doc.params[0].internal_type, None);
}

fn shortfall_error_abi() -> Abi {
    Abi {
        functions: Vec::new(),
        events: Vec::new(),
        errors: vec![ErrorDecl {
            name: "Shortfall".to_string(),
            inputs: vec![param("missing", "uint256")],
        }],
    }
}

#[test]
fn error_docs_pair_positionally() {
    let mut dev = empty_dev();
    dev.errors.push((
        "Shortfall(uint256)".to_string(),
        vec![
            ErrorAnnotation { details: Some("first context".to_string()), params: Vec::new() },
            ErrorAnnotation {
                details: Some("second context".to_string()),
                params: vec![("missing".to_string(), "what is lacking".to_string())],
            },
        ],
    ));
    let mut user = empty_user();
    user.errors.push((
        "Shortfall(uint256)".to_string(),
        vec![
            UserDocNotice::Notice("not enough".to_string()),
            UserDocNotice::Constructor("still not enough".to_string()),
        ],
    ));
    let errors = ContractDoc::parse_errors(&shortfall_error_abi(), &dev, &user).unwrap();
    assert_eq!(errors.len(), 1);
    let group = &errors[0].1;
    assert_eq!(group.len(), 2);
    assert_eq!(group[0].details.as_deref(), Some("first context"));
    assert_eq!(group[0].notice.as_deref(), Some("not enough"));
    assert_eq!(group[0].params[0].doc, "-");
    assert_eq!(group[1].details.as_deref(), Some("second context"));
    assert_eq!(group[1].notice.as_deref(), Some("still not enough"));
    assert_eq!(group[1].params[0].doc, "what is lacking");
}

#[test]
fn mismatched_error_list_lengths_are_fatal() {
    let mut dev = empty_dev();
    dev.errors.push((
        "Shortfall(uint256)".to_string(),
        vec![
            ErrorAnnotation { details: None, params: Vec::new() },
            ErrorAnnotation { details: None, params: Vec::new() },
        ],
    ));
    let mut user = empty_user();
    user.errors.push((
        "Shortfall(uint256)".to_string(),
        vec![UserDocNotice::Notice("short".to_string())],
    ));
    let r = ContractDoc::parse_errors(&shortfall_error_abi(), &dev, &user);
    match r {
        Err(DocError::ErrorNoticeLengthMismatch { name }) => assert_eq!(name, "Shortfall"),
        _ => panic!("expected a length-mismatch error"),
    }
}

#[test]
fn unannotated_error_declaration_is_silently_skipped() {
    let errors =
        ContractDoc::parse_errors(&shortfall_error_abi(), &empty_dev(), &empty_user()).unwrap();
    assert_eq!(errors.len(), 0);
}
