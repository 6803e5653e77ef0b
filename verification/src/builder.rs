//! The member-doc builder: joins each interface member with its developer
//! and user annotations, substituting documented defaults for anything
//! missing, and groups the results by member name.

use vstd::prelude::*;
use crate::abi::{Abi, AbiModel, Param, EventParam, Function, Event, ErrorDecl, ParamModel,
    EventParamModel, FunctionModel, EventModel, ErrorDeclModel};
use crate::natspec::{assoc_find, assoc_get, notice_text, MethodAnnotation, MethodAnnotationModel,
    EventAnnotation, EventAnnotationModel, ErrorAnnotation, ErrorAnnotationModel, UserDocNotice,
    UserDocNoticeModel, DevDoc, DevDocModel, UserDoc, UserDocModel, ContractArtifact,
    ContractArtifactModel};
use crate::doc::{ParamDoc, ParamDocModel, MethodDoc, MethodDocModel, EventDoc, EventDocModel,
    ErrorDoc, ErrorDocModel, ContractDoc, ContractDocModel, FileDoc, FileDocModel, DocError,
    DocErrorModel};
use crate::sig::{method_sig_key, signature_key, resolve_method_signature, build_signature_key,
    param_kinds, event_param_kinds};
use crate::group::{group_by_key, grouped_insert, grouped_insert_exec};

verus! {

/// The `-` sentinel that stands in for an omitted name or description.
pub open spec fn sentinel() -> Seq<char> {
    seq!['-']
}

fn sentinel_string() -> (r: String)
    ensures
        r@ == sentinel(),
{
    proof {
        reveal_strlit("-");
        assert("-"@ =~= seq!['-']);
    }
    String::from_str("-")
}

fn clone_opt_string(o: &Option<String>) -> (r: Option<String>)
    ensures
        r.deep_view() == o.deep_view(),
{
    match o {
        Some(s) => Some(s.clone()),
        None => None,
    }
}

/// A parameter's resolved display name: the declared name, or the sentinel
/// when the declaration left it empty.
pub open spec fn resolved_param_name(name: Seq<char>) -> Seq<char> {
    if name.len() == 0 {
        sentinel()
    } else {
        name
    }
}

/// A parameter's resolved description: the annotation entry under the
/// declared name taken verbatim (even when empty), or the sentinel.
pub open spec fn resolved_param_desc(name: Seq<char>, docs: Seq<(Seq<char>, Seq<char>)>) -> Seq<
    char,
> {
    match assoc_find(docs, name) {
        Some(d) => d,
        None => sentinel(),
    }
}

/// One resolved function or error parameter.
pub open spec fn param_doc_model(p: ParamModel, docs: Seq<(Seq<char>, Seq<char>)>) -> ParamDocModel {
    ParamDocModel {
        name: resolved_param_name(p.name),
        kind: p.kind,
        internal_type: p.internal_type,
        indexed: None,
        doc: resolved_param_desc(p.name, docs),
    }
}

/// One resolved event parameter: it carries the indexed flag instead of an
/// internal type.
pub open spec fn event_param_doc_model(
    p: EventParamModel,
    docs: Seq<(Seq<char>, Seq<char>)>,
) -> ParamDocModel {
    ParamDocModel {
        name: resolved_param_name(p.name),
        kind: p.kind,
        internal_type: None,
        indexed: Some(p.indexed),
        doc: resolved_param_desc(p.name, docs),
    }
}

fn parse_param(p: &Param, docs: &Vec<(String, String)>) -> (r: ParamDoc)
    ensures
        r@ == param_doc_model(p@, docs.deep_view()),
{
    let name = if p.name.as_str().is_empty() {
        sentinel_string()
    } else {
        p.name.clone()
    };
    let desc = match assoc_get(docs, &p.name) {
        Some(d) => d.clone(),
        None => sentinel_string(),
    };
    let r = ParamDoc {
        name,
        kind: p.kind.clone(),
        internal_type: clone_opt_string(&p.internal_type),
        indexed: None,
        doc: desc,
    };
    proof {
        assert(r@ =~= param_doc_model(p@, docs.deep_view()));
    }
    r
}

fn parse_event_param(p: &EventParam, docs: &Vec<(String, String)>) -> (r: ParamDoc)
    ensures
        r@ == event_param_doc_model(p@, docs.deep_view()),
{
    let name = if p.name.as_str().is_empty() {
        sentinel_string()
    } else {
        p.name.clone()
    };
    let desc = match assoc_get(docs, &p.name) {
        Some(d) => d.clone(),
        None => sentinel_string(),
    };
    let r = ParamDoc {
        name,
        kind: p.kind.clone(),
        internal_type: None,
        indexed: Some(p.indexed),
        doc: desc,
    };
    proof {
        assert(r@ =~= event_param_doc_model(p@, docs.deep_view()));
    }
    r
}

/// All parameters of one member, resolved in order against the same
/// name-keyed description map.
pub open spec fn param_docs_model(
    ps: Seq<ParamModel>,
    docs: Seq<(Seq<char>, Seq<char>)>,
) -> Seq<ParamDocModel> {
    ps.map_values(|p: ParamModel| param_doc_model(p, docs))
}

pub open spec fn event_param_docs_model(
    ps: Seq<EventParamModel>,
    docs: Seq<(Seq<char>, Seq<char>)>,
) -> Seq<ParamDocModel> {
    ps.map_values(|p: EventParamModel| event_param_doc_model(p, docs))
}

/// Resolves a member's parameter list against its annotation's
/// parameter-description map.
pub fn parse_params(params: &Vec<Param>, docs: &Vec<(String, String)>) -> (r: Vec<ParamDoc>)
    ensures
        r.deep_view() == param_docs_model(params.deep_view(), docs.deep_view()),
{
    let ghost pd = params.deep_view();
    let ghost target = param_docs_model(pd, docs.deep_view());
    let mut out: Vec<ParamDoc> = Vec::new();
    let n = params.len();
    let mut i: usize = 0;
    while i < n
        invariant
            0 <= i <= n,
            n == params.len(),
            pd == params.deep_view(),
            target == param_docs_model(pd, docs.deep_view()),
            pd.len() == n,
            out@.len() == i,
            forall|j: int| 0 <= j < i ==> out@[j]@ == target[j],
        decreases n - i,
    {
        proof {
            assert(pd[i as int] == params[i as int].deep_view());
            assert(target[i as int] == param_doc_model(pd[i as int], docs.deep_view()));
        }
        let d = parse_param(&params[i], docs);
        out.push(d);
        i = i + 1;
    }
    proof {
        assert(target.len() == n);
        assert forall|j: int| 0 <= j < n implies out.deep_view()[j] == target[j] by {
            assert(out.deep_view()[j] == out@[j].deep_view());
        }
        assert(out.deep_view() =~= target);
    }
    out
}

/// Resolves an event's parameter list, keeping each indexed flag.
pub fn parse_event_params(params: &Vec<EventParam>, docs: &Vec<(String, String)>) -> (r: Vec<
    ParamDoc,
>)
    ensures
        r.deep_view() == event_param_docs_model(params.deep_view(), docs.deep_view()),
{
    let ghost pd = params.deep_view();
    let ghost target = event_param_docs_model(pd, docs.deep_view());
    let mut out: Vec<ParamDoc> = Vec::new();
    let n = params.len();
    let mut i: usize = 0;
    while i < n
        invariant
            0 <= i <= n,
            n == params.len(),
            pd == params.deep_view(),
            target == event_param_docs_model(pd, docs.deep_view()),
            pd.len() == n,
            out@.len() == i,
            forall|j: int| 0 <= j < i ==> out@[j]@ == target[j],
        decreases n - i,
    {
        proof {
            assert(pd[i as int] == params[i as int].deep_view());
            assert(target[i as int] == event_param_doc_model(pd[i as int], docs.deep_view()));
        }
        let d = parse_event_param(&params[i], docs);
        out.push(d);
        i = i + 1;
    }
    proof {
        assert(target.len() == n);
        assert forall|j: int| 0 <= j < n implies out.deep_view()[j] == target[j] by {
            assert(out.deep_view()[j] == out@[j].deep_view());
        }
        assert(out.deep_view() =~= target);
    }
    out
}

/// The default developer annotation of a method nobody documented.
pub open spec fn default_method_annotation() -> MethodAnnotationModel {
    MethodAnnotationModel { details: None, params: Seq::empty(), returns: Seq::empty() }
}

/// The default developer annotation of an event nobody documented.
pub open spec fn default_event_annotation() -> EventAnnotationModel {
    EventAnnotationModel { details: None, params: Seq::empty() }
}

/// The developer annotation a function resolves to: the entry under its
/// signature key, or the empty default.
pub open spec fn method_dev_annotation(f: FunctionModel, dev: DevDocModel) -> MethodAnnotationModel {
    match assoc_find(dev.methods, method_sig_key(f.signature)) {
        Some(a) => a,
        None => default_method_annotation(),
    }
}

/// The user notice a function resolves to, unwrapped from either notice
/// form; absent when nobody documented it.
pub open spec fn method_notice(f: FunctionModel, user: UserDocModel) -> Option<Seq<char>> {
    match assoc_find(user.methods, method_sig_key(f.signature)) {
        Some(n) => Some(notice_text(n)),
        None => None,
    }
}

/// One fully resolved function.
pub open spec fn method_doc_model(
    f: FunctionModel,
    dev: DevDocModel,
    user: UserDocModel,
) -> MethodDocModel {
    let ann = method_dev_annotation(f, dev);
    MethodDocModel {
        name: f.name,
        details: ann.details,
        notice: method_notice(f, user),
        state_mutability: f.state_mutability,
        params: param_docs_model(f.inputs, ann.params),
        returns: param_docs_model(f.outputs, ann.returns),
    }
}

/// Resolves one function against both annotation maps.
pub fn parse_method(f: &Function, dev: &DevDoc, user: &UserDoc) -> (r: MethodDoc)
    ensures
        r@ == method_doc_model(f@, dev@, user@),
{
    let key = resolve_method_signature(f.signature.as_str());
    let empty_ann = MethodAnnotation { details: None, params: Vec::new(), returns: Vec::new() };
    proof {
        assert(empty_ann@.params =~= Seq::<(Seq<char>, Seq<char>)>::empty());
        assert(empty_ann@.returns =~= Seq::<(Seq<char>, Seq<char>)>::empty());
        assert(empty_ann@ =~= default_method_annotation());
    }
    let got = assoc_get(&dev.methods, &key);
    let ann: &MethodAnnotation = match got {
        Some(a) => a,
        None => &empty_ann,
    };
    proof {
        assert(ann@ == method_dev_annotation(f@, dev@));
    }
    let params = parse_params(&f.inputs, &ann.params);
    let rets = parse_params(&f.outputs, &ann.returns);
    let notice: Option<String> = match assoc_get(&user.methods, &key) {
        Some(n) => Some(n.text().clone()),
        None => None,
    };
    let r = MethodDoc {
        name: f.name.clone(),
        details: clone_opt_string(&ann.details),
        notice,
        state_mutability: f.state_mutability,
        params,
        returns: rets,
    };
    proof {
        assert(r@ =~= method_doc_model(f@, dev@, user@));
    }
    r
}

/// The signature key of an event: always the full type list, with no
/// truncating suffix.
pub open spec fn event_sig_key(e: EventModel) -> Seq<char> {
    signature_key(e.name, e.inputs.map_values(|p: EventParamModel| p.kind))
}

/// The developer annotation an event resolves to.
pub open spec fn event_dev_annotation(e: EventModel, dev: DevDocModel) -> EventAnnotationModel {
    match assoc_find(dev.events, event_sig_key(e)) {
        Some(a) => a,
        None => default_event_annotation(),
    }
}

/// The user notice an event resolves to.
pub open spec fn event_notice(e: EventModel, user: UserDocModel) -> Option<Seq<char>> {
    match assoc_find(user.events, event_sig_key(e)) {
        Some(n) => Some(notice_text(n)),
        None => None,
    }
}

/// One fully resolved event.
pub open spec fn event_doc_model(
    e: EventModel,
    dev: DevDocModel,
    user: UserDocModel,
) -> EventDocModel {
    let ann = event_dev_annotation(e, dev);
    EventDocModel {
        name: e.name,
        details: ann.details,
        notice: event_notice(e, user),
        params: event_param_docs_model(e.inputs, ann.params),
    }
}

/// Resolves one event against both annotation maps.
pub fn parse_event(e: &Event, dev: &DevDoc, user: &UserDoc) -> (r: EventDoc)
    ensures
        r@ == event_doc_model(e@, dev@, user@),
{
    let kinds = event_param_kinds(&e.inputs);
    let key = build_signature_key(e.name.as_str(), &kinds);
    proof {
        assert(key@ == event_sig_key(e@));
    }
    let empty_ann = EventAnnotation { details: None, params: Vec::new() };
    proof {
        assert(empty_ann@.params =~= Seq::<(Seq<char>, Seq<char>)>::empty());
        assert(empty_ann@ =~= default_event_annotation());
    }
    let got = assoc_get(&dev.events, &key);
    let ann: &EventAnnotation = match got {
        Some(a) => a,
        None => &empty_ann,
    };
    proof {
        assert(ann@ == event_dev_annotation(e@, dev@));
    }
    let params = parse_event_params(&e.inputs, &ann.params);
    let notice: Option<String> = match assoc_get(&user.events, &key) {
        Some(n) => Some(n.text().clone()),
        None => None,
    };
    let r = EventDoc {
        name: e.name.clone(),
        details: clone_opt_string(&ann.details),
        notice,
        params,
    };
    proof {
        assert(r@ =~= event_doc_model(e@, dev@, user@));
    }
    r
}


/// The signature key of an error declaration: always the full type list.
pub open spec fn error_sig_key(d: ErrorDeclModel) -> Seq<char> {
    signature_key(d.name, d.inputs.map_values(|p: ParamModel| p.kind))
}

/// The developer annotation list an error signature resolves to; absent
/// means empty.
pub open spec fn error_dev_list(d: ErrorDeclModel, dev: DevDocModel) -> Seq<ErrorAnnotationModel> {
    match assoc_find(dev.errors, error_sig_key(d)) {
        Some(l) => l,
        None => Seq::empty(),
    }
}

/// The user annotation list an error signature resolves to; absent means
/// empty.
pub open spec fn error_user_list(d: ErrorDeclModel, user: UserDocModel) -> Seq<UserDocNoticeModel> {
    match assoc_find(user.errors, error_sig_key(d)) {
        Some(l) => l,
        None => Seq::empty(),
    }
}

/// The named assumption behind positional pairing: the developer and user
/// lists under one signature must have equal lengths; a difference is
/// treated as inconsistent compiler output and aborts the run.
pub open spec fn error_lengths_ok(d: ErrorDeclModel, dev: DevDocModel, user: UserDocModel) -> bool {
    error_dev_list(d, dev).len() == error_user_list(d, user).len()
}

/// The i-th resolved record under one signature: developer record and user
/// record paired by index.
pub open spec fn error_doc_at(
    d: ErrorDeclModel,
    dev: DevDocModel,
    user: UserDocModel,
    i: int,
) -> ErrorDocModel {
    ErrorDocModel {
        name: d.name,
        details: error_dev_list(d, dev)[i].details,
        notice: Some(notice_text(error_user_list(d, user)[i])),
        params: param_docs_model(d.inputs, error_dev_list(d, dev)[i].params),
    }
}

/// Every resolved record of one declaration's signature, in annotation
/// order; empty (the declaration is silently skipped) when nobody
/// annotated the signature.
pub open spec fn error_docs_for_decl(
    d: ErrorDeclModel,
    dev: DevDocModel,
    user: UserDocModel,
) -> Seq<ErrorDocModel> {
    Seq::new(error_dev_list(d, dev).len(), |i: int| error_doc_at(d, dev, user, i))
}

fn parse_error_decl(d: &ErrorDecl, dev: &DevDoc, user: &UserDoc) -> (r: Result<
    Vec<ErrorDoc>,
    DocError,
>)
    ensures
        match r {
            Ok(docs) => error_lengths_ok(d@, dev@, user@) && docs.deep_view()
                == error_docs_for_decl(d@, dev@, user@),
            Err(e) => !error_lengths_ok(d@, dev@, user@) && e@
                == (DocErrorModel::ErrorNoticeLengthMismatch { name: d@.name }),
        },
{
    let kinds = param_kinds(&d.inputs);
    let key = build_signature_key(d.name.as_str(), &kinds);
    proof {
        assert(key@ == error_sig_key(d@));
    }
    let empty_dev: Vec<ErrorAnnotation> = Vec::new();
    let empty_user: Vec<UserDocNotice> = Vec::new();
    proof {
        assert(empty_dev.deep_view() =~= Seq::<ErrorAnnotationModel>::empty());
        assert(empty_user.deep_view() =~= Seq::<UserDocNoticeModel>::empty());
    }
    let got_dev = assoc_get(&dev.errors, &key);
    let devl: &Vec<ErrorAnnotation> = match got_dev {
        Some(l) => l,
        None => &empty_dev,
    };
    let got_user = assoc_get(&user.errors, &key);
    let userl: &Vec<UserDocNotice> = match got_user {
        Some(l) => l,
        None => &empty_user,
    };
    proof {
        assert(devl.deep_view() == error_dev_list(d@, dev@));
        assert(userl.deep_view() == error_user_list(d@, user@));
    }
    if devl.len() != userl.len() {
        return Err(DocError::ErrorNoticeLengthMismatch { name: d.name.clone() });
    }
    let ghost target = error_docs_for_decl(d@, dev@, user@);
    let n = devl.len();
    let mut out: Vec<ErrorDoc> = Vec::new();
    let mut i: usize = 0;
    while i < n
        invariant
            0 <= i <= n,
            n == devl@.len(),
            n == userl@.len(),
            devl.deep_view() == error_dev_list(d@, dev@),
            userl.deep_view() == error_user_list(d@, user@),
            target == error_docs_for_decl(d@, dev@, user@),
            target.len() == n,
            out@.len() == i,
            forall|j: int| 0 <= j < i ==> out@[j]@ == target[j],
        decreases n - i,
    {
        proof {
            assert(devl.deep_view()[i as int] == devl@[i as int].deep_view());
            assert(userl.deep_view()[i as int] == userl@[i as int].deep_view());
        }
        let params = parse_params(&d.inputs, &devl[i].params);
        let ed = ErrorDoc {
            name: d.name.clone(),
            details: clone_opt_string(&devl[i].details),
            notice: Some(userl[i].text().clone()),
            params,
        };
        proof {
            assert(ed@ =~= target[i as int]);
        }
        out.push(ed);
        i = i + 1;
    }
    proof {
        assert forall|j: int| 0 <= j < n implies out.deep_view()[j] == target[j] by {
            assert(out.deep_view()[j] == out@[j].deep_view());
        }
        assert(out.deep_view() =~= target);
    }
    Ok(out)
}

/// Every function keyed by its name, in declaration order.
pub open spec fn method_pairs(abi: AbiModel, dev: DevDocModel, user: UserDocModel) -> Seq<
    (Seq<char>, MethodDocModel),
> {
    abi.functions.map_values(|f: FunctionModel| (f.name, method_doc_model(f, dev, user)))
}

/// Functions grouped by name: group keys sorted lexicographically,
/// overloads within a group in declaration order.
pub open spec fn methods_model(abi: AbiModel, dev: DevDocModel, user: UserDocModel) -> Seq<
    (Seq<char>, Seq<MethodDocModel>),
> {
    group_by_key(method_pairs(abi, dev, user))
}

/// Every event keyed by its name, in declaration order.
pub open spec fn event_pairs(abi: AbiModel, dev: DevDocModel, user: UserDocModel) -> Seq<
    (Seq<char>, EventDocModel),
> {
    abi.events.map_values(|e: EventModel| (e.name, event_doc_model(e, dev, user)))
}

/// Events grouped by name, as for functions.
pub open spec fn events_model(abi: AbiModel, dev: DevDocModel, user: UserDocModel) -> Seq<
    (Seq<char>, Seq<EventDocModel>),
> {
    group_by_key(event_pairs(abi, dev, user))
}

/// Every resolved error record keyed by its declaration's name, in
/// declaration-major, annotation-minor order.
pub open spec fn error_pairs(decls: Seq<ErrorDeclModel>, dev: DevDocModel, user: UserDocModel) -> Seq<
    (Seq<char>, ErrorDocModel),
>
    decreases decls.len(),
{
    if decls.len() == 0 {
        Seq::empty()
    } else {
        error_pairs(decls.drop_last(), dev, user) + error_docs_for_decl(
            decls.last(),
            dev,
            user,
        ).map_values(|ed: ErrorDocModel| (decls.last().name, ed))
    }
}

/// Error records grouped by declaration name, as for functions.
pub open spec fn errors_model(abi: AbiModel, dev: DevDocModel, user: UserDocModel) -> Seq<
    (Seq<char>, Seq<ErrorDocModel>),
> {
    group_by_key(error_pairs(abi.errors, dev, user))
}

/// Positional pairing is possible for every error declaration.
pub open spec fn errors_len_ok(
    decls: Seq<ErrorDeclModel>,
    dev: DevDocModel,
    user: UserDocModel,
) -> bool {
    forall|i: int| 0 <= i < decls.len() ==> error_lengths_ok(#[trigger] decls[i], dev, user)
}

/// `i` is the first declaration whose annotation lists cannot be paired,
/// and `e` reports it.
pub open spec fn mismatch_witness(
    decls: Seq<ErrorDeclModel>,
    dev: DevDocModel,
    user: UserDocModel,
    e: DocErrorModel,
    i: int,
) -> bool {
    &&& 0 <= i < decls.len()
    &&& !error_lengths_ok(decls[i], dev, user)
    &&& forall|w: int| 0 <= w < i ==> error_lengths_ok(#[trigger] decls[w], dev, user)
    &&& e == (DocErrorModel::ErrorNoticeLengthMismatch { name: decls[i].name })
}

impl ContractDoc {
    /// Resolves every function of the interface and groups the results by
    /// name.
    pub fn parse_methods(abi: &Abi, dev: &DevDoc, user: &UserDoc) -> (r: Vec<
        (String, Vec<MethodDoc>),
    >)
        ensures
            r.deep_view() == methods_model(abi@, dev@, user@),
    {
        let ghost pairs = method_pairs(abi@, dev@, user@);
        let mut groups: Vec<(String, Vec<MethodDoc>)> = Vec::new();
        let n = abi.functions.len();
        let mut i: usize = 0;
        proof {
            assert(pairs.take(0) =~= Seq::<(Seq<char>, MethodDocModel)>::empty());
            assert(groups.deep_view() =~= group_by_key(pairs.take(0)));
        }
        while i < n
            invariant
                0 <= i <= n,
                n == abi.functions@.len(),
                pairs == method_pairs(abi@, dev@, user@),
                pairs.len() == n,
                groups.deep_view() == group_by_key(pairs.take(i as int)),
            decreases n - i,
        {
            proof {
                assert(abi@.functions[i as int] == abi.functions[i as int].deep_view());
                assert(pairs[i as int] == (abi@.functions[i as int].name, method_doc_model(
                    abi@.functions[i as int],
                    dev@,
                    user@,
                )));
            }
            let doc = parse_method(&abi.functions[i], dev, user);
            let key = abi.functions[i].name.clone();
            grouped_insert_exec(&mut groups, key, doc);
            proof {
                let t = pairs.take(i as int + 1);
                assert(t.drop_last() =~= pairs.take(i as int));
                assert(t.last() == pairs[i as int]);
            }
            i = i + 1;
        }
        proof {
            assert(pairs.take(n as int) =~= pairs);
        }
        groups
    }

    /// Resolves every event of the interface and groups the results by
    /// name.
    pub fn parse_events(abi: &Abi, dev: &DevDoc, user: &UserDoc) -> (r: Vec<
        (String, Vec<EventDoc>),
    >)
        ensures
            r.deep_view() == events_model(abi@, dev@, user@),
    {
        let ghost pairs = event_pairs(abi@, dev@, user@);
        let mut groups: Vec<(String, Vec<EventDoc>)> = Vec::new();
        let n = abi.events.len();
        let mut i: usize = 0;
        proof {
            assert(pairs.take(0) =~= Seq::<(Seq<char>, EventDocModel)>::empty());
            assert(groups.deep_view() =~= group_by_key(pairs.take(0)));
        }
        while i < n
            invariant
                0 <= i <= n,
                n == abi.events@.len(),
                pairs == event_pairs(abi@, dev@, user@),
                pairs.len() == n,
                groups.deep_view() == group_by_key(pairs.take(i as int)),
            decreases n - i,
        {
            proof {
                assert(abi@.events[i as int] == abi.events[i as int].deep_view());
                assert(pairs[i as int] == (abi@.events[i as int].name, event_doc_model(
                    abi@.events[i as int],
                    dev@,
                    user@,
                )));
            }
            let doc = parse_event(&abi.events[i], dev, user);
            let key = abi.events[i].name.clone();
            grouped_insert_exec(&mut groups, key, doc);
            proof {
                let t = pairs.take(i as int + 1);
                assert(t.drop_last() =~= pairs.take(i as int));
                assert(t.last() == pairs[i as int]);
            }
            i = i + 1;
        }
        proof {
            assert(pairs.take(n as int) =~= pairs);
        }
        groups
    }

    /// Resolves every error declaration, pairing the two annotation lists
    /// by position, and groups the records by name. Lists that cannot be
    /// paired abort the run.
    pub fn parse_errors(abi: &Abi, dev: &DevDoc, user: &UserDoc) -> (r: Result<
        Vec<(String, Vec<ErrorDoc>)>,
        DocError,
    >)
        ensures
            match r {
                Ok(groups) => errors_len_ok(abi@.errors, dev@, user@) && groups.deep_view()
                    == errors_model(abi@, dev@, user@),
                Err(e) => exists|i: int| mismatch_witness(abi@.errors, dev@, user@, e@, i),
            },
    {
        let ghost decls = abi@.errors;
        let mut groups: Vec<(String, Vec<ErrorDoc>)> = Vec::new();
        let n = abi.errors.len();
        let mut i: usize = 0;
        proof {
            assert(decls.take(0) =~= Seq::<ErrorDeclModel>::empty());
            assert(error_pairs(decls.take(0), dev@, user@) =~= Seq::<
                (Seq<char>, ErrorDocModel),
            >::empty());
            assert(groups.deep_view() =~= group_by_key(error_pairs(decls.take(0), dev@, user@)));
        }
        while i < n
            invariant
                0 <= i <= n,
                n == abi.errors@.len(),
                decls == abi@.errors,
                decls.len() == n,
                groups.deep_view() == group_by_key(error_pairs(decls.take(i as int), dev@, user@)),
                forall|w: int| 0 <= w < i ==> error_lengths_ok(#[trigger] decls[w], dev@, user@),
            decreases n - i,
        {
            proof {
                assert(decls[i as int] == abi.errors[i as int].deep_view());
            }
            let docs = match parse_error_decl(&abi.errors[i], dev, user) {
                Ok(ds) => ds,
                Err(e) => {
                    proof {
                        assert(mismatch_witness(abi@.errors, dev@, user@, e@, i as int));
                    }
                    return Err(e);
                },
            };
            let ghost decl_pairs = error_docs_for_decl(decls[i as int], dev@, user@).map_values(
                |ed: ErrorDocModel| (decls[i as int].name, ed),
            );
            let ghost base = error_pairs(decls.take(i as int), dev@, user@);
            let ghost full = error_docs_for_decl(decls[i as int], dev@, user@);
            let m = docs.len();
            let mut docs = docs;
            let mut w: usize = 0;
            proof {
                assert(base + decl_pairs.take(0) =~= base);
                assert(docs.deep_view() =~= full.skip(0));
            }
            while w < m
                invariant
                    0 <= w <= m,
                    m == full.len(),
                    docs@.len() == m - w,
                    full == error_docs_for_decl(decls[i as int], dev@, user@),
                    docs.deep_view() =~= full.skip(w as int),
                    decl_pairs == full.map_values(
                        |ed: ErrorDocModel| (decls[i as int].name, ed),
                    ),
                    decl_pairs.len() == m,
                    decls == abi@.errors,
                    decls.len() == n,
                    0 <= i < n,
                    decls[i as int] == abi.errors@[i as int].deep_view(),
                    base == error_pairs(decls.take(i as int), dev@, user@),
                    groups.deep_view() == group_by_key(base + decl_pairs.take(w as int)),
                decreases m - w,
            {
                let key = abi.errors[i].name.clone();
                let ghost dv_prev = docs@;
                let ghost dd_prev = docs.deep_view();
                let doc = docs.remove(0);
                proof {
                    assert(doc.deep_view() == full.skip(w as int)[0]);
                    assert(full.skip(w as int)[0] == full[w as int]);
                    assert(decl_pairs[w as int] == (decls[i as int].name, full[w as int]));
                    assert forall|j: int| 0 <= j < docs@.len() implies docs.deep_view()[j]
                        == full.skip(w as int + 1)[j] by {
                        assert(docs.deep_view()[j] == docs@[j].deep_view());
                        assert(docs@[j] == dv_prev[j + 1]);
                        assert(dd_prev[j + 1] == dv_prev[j + 1].deep_view());
                        assert(dd_prev[j + 1] == full.skip(w as int)[j + 1]);
                        assert(full.skip(w as int)[j + 1] == full[w as int + 1 + j]);
                        assert(full.skip(w as int + 1)[j] == full[w as int + 1 + j]);
                    }
                }
                grouped_insert_exec(&mut groups, key, doc);
                proof {
                    let t = base + decl_pairs.take(w as int + 1);
                    assert(t.drop_last() =~= base + decl_pairs.take(w as int));
                    assert(t.last() == decl_pairs[w as int]);
                    assert(groups.deep_view() == group_by_key(t));
                }
                w = w + 1;
            }
            proof {
                let t = decls.take(i as int + 1);
                assert(t.drop_last() =~= decls.take(i as int));
                assert(t.last() == decls[i as int]);
                assert(decl_pairs.take(m as int) =~= decl_pairs);
                assert(error_pairs(t, dev@, user@) == base + decl_pairs);
            }
            i = i + 1;
        }
        proof {
            assert(decls.take(n as int) =~= decls);
        }
        Ok(groups)
    }
}


/// The artifact is complete enough to document: it has an interface
/// description and every error declaration's annotation lists can be
/// paired.
pub open spec fn contract_ok(art: ContractArtifactModel) -> bool {
    &&& art.abi is Some
    &&& errors_len_ok(art.abi->0.errors, art.devdoc, art.userdoc)
}

/// One contract's resolved documentation; meaningful when
/// `contract_ok(art)` holds.
pub open spec fn contract_doc_model(name: Seq<char>, art: ContractArtifactModel) -> ContractDocModel {
    let abi = art.abi->0;
    ContractDocModel {
        name: name,
        title: art.devdoc.title,
        details: art.devdoc.details,
        notice: art.userdoc.notice,
        author: art.devdoc.author,
        methods: methods_model(abi, art.devdoc, art.userdoc),
        events: events_model(abi, art.devdoc, art.userdoc),
        errors: errors_model(abi, art.devdoc, art.userdoc),
    }
}

/// The fatal condition one contract surfaces: a missing interface
/// description, else the first unpairable error declaration.
pub open spec fn contract_error(name: Seq<char>, art: ContractArtifactModel, e: DocErrorModel) -> bool {
    if art.abi is None {
        e == (DocErrorModel::MissingAbi { contract: name })
    } else {
        exists|i: int| mismatch_witness(art.abi->0.errors, art.devdoc, art.userdoc, e, i)
    }
}

impl ContractDoc {
    /// Combines one contract's interface description with its two
    /// annotation records into a single resolved document.
    pub fn new(name: &String, artifact: &ContractArtifact) -> (r: Result<ContractDoc, DocError>)
        ensures
            match r {
                Ok(c) => contract_ok(artifact@) && c@ == contract_doc_model(name@, artifact@),
                Err(e) => !contract_ok(artifact@) && contract_error(name@, artifact@, e@),
            },
    {
        let abi = match &artifact.abi {
            Some(a) => a,
            None => {
                return Err(DocError::MissingAbi { contract: name.clone() });
            },
        };
        proof {
            assert(artifact@.abi == Some(abi.deep_view()));
        }
        let methods = Self::parse_methods(abi, &artifact.devdoc, &artifact.userdoc);
        let events = Self::parse_events(abi, &artifact.devdoc, &artifact.userdoc);
        let errors = match Self::parse_errors(abi, &artifact.devdoc, &artifact.userdoc) {
            Ok(es) => es,
            Err(e) => {
                return Err(e);
            },
        };
        let c = ContractDoc {
            name: name.clone(),
            title: clone_opt_string(&artifact.devdoc.title),
            details: clone_opt_string(&artifact.devdoc.details),
            notice: clone_opt_string(&artifact.userdoc.notice),
            author: clone_opt_string(&artifact.devdoc.author),
            methods,
            events,
            errors,
        };
        proof {
            assert(c@ =~= contract_doc_model(name@, artifact@));
        }
        Ok(c)
    }
}

/// Every contract of one file can be documented.
pub open spec fn contracts_ok(cs: Seq<(Seq<char>, ContractArtifactModel)>) -> bool {
    forall|i: int| 0 <= i < cs.len() ==> contract_ok((#[trigger] cs[i]).1)
}

/// One file's resolved document; meaningful when `contracts_ok(cs)` holds.
pub open spec fn file_doc_model(name: Seq<char>, cs: Seq<(Seq<char>, ContractArtifactModel)>) -> FileDocModel {
    FileDocModel {
        name: name,
        contracts: cs.map_values(
            |c: (Seq<char>, ContractArtifactModel)| contract_doc_model(c.0, c.1),
        ),
    }
}

/// `i` is the first contract of the file that cannot be documented, and
/// `e` is its error.
pub open spec fn file_error_witness(
    cs: Seq<(Seq<char>, ContractArtifactModel)>,
    e: DocErrorModel,
    i: int,
) -> bool {
    &&& 0 <= i < cs.len()
    &&& !contract_ok(cs[i].1)
    &&& forall|w: int| 0 <= w < i ==> contract_ok((#[trigger] cs[w]).1)
    &&& contract_error(cs[i].0, cs[i].1, e)
}

impl FileDoc {
    /// Builds one file's document from the contracts declared in it, in
    /// encounter order.
    pub fn new(name: String, contracts: &Vec<(String, ContractArtifact)>) -> (r: Result<
        FileDoc,
        DocError,
    >)
        ensures
            match r {
                Ok(f) => contracts_ok(contracts.deep_view()) && f@ == file_doc_model(
                    name@,
                    contracts.deep_view(),
                ),
                Err(e) => exists|i: int| file_error_witness(contracts.deep_view(), e@, i),
            },
    {
        let ghost cs = contracts.deep_view();
        let ghost target = file_doc_model(name@, cs);
        let mut out: Vec<ContractDoc> = Vec::new();
        let n = contracts.len();
        let mut i: usize = 0;
        while i < n
            invariant
                0 <= i <= n,
                n == contracts@.len(),
                cs == contracts.deep_view(),
                cs.len() == n,
                target == file_doc_model(name@, cs),
                out@.len() == i,
                forall|j: int| 0 <= j < i ==> contract_ok((#[trigger] cs[j]).1),
                forall|j: int| 0 <= j < i ==> out@[j]@ == target.contracts[j],
            decreases n - i,
        {
            proof {
                assert(cs[i as int] == (contracts@[i as int].0@, contracts@[i as int].1@));
                assert(target.contracts[i as int] == contract_doc_model(
                    cs[i as int].0,
                    cs[i as int].1,
                ));
            }
            let c = match ContractDoc::new(&contracts[i].0, &contracts[i].1) {
                Ok(c) => c,
                Err(e) => {
                    proof {
                        assert(file_error_witness(cs, e@, i as int));
                    }
                    return Err(e);
                },
            };
            out.push(c);
            i = i + 1;
        }
        let f = FileDoc { name, contracts: out };
        proof {
            assert(target.contracts.len() == n);
            assert forall|j: int| 0 <= j < n implies f.contracts.deep_view()[j]
                == target.contracts[j] by {
                assert(f.contracts.deep_view()[j] == f.contracts@[j].deep_view());
            }
            assert(f@ =~= target);
        }
        Ok(f)
    }
}

/// The output-parameter records of a resolved function.
pub open spec fn method_doc_outputs(m: MethodDocModel) -> Seq<ParamDocModel> {
    m.returns
}

/// Law: a function with no developer annotation resolves every input and
/// output description to the sentinel and its details to absent — a
/// lookup miss is a default, never an error.
pub proof fn lemma_undocumented_method_defaults(
    f: FunctionModel,
    dev: DevDocModel,
    user: UserDocModel,
)
    requires
        assoc_find(dev.methods, method_sig_key(f.signature)) is None,
    ensures
        method_doc_model(f, dev, user).details is None,
        forall|i: int|
            0 <= i < f.inputs.len() ==> (#[trigger] method_doc_model(f, dev, user).params[i]).doc
                == sentinel(),
        forall|i: int|
            0 <= i < f.outputs.len() ==> (#[trigger] method_doc_outputs(
                method_doc_model(f, dev, user),
            )[i]).doc == sentinel(),
{
    let m = method_doc_model(f, dev, user);
    assert(method_dev_annotation(f, dev) == default_method_annotation());
    assert forall|i: int| 0 <= i < f.inputs.len() implies (#[trigger] m.params[i]).doc
        == sentinel() by {
        assert(m.params[i] == param_doc_model(f.inputs[i], Seq::empty()));
        assert(assoc_find(Seq::<(Seq<char>, Seq<char>)>::empty(), f.inputs[i].name) is None);
    }
    assert forall|i: int| 0 <= i < f.outputs.len() implies (#[trigger] method_doc_outputs(m)[
        i
    ]).doc == sentinel() by {
        assert(method_doc_outputs(m)[i] == param_doc_model(f.outputs[i], Seq::empty()));
        assert(assoc_find(Seq::<(Seq<char>, Seq<char>)>::empty(), f.outputs[i].name) is None);
    }
}

/// Law: a parameter declared with an empty name resolves to the sentinel
/// name, and its description comes from a lookup under the empty key
/// taken verbatim — never from a positional match.
pub proof fn lemma_empty_param_name(p: ParamModel, docs: Seq<(Seq<char>, Seq<char>)>)
    requires
        p.name.len() == 0,
    ensures
        param_doc_model(p, docs).name == sentinel(),
        param_doc_model(p, docs).doc == resolved_param_desc(Seq::empty(), docs),
{
    assert(p.name =~= Seq::<char>::empty());
}

/// Law: under one signature, developer and user annotation lists of
/// equal length n yield exactly n records, the i-th record pairing the
/// i-th entries of the two lists by position. Unequal lengths abort the
/// run instead (see `parse_errors`), as inconsistent compiler output.
pub proof fn lemma_error_positional_pairing(d: ErrorDeclModel, dev: DevDocModel, user: UserDocModel)
    requires
        error_lengths_ok(d, dev, user),
    ensures
        error_docs_for_decl(d, dev, user).len() == error_dev_list(d, dev).len(),
        forall|i: int|
            0 <= i < error_dev_list(d, dev).len() ==> (#[trigger] error_docs_for_decl(
                d,
                dev,
                user,
            )[i]).details == error_dev_list(d, dev)[i].details,
        forall|i: int|
            0 <= i < error_dev_list(d, dev).len() ==> (#[trigger] error_docs_for_decl(
                d,
                dev,
                user,
            )[i]).notice == Some(notice_text(error_user_list(d, user)[i])),
{
}

} // verus!
