//! The signature resolver: canonical lookup keys of the form
//! `name(type1,type2,...)` that join interface members against the
//! signature-keyed annotation maps.

use vstd::prelude::*;
use crate::strutil::{find_index, lemma_find_index, find_char};

verus! {

/// The method lookup key: the reported signature truncated at the first
/// colon, which cuts off an appended return-type segment.
pub open spec fn method_sig_key(sig: Seq<char>) -> Seq<char> {
    sig.take(find_index(sig, ':'))
}

/// The `t1,t2,...` segment of a signature key.
pub open spec fn joined_kinds(kinds: Seq<Seq<char>>) -> Seq<char>
    decreases kinds.len(),
{
    if kinds.len() == 0 {
        Seq::empty()
    } else if kinds.len() == 1 {
        kinds[0]
    } else {
        joined_kinds(kinds.drop_last()) + seq![','] + kinds.last()
    }
}

/// The signature key `name(t1,t2,...)` over the given canonical type
/// renderings; the parentheses appear even for an empty type list.
pub open spec fn signature_key(name: Seq<char>, kinds: Seq<Seq<char>>) -> Seq<char> {
    name + seq!['('] + joined_kinds(kinds) + seq![')']
}

/// Truncates a reported method signature at the first colon.
pub fn resolve_method_signature(sig: &str) -> (r: String)
    ensures
        r@ == method_sig_key(sig@),
{
    proof {
        lemma_find_index(sig@, ':');
    }
    let i = find_char(sig, ':');
    let part = sig.substring_char(0, i);
    part.to_owned()
}

/// Builds the signature key `name(k1,k2,...)` from a member name and the
/// canonical renderings of its parameter types.
pub fn build_signature_key(name: &str, kinds: &Vec<String>) -> (r: String)
    ensures
        r@ == signature_key(name@, kinds.deep_view()),
{
    let ghost kd = kinds.deep_view();
    let mut out: String = name.to_owned();
    out.append("(");
    proof {
        reveal_strlit("(");
        assert("("@ =~= seq!['(']);
        assert(kd.take(0) =~= Seq::<Seq<char>>::empty());
        assert(out@ == name@ + seq!['(']);
        assert(out@ =~= name@ + seq!['('] + joined_kinds(kd.take(0)));
    }
    let n = kinds.len();
    let mut i: usize = 0;
    while i < n
        invariant
            0 <= i <= n,
            n == kinds.len(),
            kd == kinds.deep_view(),
            kd.len() == n,
            out@ == name@ + seq!['('] + joined_kinds(kd.take(i as int)),
        decreases n - i,
    {
        proof {
            assert(kd[i as int] == kinds[i as int]@);
        }
        if i > 0 {
            out.append(",");
            proof {
                reveal_strlit(",");
                assert(","@ =~= seq![',']);
            }
        }
        out.append(kinds[i].as_str());
        proof {
            let t = kd.take(i as int + 1);
            assert(t.drop_last() =~= kd.take(i as int));
            assert(t.last() == kd[i as int]);
            if i == 0 {
                assert(joined_kinds(t) == kd[0]);
                assert(out@ =~= name@ + seq!['('] + joined_kinds(t));
            } else {
                assert(joined_kinds(t) == joined_kinds(kd.take(i as int)) + seq![','] + kd[i as int]);
                assert(out@ =~= name@ + seq!['('] + joined_kinds(t));
            }
        }
        i = i + 1;
    }
    out.append(")");
    proof {
        reveal_strlit(")");
        assert(")"@ =~= seq![')']);
        assert(kd.take(n as int) =~= kd);
        assert(out@ =~= name@ + seq!['('] + joined_kinds(kd) + seq![')']);
    }
    out
}

/// Clones the canonical type renderings out of a function or error
/// parameter list.
pub fn param_kinds(params: &Vec<crate::abi::Param>) -> (r: Vec<String>)
    ensures
        r.deep_view() == params.deep_view().map_values(|p: crate::abi::ParamModel| p.kind),
{
    let ghost pd = params.deep_view();
    let ghost target = pd.map_values(|p: crate::abi::ParamModel| p.kind);
    let mut out: Vec<String> = Vec::new();
    let n = params.len();
    let mut i: usize = 0;
    while i < n
        invariant
            0 <= i <= n,
            n == params.len(),
            pd == params.deep_view(),
            target == pd.map_values(|p: crate::abi::ParamModel| p.kind),
            pd.len() == n,
            out@.len() == i,
            forall|j: int| 0 <= j < i ==> out@[j]@ == pd[j].kind,
        decreases n - i,
    {
        proof {
            assert(pd[i as int] == params[i as int].deep_view());
        }
        out.push(params[i].kind.clone());
        i = i + 1;
    }
    proof {
        assert(target.len() == n);
        assert forall|j: int| 0 <= j < n implies out.deep_view()[j] == target[j] by {
            assert(out.deep_view()[j] == out@[j].deep_view());
            assert(target[j] == pd[j].kind);
        }
        assert(out.deep_view() =~= target);
    }
    out
}

/// Clones the canonical type renderings out of an event parameter list.
pub fn event_param_kinds(params: &Vec<crate::abi::EventParam>) -> (r: Vec<String>)
    ensures
        r.deep_view() == params.deep_view().map_values(
            |p: crate::abi::EventParamModel| p.kind,
        ),
{
    let ghost pd = params.deep_view();
    let ghost target = pd.map_values(|p: crate::abi::EventParamModel| p.kind);
    let mut out: Vec<String> = Vec::new();
    let n = params.len();
    let mut i: usize = 0;
    while i < n
        invariant
            0 <= i <= n,
            n == params.len(),
            pd == params.deep_view(),
            target == pd.map_values(|p: crate::abi::EventParamModel| p.kind),
            pd.len() == n,
            out@.len() == i,
            forall|j: int| 0 <= j < i ==> out@[j]@ == pd[j].kind,
        decreases n - i,
    {
        proof {
            assert(pd[i as int] == params[i as int].deep_view());
        }
        out.push(params[i].kind.clone());
        i = i + 1;
    }
    proof {
        assert(target.len() == n);
        assert forall|j: int| 0 <= j < n implies out.deep_view()[j] == target[j] by {
            assert(out.deep_view()[j] == out@[j].deep_view());
            assert(target[j] == pd[j].kind);
        }
        assert(out.deep_view() =~= target);
    }
    out
}


/// Law: signature resolution is deterministic. Every resolver contract
/// pins its key to a function of the member alone, so computing a key
/// twice for the same member yields the identical string.
pub proof fn lemma_signature_resolution_deterministic(
    sig: Seq<char>,
    name: Seq<char>,
    kinds: Seq<Seq<char>>,
    k1: Seq<char>,
    k2: Seq<char>,
    s1: Seq<char>,
    s2: Seq<char>,
)
    requires
        k1 == method_sig_key(sig),
        k2 == method_sig_key(sig),
        s1 == signature_key(name, kinds),
        s2 == signature_key(name, kinds),
    ensures
        k1 == k2,
        s1 == s2,
{
}

} // verus!
