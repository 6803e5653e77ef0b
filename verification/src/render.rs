//! Signature-line rendering of resolved members, and the Markdown text of
//! the summary outline. The full per-file Markdown rendering is a
//! templating concern outside this crate; these lines are the parts whose
//! shape the document model fixes.

use vstd::prelude::*;
use crate::abi::StateMutability;
use crate::builder::sentinel;
use crate::doc::{ParamDoc, ParamDocModel, MethodDoc, MethodDocModel, EventDoc, EventDocModel,
    ErrorDoc, ErrorDocModel};
use crate::summary::{SummaryEntry, SummaryEntryModel};

verus! {

/// Parts joined by a separator; empty parts list renders empty.
pub open spec fn joined_with(parts: Seq<Seq<char>>, sep: Seq<char>) -> Seq<char>
    decreases parts.len(),
{
    if parts.len() == 0 {
        Seq::empty()
    } else if parts.len() == 1 {
        parts[0]
    } else {
        joined_with(parts.drop_last(), sep) + sep + parts.last()
    }
}

/// One parameter as it appears inside a rendered signature: its type, and
/// its name unless the name is the sentinel.
pub open spec fn param_line(p: ParamDocModel) -> Seq<char> {
    if p.name == sentinel() {
        p.kind
    } else {
        p.kind + " "@ + p.name
    }
}

/// A member's parameters, comma-separated.
pub open spec fn rendered_params(ps: Seq<ParamDocModel>) -> Seq<char> {
    joined_with(ps.map_values(|p: ParamDocModel| param_line(p)), ", "@)
}

/// The keyword a function's mutability renders to.
pub open spec fn mutability_suffix(m: StateMutability) -> Seq<char> {
    match m {
        StateMutability::Pure => " pure"@,
        StateMutability::View => " view"@,
        StateMutability::Nonpayable => " nonpayable"@,
        StateMutability::Payable => " payable"@,
    }
}

/// A function's rendered signature line.
pub open spec fn method_line(m: MethodDocModel) -> Seq<char> {
    "function "@ + m.name + "("@ + rendered_params(m.params) + ") external"@ + mutability_suffix(
        m.state_mutability,
    ) + (if m.returns.len() > 0 {
        " returns ("@ + rendered_params(m.returns) + ")"@
    } else {
        Seq::empty()
    })
}

/// An event's rendered signature line.
pub open spec fn event_line(e: EventDocModel) -> Seq<char> {
    "event "@ + e.name + "("@ + rendered_params(e.params) + ")"@
}

/// An error's rendered signature line.
pub open spec fn error_line(e: ErrorDocModel) -> Seq<char> {
    "error "@ + e.name + "("@ + rendered_params(e.params) + ")"@
}

impl ParamDoc {
    /// Renders the parameter as it appears inside a signature.
    pub fn render(&self) -> (r: String)
        ensures
            r@ == param_line(self@),
    {
        proof {
            reveal_strlit("-");
            assert("-"@ =~= sentinel());
        }
        if self.name.as_str().unicode_len() == 1 && self.name.as_str().get_char(0) == '-' {
            proof {
                assert(self.name@ =~= sentinel());
            }
            self.kind.clone()
        } else {
            proof {
                assert(self.name@ != sentinel());
            }
            let mut r = self.kind.clone();
            r.append(" ");
            r.append(self.name.as_str());
            r
        }
    }
}

/// Renders a parameter list, comma-separated.
fn render_params(ps: &Vec<ParamDoc>) -> (r: String)
    ensures
        r@ == rendered_params(ps.deep_view()),
{
    let ghost parts = ps.deep_view().map_values(|p: ParamDocModel| param_line(p));
    let mut out = String::new();
    let n = ps.len();
    let mut i: usize = 0;
    proof {
        assert(parts.take(0) =~= Seq::<Seq<char>>::empty());
        assert(out@ =~= joined_with(parts.take(0), ", "@));
    }
    while i < n
        invariant
            0 <= i <= n,
            n == ps@.len(),
            parts == ps.deep_view().map_values(|p: ParamDocModel| param_line(p)),
            parts.len() == n,
            out@ == joined_with(parts.take(i as int), ", "@),
        decreases n - i,
    {
        proof {
            assert(ps.deep_view()[i as int] == ps@[i as int].deep_view());
            assert(parts[i as int] == param_line(ps@[i as int]@));
        }
        if i > 0 {
            out.append(", ");
        }
        let line = ps[i].render();
        out.append(line.as_str());
        proof {
            let t = parts.take(i as int + 1);
            assert(t.drop_last() =~= parts.take(i as int));
            assert(t.last() == parts[i as int]);
            if i == 0 {
                assert(out@ =~= joined_with(t, ", "@));
            } else {
                assert(out@ =~= joined_with(t, ", "@));
            }
        }
        i = i + 1;
    }
    proof {
        assert(parts.take(n as int) =~= parts);
    }
    out
}

impl MethodDoc {
    /// Renders the function's external signature line.
    pub fn signature_line(&self) -> (r: String)
        ensures
            r@ == method_line(self@),
    {
        let mut out = String::from_str("function ");
        out.append(self.name.as_str());
        out.append("(");
        let params = render_params(&self.params);
        out.append(params.as_str());
        out.append(") external");
        match self.state_mutability {
            StateMutability::Pure => out.append(" pure"),
            StateMutability::View => out.append(" view"),
            StateMutability::Nonpayable => out.append(" nonpayable"),
            StateMutability::Payable => out.append(" payable"),
        }
        if self.returns.len() > 0 {
            out.append(" returns (");
            let rets = render_params(&self.returns);
            out.append(rets.as_str());
            out.append(")");
        }
        proof {
            assert(out@ =~= method_line(self@));
        }
        out
    }
}

impl EventDoc {
    /// Renders the event's signature line.
    pub fn signature_line(&self) -> (r: String)
        ensures
            r@ == event_line(self@),
    {
        let mut out = String::from_str("event ");
        out.append(self.name.as_str());
        out.append("(");
        let params = render_params(&self.params);
        out.append(params.as_str());
        out.append(")");
        proof {
            assert(out@ =~= event_line(self@));
        }
        out
    }
}

impl ErrorDoc {
    /// Renders the error's signature line.
    pub fn signature_line(&self) -> (r: String)
        ensures
            r@ == error_line(self@),
    {
        let mut out = String::from_str("error ");
        out.append(self.name.as_str());
        out.append("(");
        let params = render_params(&self.params);
        out.append(params.as_str());
        out.append(")");
        proof {
            assert(out@ =~= error_line(self@));
        }
        out
    }
}

/// Four spaces per nesting level.
pub open spec fn indent_of(depth: nat) -> Seq<char>
    decreases depth,
{
    if depth == 0 {
        Seq::empty()
    } else {
        indent_of((depth - 1) as nat) + "    "@
    }
}

/// One outline line: an indented Markdown list item linking the label to
/// its target.
pub open spec fn summary_line(e: SummaryEntryModel) -> Seq<char> {
    indent_of(e.depth) + "- ["@ + e.label + "]("@ + e.link + ")"@ + "\n"@
}

/// The whole outline document.
pub open spec fn summary_text(entries: Seq<SummaryEntryModel>) -> Seq<char>
    decreases entries.len(),
{
    if entries.len() == 0 {
        Seq::empty()
    } else {
        summary_text(entries.drop_last()) + summary_line(entries.last())
    }
}

/// Renders the outline entries as a Markdown nested list.
pub fn render_summary(entries: &Vec<SummaryEntry>) -> (r: String)
    ensures
        r@ == summary_text(entries.deep_view()),
{
    let ghost es = entries.deep_view();
    let mut out = String::new();
    let n = entries.len();
    let mut i: usize = 0;
    proof {
        assert(es.take(0) =~= Seq::<SummaryEntryModel>::empty());
        assert(out@ =~= summary_text(es.take(0)));
    }
    while i < n
        invariant
            0 <= i <= n,
            n == entries@.len(),
            es == entries.deep_view(),
            es.len() == n,
            out@ == summary_text(es.take(i as int)),
        decreases n - i,
    {
        proof {
            assert(es[i as int] == entries@[i as int]@);
        }
        let e = &entries[i];
        let mut d: usize = 0;
        let ghost base = out@;
        proof {
            assert(base + indent_of(0) =~= base);
        }
        while d < e.depth
            invariant
                0 <= d <= e.depth,
                out@ == base + indent_of(d as nat),
            decreases e.depth - d,
        {
            out.append("    ");
            proof {
                assert(indent_of((d + 1) as nat) == indent_of(d as nat) + "    "@);
                assert(base + indent_of(d as nat) + "    "@ =~= base + indent_of((d + 1) as nat));
            }
            d = d + 1;
        }
        out.append("- [");
        out.append(e.label.as_str());
        out.append("](");
        out.append(e.link.as_str());
        out.append(")");
        out.append("\n");
        proof {
            let t = es.take(i as int + 1);
            assert(t.drop_last() =~= es.take(i as int));
            assert(t.last() == es[i as int]);
            assert(out@ =~= summary_text(t));
        }
        i = i + 1;
    }
    proof {
        assert(es.take(n as int) =~= es);
    }
    out
}

} // verus!
