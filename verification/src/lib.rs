//! Builds navigable Markdown documentation models from a smart-contract
//! compiler's structured output: an interface description (functions, events,
//! errors) joined with developer- and user-facing annotation maps, grouped by
//! source file and summarized in a nested table of contents.

pub mod abi;
pub mod builder;
pub mod doc;
pub mod globmatch;
pub mod group;
pub mod pipeline;
pub mod render;
pub mod natspec;
pub mod sig;
pub mod summary;
pub mod strutil;

use vstd::prelude::*;

verus! {

use crate::doc::{DocError, FileDoc, FileDocModel};
use crate::pipeline::{build_documents, documents_error, documents_model, documents_ok, strips_ok,
    SourceContract};
use crate::globmatch::source_glob_ok;
use crate::summary::{build_summary, summary_model, SummaryEntry};

/// The names of a document sequence, in order.
pub open spec fn doc_names(docs: Seq<FileDocModel>) -> Seq<Seq<char>> {
    docs.map_values(|f: FileDocModel| f.name)
}

/// One generation run: the resolved documents in lexicographic name
/// order, and the outline over their names.
pub fn generate(root: &str, entries: Vec<SourceContract>) -> (r: Result<
    (Vec<FileDoc>, Vec<SummaryEntry>),
    DocError,
>)
    ensures
        match r {
            Ok(p) => {
                &&& source_glob_ok(root@)
                &&& strips_ok(entries.deep_view(), root@)
                &&& documents_ok(entries.deep_view(), root@)
                &&& p.0.deep_view() == documents_model(entries.deep_view(), root@)
                &&& p.1.deep_view() == summary_model(
                    doc_names(documents_model(entries.deep_view(), root@)),
                )
            },
            Err(e) => documents_error(entries.deep_view(), root@, e@),
        },
{
    let docs = match build_documents(root, entries) {
        Ok(d) => d,
        Err(e) => {
            return Err(e);
        },
    };
    let ghost dm = docs.deep_view();
    let mut names: Vec<String> = Vec::new();
    let n = docs.len();
    let mut i: usize = 0;
    while i < n
        invariant
            0 <= i <= n,
            n == docs@.len(),
            dm == docs.deep_view(),
            dm.len() == n,
            names@.len() == i,
            forall|j: int| 0 <= j < i ==> names@[j]@ == (#[trigger] dm[j]).name,
        decreases n - i,
    {
        proof {
            assert(dm[i as int] == docs@[i as int].deep_view());
        }
        names.push(docs[i].name.clone());
        i = i + 1;
    }
    proof {
        assert(doc_names(dm).len() == n);
        assert forall|j: int| 0 <= j < n implies names.deep_view()[j] == doc_names(dm)[j] by {
            assert(names.deep_view()[j] == names@[j]@);
            assert(doc_names(dm)[j] == dm[j].name);
        }
        assert(names.deep_view() =~= doc_names(dm));
    }
    let entries_out = build_summary(&names);
    Ok((docs, entries_out))
}

/// Law: one run is a pure function of its input — two runs over the same
/// artifact produce identical document sets and identical outlines, so
/// the written files agree byte for byte.
pub proof fn lemma_generation_deterministic(
    entries: Seq<crate::pipeline::SourceContractModel>,
    root: Seq<char>,
    d1: Seq<FileDocModel>,
    d2: Seq<FileDocModel>,
    s1: Seq<crate::summary::SummaryEntryModel>,
    s2: Seq<crate::summary::SummaryEntryModel>,
)
    requires
        d1 == documents_model(entries, root),
        d2 == documents_model(entries, root),
        s1 == summary_model(doc_names(d1)),
        s2 == summary_model(doc_names(d2)),
    ensures
        d1 == d2,
        s1 == s2,
        crate::render::summary_text(s1) == crate::render::summary_text(s2),
{
}

} // verus!
