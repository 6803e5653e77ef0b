//! The whole aggregation pass: filter the compiler's (path, contract,
//! artifact) triples by the source-root glob, strip each retained path to
//! its canonical document name, group contracts by document name, and
//! build one resolved document per file.

use vstd::prelude::*;
use crate::builder::{contract_ok, contracts_ok, file_doc_model, file_error_witness};
use crate::doc::{DocError, DocErrorModel, FileDoc, FileDocModel};
use crate::globmatch::{glob_compiles, glob_matches, source_glob_match, source_glob_ok,
    source_pattern, source_pattern_exec};
use crate::group::{group_by_key, grouped_insert_exec, keys_sorted, has_key,
    lemma_group_by_key_sorted};
use crate::natspec::{ContractArtifact, ContractArtifactModel};
use crate::strutil::{strip_dir_prefix, strip_sol_suffix, strip_source_prefix, strip_sol_extension,
    lex_lt};

verus! {

/// One compiler-output triple: source file path, contract name, artifact.
pub struct SourceContract {
    pub path: String,
    pub contract: String,
    pub artifact: ContractArtifact,
}

#[verifier::ext_equal]
pub struct SourceContractModel {
    pub path: Seq<char>,
    pub contract: Seq<char>,
    pub artifact: ContractArtifactModel,
}

impl View for SourceContract {
    type V = SourceContractModel;

    open spec fn view(&self) -> SourceContractModel {
        SourceContractModel { path: self.path@, contract: self.contract@, artifact: self.artifact@ }
    }
}

impl DeepView for SourceContract {
    type V = SourceContractModel;

    open spec fn deep_view(&self) -> SourceContractModel {
        self.view()
    }
}

/// The canonical document name of a path under the source root: the
/// `<root>/` prefix and the `.sol` extension both stripped.
pub open spec fn doc_name_of(path: Seq<char>, root: Seq<char>) -> Option<Seq<char>> {
    match strip_dir_prefix(path, root) {
        Some(rest) => strip_sol_suffix(rest),
        None => None,
    }
}

/// Every triple the filter retains can be stripped to a document name.
/// The filter guarantees this for ordinary roots; a violation is an
/// internal-invariant error.
pub open spec fn strips_ok(entries: Seq<SourceContractModel>, root: Seq<char>) -> bool {
    forall|i: int|
        0 <= i < entries.len() ==> (source_glob_match(root, (#[trigger] entries[i]).path)
            ==> doc_name_of(entries[i].path, root) is Some)
}

/// The retained triples keyed by document name, in input order.
pub open spec fn grouped_pairs(entries: Seq<SourceContractModel>, root: Seq<char>) -> Seq<
    (Seq<char>, (Seq<char>, ContractArtifactModel)),
>
    decreases entries.len(),
{
    if entries.len() == 0 {
        Seq::empty()
    } else {
        grouped_pairs(entries.drop_last(), root) + (if source_glob_match(
            root,
            entries.last().path,
        ) {
            seq![
                (
                    doc_name_of(entries.last().path, root)->0,
                    (entries.last().contract, entries.last().artifact),
                ),
            ]
        } else {
            Seq::<(Seq<char>, (Seq<char>, ContractArtifactModel))>::empty()
        })
    }
}

/// Contracts grouped by document name: names sorted lexicographically,
/// contracts of one file in encounter order.
pub open spec fn grouped_model(entries: Seq<SourceContractModel>, root: Seq<char>) -> Seq<
    (Seq<char>, Seq<(Seq<char>, ContractArtifactModel)>),
> {
    group_by_key(grouped_pairs(entries, root))
}

/// The resolved documents, one per retained source file, in name order;
/// meaningful when every grouped contract is documentable.
pub open spec fn documents_model(entries: Seq<SourceContractModel>, root: Seq<char>) -> Seq<
    FileDocModel,
> {
    grouped_model(entries, root).map_values(
        |g: (Seq<char>, Seq<(Seq<char>, ContractArtifactModel)>)| file_doc_model(g.0, g.1),
    )
}

/// Every contract of every retained file is documentable.
pub open spec fn documents_ok(entries: Seq<SourceContractModel>, root: Seq<char>) -> bool {
    forall|i: int|
        0 <= i < grouped_model(entries, root).len() ==> contracts_ok(
            (#[trigger] grouped_model(entries, root)[i]).1,
        )
}

/// The error a retained but unstrippable path surfaces: whichever of the
/// prefix and the extension failed.
pub open spec fn strip_error_for(path: Seq<char>, root: Seq<char>) -> DocErrorModel {
    if strip_dir_prefix(path, root) is None {
        DocErrorModel::SourcePrefixMismatch { path: path }
    } else {
        DocErrorModel::SourceExtensionMismatch { path: path }
    }
}

/// `i` is the first retained triple whose path cannot be stripped, and
/// `e` reports it.
pub open spec fn strip_failure_witness(
    entries: Seq<SourceContractModel>,
    root: Seq<char>,
    e: DocErrorModel,
    i: int,
) -> bool {
    &&& 0 <= i < entries.len()
    &&& source_glob_match(root, entries[i].path)
    &&& doc_name_of(entries[i].path, root) is None
    &&& forall|w: int|
        0 <= w < i ==> (source_glob_match(root, (#[trigger] entries[w]).path) ==> doc_name_of(
            entries[w].path,
            root,
        ) is Some)
    &&& e == strip_error_for(entries[i].path, root)
}

/// `i` is the first document group holding an undocumentable contract,
/// and `e` is that contract's error.
pub open spec fn build_failure_witness(
    entries: Seq<SourceContractModel>,
    root: Seq<char>,
    e: DocErrorModel,
    i: int,
) -> bool {
    &&& 0 <= i < grouped_model(entries, root).len()
    &&& !contracts_ok(grouped_model(entries, root)[i].1)
    &&& forall|w: int|
        0 <= w < i ==> contracts_ok((#[trigger] grouped_model(entries, root)[w]).1)
    &&& exists|j: int| file_error_witness(grouped_model(entries, root)[i].1, e, j)
}

/// The fatal conditions of the aggregation pass, in the order they are
/// detected: an uncompilable source-root glob; then the first retained
/// path the stripping logic cannot handle; then the first contract, in
/// document order, that cannot be documented.
pub open spec fn documents_error(
    entries: Seq<SourceContractModel>,
    root: Seq<char>,
    e: DocErrorModel,
) -> bool {
    ||| (!source_glob_ok(root) && e == (DocErrorModel::InvalidSourceGlob { root: root }))
    ||| (source_glob_ok(root) && exists|i: int| strip_failure_witness(entries, root, e, i))
    ||| (source_glob_ok(root) && strips_ok(entries, root) && exists|i: int|
        build_failure_witness(entries, root, e, i))
}

/// Runs the aggregation pass: filter, strip, group, and build one
/// document per retained source file, in lexicographic name order. Fails
/// on a source root whose glob does not compile, on a retained path the
/// stripping logic cannot handle, and on the first contract that cannot
/// be documented.
pub fn build_documents(root: &str, entries: Vec<SourceContract>) -> (r: Result<
    Vec<FileDoc>,
    DocError,
>)
    ensures
        match r {
            Ok(docs) => {
                &&& source_glob_ok(root@)
                &&& strips_ok(entries.deep_view(), root@)
                &&& documents_ok(entries.deep_view(), root@)
                &&& docs.deep_view() == documents_model(entries.deep_view(), root@)
            },
            Err(e) => documents_error(entries.deep_view(), root@, e@),
        },
{
    let ghost ed = entries.deep_view();
    let pattern = source_pattern_exec(root);
    if !glob_compiles(pattern.as_str()) {
        return Err(DocError::InvalidSourceGlob { root: root.to_owned() });
    }
    let mut grouped: Vec<(String, Vec<(String, ContractArtifact)>)> = Vec::new();
    let mut rem = entries;
    let n = rem.len();
    let mut i: usize = 0;
    proof {
        assert(ed.len() == n);
        assert(ed.take(0) =~= Seq::<SourceContractModel>::empty());
        assert(grouped_pairs(ed.take(0), root@) =~= Seq::<
            (Seq<char>, (Seq<char>, ContractArtifactModel)),
        >::empty());
        assert(grouped.deep_view() =~= group_by_key(grouped_pairs(ed.take(0), root@)));
    }
    while i < n
        invariant
            0 <= i <= n,
            ed == entries.deep_view(),
            ed.len() == n,
            rem@.len() == n - i,
            pattern@ == source_pattern(root@),
            source_glob_ok(root@),
            forall|j: int| 0 <= j < n - i ==> rem@[j].deep_view() == ed[i + j],
            grouped.deep_view() == group_by_key(grouped_pairs(ed.take(i as int), root@)),
            forall|w: int|
                0 <= w < i ==> (source_glob_match(root@, (#[trigger] ed[w]).path)
                    ==> doc_name_of(ed[w].path, root@) is Some),
        decreases n - i,
    {
        let ghost rem_prev = rem@;
        let e = rem.remove(0);
        proof {
            assert(e.deep_view() == ed[i as int]);
            assert forall|j: int| 0 <= j < n - i - 1 implies rem@[j].deep_view() == ed[i + 1
                + j] by {
                assert(rem@[j] == rem_prev[j + 1]);
            }
        }
        let matched = glob_matches(pattern.as_str(), e.path.as_str());
        if matched {
            let stripped = match strip_source_prefix(e.path.as_str(), root) {
                Some(s) => s,
                None => {
                    let err = DocError::SourcePrefixMismatch { path: e.path };
                    proof {
                        assert(doc_name_of(ed[i as int].path, root@) is None);
                        assert(err@ == (DocErrorModel::SourcePrefixMismatch {
                            path: ed[i as int].path,
                        }));
                        assert(strip_failure_witness(entries.deep_view(), root@, err@, i as int));
                    }
                    return Err(err);
                },
            };
            let docname = match strip_sol_extension(stripped.as_str()) {
                Some(s) => s,
                None => {
                    let err = DocError::SourceExtensionMismatch { path: e.path };
                    proof {
                        assert(doc_name_of(ed[i as int].path, root@) is None);
                        assert(err@ == (DocErrorModel::SourceExtensionMismatch {
                            path: ed[i as int].path,
                        }));
                        assert(strip_failure_witness(entries.deep_view(), root@, err@, i as int));
                    }
                    return Err(err);
                },
            };
            proof {
                assert(doc_name_of(ed[i as int].path, root@) == Some(docname@));
            }
            grouped_insert_exec(&mut grouped, docname, (e.contract, e.artifact));
            proof {
                let t = ed.take(i as int + 1);
                assert(t.drop_last() =~= ed.take(i as int));
                assert(t.last() == ed[i as int]);
                let p = grouped_pairs(ed.take(i as int), root@);
                let tp = grouped_pairs(t, root@);
                assert(tp == p + seq![
                    (doc_name_of(ed[i as int].path, root@)->0, (ed[i as int].contract, ed[
                        i as int
                    ].artifact)),
                ]);
                assert(tp.drop_last() =~= p);
                assert(tp.last() == (docname@, (ed[i as int].contract, ed[i as int].artifact)));
                assert(grouped.deep_view() == group_by_key(tp));
            }
        } else {
            proof {
                let t = ed.take(i as int + 1);
                assert(t.drop_last() =~= ed.take(i as int));
                assert(t.last() == ed[i as int]);
                assert(grouped_pairs(t, root@) =~= grouped_pairs(ed.take(i as int), root@));
                assert(grouped.deep_view() == group_by_key(grouped_pairs(t, root@)));
            }
        }
        i = i + 1;
    }
    proof {
        assert(ed.take(n as int) =~= ed);
        assert(strips_ok(ed, root@));
    }
    let ghost gm = grouped_model(ed, root@);
    let ghost target = documents_model(ed, root@);
    let mut out: Vec<FileDoc> = Vec::new();
    let m = grouped.len();
    let mut w: usize = 0;
    proof {
        assert(gm.len() == m);
        assert(target.len() == m);
    }
    while w < m
        invariant
            0 <= w <= m,
            grouped@.len() == m,
            grouped.deep_view() == gm,
            gm == grouped_model(ed, root@),
            target == documents_model(ed, root@),
            gm.len() == m,
            target.len() == m,
            ed == entries.deep_view(),
            source_glob_ok(root@),
            strips_ok(ed, root@),
            out@.len() == w,
            forall|j: int| 0 <= j < w ==> contracts_ok((#[trigger] gm[j]).1),
            forall|j: int| 0 <= j < w ==> out@[j]@ == target[j],
        decreases m - w,
    {
        proof {
            assert(gm[w as int] == (grouped@[w as int].0@, grouped@[w as int].1.deep_view()));
            assert(target[w as int] == file_doc_model(gm[w as int].0, gm[w as int].1));
        }
        let name = grouped[w].0.clone();
        let f = match FileDoc::new(name, &grouped[w].1) {
            Ok(f) => f,
            Err(e) => {
                proof {
                    assert(build_failure_witness(ed, root@, e@, w as int));
                }
                return Err(e);
            },
        };
        out.push(f);
        w = w + 1;
    }
    proof {
        assert(documents_ok(ed, root@));
        assert forall|j: int| 0 <= j < m implies out.deep_view()[j] == target[j] by {
            assert(out.deep_view()[j] == out@[j].deep_view());
        }
        assert(out.deep_view() =~= target);
    }
    Ok(out)
}

/// `key` is the document name of some input triple that the filter
/// retained.
pub open spec fn from_matched_entry(
    entries: Seq<SourceContractModel>,
    root: Seq<char>,
    key: Seq<char>,
) -> bool {
    exists|j: int|
        0 <= j < entries.len() && source_glob_match(root, (#[trigger] entries[j]).path)
            && doc_name_of(entries[j].path, root) == Some(key)
}

pub proof fn lemma_grouped_pairs_matched(entries: Seq<SourceContractModel>, root: Seq<char>)
    requires
        strips_ok(entries, root),
    ensures
        forall|i: int|
            0 <= i < grouped_pairs(entries, root).len() ==> from_matched_entry(
                entries,
                root,
                (#[trigger] grouped_pairs(entries, root)[i]).0,
            ),
    decreases entries.len(),
{
    if entries.len() > 0 {
        let prev = entries.drop_last();
        assert forall|w: int|
            0 <= w < prev.len() implies (source_glob_match(root, (#[trigger] prev[w]).path)
            ==> doc_name_of(prev[w].path, root) is Some) by {
            assert(prev[w] == entries[w]);
        }
        lemma_grouped_pairs_matched(prev, root);
        let gp = grouped_pairs(entries, root);
        assert forall|i: int| 0 <= i < gp.len() implies from_matched_entry(
            entries,
            root,
            (#[trigger] gp[i]).0,
        ) by {
            if i < grouped_pairs(prev, root).len() {
                assert(gp[i] == grouped_pairs(prev, root)[i]);
                assert(from_matched_entry(prev, root, gp[i].0));
                let j = choose|j: int|
                    0 <= j < prev.len() && source_glob_match(root, (#[trigger] prev[j]).path)
                        && doc_name_of(prev[j].path, root) == Some(gp[i].0);
                assert(entries[j] == prev[j]);
                assert(source_glob_match(root, entries[j].path));
            } else {
                assert(source_glob_match(root, entries.last().path));
                assert(doc_name_of(entries.last().path, root) is Some);
                assert(gp[i].0 == doc_name_of(entries.last().path, root)->0);
                let j = entries.len() - 1;
                assert(source_glob_match(root, entries[j].path) && doc_name_of(
                    entries[j].path,
                    root,
                ) == Some(gp[i].0));
            }
        }
    }
}

/// Law: file grouping never includes a path outside the configured
/// source-root glob — every document's name is the stripped name of some
/// input triple whose path the glob matched, for arbitrary paths mixed in
/// the input.
pub proof fn lemma_documents_only_matched(entries: Seq<SourceContractModel>, root: Seq<char>)
    requires
        strips_ok(entries, root),
    ensures
        forall|i: int|
            0 <= i < documents_model(entries, root).len() ==> from_matched_entry(
                entries,
                root,
                (#[trigger] documents_model(entries, root)[i]).name,
            ),
{
    lemma_grouped_pairs_matched(entries, root);
    lemma_group_by_key_sorted(grouped_pairs(entries, root));
    let gm = grouped_model(entries, root);
    let dm = documents_model(entries, root);
    assert forall|i: int| 0 <= i < dm.len() implies from_matched_entry(
        entries,
        root,
        (#[trigger] dm[i]).name,
    ) by {
        assert(dm[i] == file_doc_model(gm[i].0, gm[i].1));
        assert(has_key(grouped_pairs(entries, root), gm[i].0));
        let w = choose|w: int|
            0 <= w < grouped_pairs(entries, root).len() && (#[trigger] grouped_pairs(
                entries,
                root,
            )[w].0) == gm[i].0;
        assert(from_matched_entry(entries, root, grouped_pairs(entries, root)[w].0));
    }
}

/// Law: documents come out ordered strictly by lexicographic comparison
/// of their names.
pub proof fn lemma_documents_sorted(entries: Seq<SourceContractModel>, root: Seq<char>)
    ensures
        forall|i: int, j: int|
            0 <= i < j < documents_model(entries, root).len() ==> lex_lt(
                (#[trigger] documents_model(entries, root)[i]).name,
                (#[trigger] documents_model(entries, root)[j]).name,
            ),
{
    lemma_group_by_key_sorted(grouped_pairs(entries, root));
    let gm = grouped_model(entries, root);
    let dm = documents_model(entries, root);
    assert forall|i: int, j: int| 0 <= i < j < dm.len() implies lex_lt(
        (#[trigger] dm[i]).name,
        (#[trigger] dm[j]).name,
    ) by {
        assert(dm[i] == file_doc_model(gm[i].0, gm[i].1));
        assert(dm[j] == file_doc_model(gm[j].0, gm[j].1));
        assert(keys_sorted(gm));
        assert(lex_lt(gm[i].0, gm[j].0));
    }
}


/// Law: the aggregation is a pure function of the artifact triples and
/// the source root; two runs over the same input yield identical
/// document sets.
pub proof fn lemma_documents_deterministic(
    entries: Seq<SourceContractModel>,
    root: Seq<char>,
    d1: Seq<FileDocModel>,
    d2: Seq<FileDocModel>,
)
    requires
        d1 == documents_model(entries, root),
        d2 == documents_model(entries, root),
    ensures
        d1 == d2,
{
}

} // verus!
