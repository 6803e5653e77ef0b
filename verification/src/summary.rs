//! The hierarchical summary builder: walks the lexicographically sorted
//! document names and emits an indented outline, announcing a directory
//! once when its first descendant appears. The machine remembers only the
//! most recently announced parent directory (a single-slot lookback), a
//! deliberate limitation kept to match the produced outline shape.
//!
//! A document name is treated as a raw character sequence: every separator
//! counts toward the depth and empty segments are not collapsed, so a
//! degenerate name such as `a//b` keeps both separators. No name makes the
//! builder fail.

use vstd::prelude::*;
use crate::strutil::{count_char, count_char_exec, rfind_index, lemma_rfind_index, rfind_char,
    str_starts_with};

verus! {

/// One outline line: nesting depth, display label, link target.
pub struct SummaryEntry {
    pub depth: usize,
    pub label: String,
    pub link: String,
}

#[verifier::ext_equal]
pub struct SummaryEntryModel {
    pub depth: nat,
    pub label: Seq<char>,
    pub link: Seq<char>,
}

impl View for SummaryEntry {
    type V = SummaryEntryModel;

    open spec fn view(&self) -> SummaryEntryModel {
        SummaryEntryModel { depth: self.depth as nat, label: self.label@, link: self.link@ }
    }
}

impl DeepView for SummaryEntry {
    type V = SummaryEntryModel;

    open spec fn deep_view(&self) -> SummaryEntryModel {
        self.view()
    }
}

/// The parent directory path of a document name: everything before the
/// last separator; empty for a root-level name.
pub open spec fn parent_of(name: Seq<char>) -> Seq<char> {
    if rfind_index(name, '/') >= 0 {
        name.take(rfind_index(name, '/'))
    } else {
        Seq::empty()
    }
}

/// The final path segment of a name.
pub open spec fn basename_of(name: Seq<char>) -> Seq<char> {
    name.skip(rfind_index(name, '/') + 1)
}

/// Nesting depth: path segments minus one, i.e. the separator count,
/// every separator counted even in an empty segment.
pub open spec fn depth_of(name: Seq<char>) -> nat {
    count_char(name, '/')
}

/// A link target: the path with the Markdown extension appended.
pub open spec fn md_link(path: Seq<char>) -> Seq<char> {
    path + ".md"@
}

/// The outline line announcing a directory.
pub open spec fn ancestor_entry(parent: Seq<char>) -> SummaryEntryModel {
    SummaryEntryModel { depth: depth_of(parent), label: basename_of(parent), link: md_link(parent) }
}

/// The outline line for one document.
pub open spec fn leaf_entry(name: Seq<char>) -> SummaryEntryModel {
    SummaryEntryModel { depth: depth_of(name), label: basename_of(name), link: md_link(name) }
}

/// One step of the machine: a new ancestor line exactly when the name has
/// a parent directory that is not already a prefix of the remembered
/// base, then the leaf line. Returns the lines and the next base.
pub open spec fn summary_step(base: Seq<char>, name: Seq<char>) -> (Seq<SummaryEntryModel>, Seq<
    char,
>) {
    let parent = parent_of(name);
    if parent.len() > 0 && !parent.is_prefix_of(base) {
        (seq![ancestor_entry(parent), leaf_entry(name)], parent)
    } else {
        (seq![leaf_entry(name)], base)
    }
}

/// The machine run over a name sequence, starting from an empty base.
pub open spec fn summary_run(names: Seq<Seq<char>>) -> (Seq<SummaryEntryModel>, Seq<char>)
    decreases names.len(),
{
    if names.len() == 0 {
        (Seq::empty(), Seq::empty())
    } else {
        let prev = summary_run(names.drop_last());
        let step = summary_step(prev.1, names.last());
        (prev.0 + step.0, step.1)
    }
}

/// The outline of a document-name sequence.
pub open spec fn summary_model(names: Seq<Seq<char>>) -> Seq<SummaryEntryModel> {
    summary_run(names).0
}

/// Splits a document name into its parent directory (empty at the root)
/// and its final segment.
fn split_name(name: &str) -> (r: (String, String))
    ensures
        r.0@ == parent_of(name@),
        r.1@ == basename_of(name@),
{
    proof {
        lemma_rfind_index(name@, '/');
    }
    let n = name.unicode_len();
    match rfind_char(name, '/') {
        Some(p) => {
            let parent = name.substring_char(0, p);
            let base = name.substring_char(p + 1, n);
            (parent.to_owned(), base.to_owned())
        },
        None => {
            proof {
                assert(name@.skip(0) =~= name@);
            }
            let empty = String::new();
            proof {
                assert(empty@ =~= parent_of(name@));
            }
            (empty, name.to_owned())
        },
    }
}

/// Appends the Markdown extension to a path.
fn md_link_exec(path: &String) -> (r: String)
    ensures
        r@ == md_link(path@),
{
    let mut r = path.clone();
    r.append(".md");
    r
}

/// Builds the outline of the given document names, in order. Directories
/// are announced once when sorted input keeps their files contiguous; the
/// machine remembers only the immediately preceding parent.
pub fn build_summary(names: &Vec<String>) -> (r: Vec<SummaryEntry>)
    ensures
        r.deep_view() == summary_model(names.deep_view()),
{
    let ghost nd = names.deep_view();
    let mut out: Vec<SummaryEntry> = Vec::new();
    let mut current_base: String = String::new();
    let n = names.len();
    let mut i: usize = 0;
    proof {
        assert(nd.take(0) =~= Seq::<Seq<char>>::empty());
        assert(out.deep_view() =~= summary_run(nd.take(0)).0);
        assert(current_base@ =~= summary_run(nd.take(0)).1);
    }
    while i < n
        invariant
            0 <= i <= n,
            n == names@.len(),
            nd == names.deep_view(),
            nd.len() == n,
            out.deep_view() == summary_run(nd.take(i as int)).0,
            current_base@ == summary_run(nd.take(i as int)).1,
        decreases n - i,
    {
        proof {
            assert(nd[i as int] == names@[i as int]@);
        }
        let ghost out_prev = out.deep_view();
        let name = &names[i];
        let (parent, base) = split_name(name.as_str());
        let depth = count_char_exec(name.as_str(), '/');
        if parent.as_str().unicode_len() > 0 && !str_starts_with(current_base.as_str(),
            parent.as_str()) {
            let (_, pbase) = split_name(parent.as_str());
            let pdepth = count_char_exec(parent.as_str(), '/');
            let entry = SummaryEntry { depth: pdepth, label: pbase, link: md_link_exec(&parent) };
            proof {
                assert(entry@ =~= ancestor_entry(parent_of(nd[i as int])));
            }
            out.push(entry);
            current_base = parent;
        } else {
            proof {
                assert(parent@.len() > 0 ==> parent@.is_prefix_of(current_base@));
            }
        }
        let leaf = SummaryEntry { depth, label: base, link: md_link_exec(&names[i]) };
        proof {
            assert(leaf@ =~= leaf_entry(nd[i as int]));
        }
        out.push(leaf);
        proof {
            let t = nd.take(i as int + 1);
            assert(t.drop_last() =~= nd.take(i as int));
            assert(t.last() == nd[i as int]);
            let step = summary_step(summary_run(nd.take(i as int)).1, nd[i as int]);
            assert(summary_run(t).0 == summary_run(nd.take(i as int)).0 + step.0);
            assert forall|j: int| 0 <= j < out@.len() implies out.deep_view()[j] == summary_run(
                t,
            ).0[j] by {
                assert(out.deep_view()[j] == out@[j].deep_view());
                if j < out_prev.len() {
                    assert(out_prev[j] == summary_run(nd.take(i as int)).0[j]);
                }
            }
            assert(out.deep_view() =~= summary_run(t).0);
        }
        i = i + 1;
    }
    proof {
        assert(nd.take(n as int) =~= nd);
    }
    out
}

} // verus!
