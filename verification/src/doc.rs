//! The resolved document model: per-parameter, per-member, per-contract and
//! per-file records, produced once per generation run and then rendered.

use vstd::prelude::*;
use crate::abi::StateMutability;

verus! {

/// A resolved parameter: its name and description fall back to the `-`
/// sentinel when the declaration or the annotation omits them.
pub struct ParamDoc {
    pub name: String,
    pub kind: String,
    pub internal_type: Option<String>,
    /// Present for event parameters only.
    pub indexed: Option<bool>,
    pub doc: String,
}

#[verifier::ext_equal]
pub struct ParamDocModel {
    pub name: Seq<char>,
    pub kind: Seq<char>,
    pub internal_type: Option<Seq<char>>,
    pub indexed: Option<bool>,
    pub doc: Seq<char>,
}

impl View for ParamDoc {
    type V = ParamDocModel;

    open spec fn view(&self) -> ParamDocModel {
        ParamDocModel {
            name: self.name@,
            kind: self.kind@,
            internal_type: self.internal_type.deep_view(),
            indexed: self.indexed,
            doc: self.doc@,
        }
    }
}

impl DeepView for ParamDoc {
    type V = ParamDocModel;

    open spec fn deep_view(&self) -> ParamDocModel {
        self.view()
    }
}

/// A resolved interface function.
pub struct MethodDoc {
    pub name: String,
    pub details: Option<String>,
    pub notice: Option<String>,
    pub state_mutability: StateMutability,
    pub params: Vec<ParamDoc>,
    pub returns: Vec<ParamDoc>,
}

#[verifier::ext_equal]
pub struct MethodDocModel {
    pub name: Seq<char>,
    pub details: Option<Seq<char>>,
    pub notice: Option<Seq<char>>,
    pub state_mutability: StateMutability,
    pub params: Seq<ParamDocModel>,
    pub returns: Seq<ParamDocModel>,
}

impl View for MethodDoc {
    type V = MethodDocModel;

    open spec fn view(&self) -> MethodDocModel {
        MethodDocModel {
            name: self.name@,
            details: self.details.deep_view(),
            notice: self.notice.deep_view(),
            state_mutability: self.state_mutability,
            params: self.params.deep_view(),
            returns: self.returns.deep_view(),
        }
    }
}

impl DeepView for MethodDoc {
    type V = MethodDocModel;

    open spec fn deep_view(&self) -> MethodDocModel {
        self.view()
    }
}

/// A resolved interface event.
pub struct EventDoc {
    pub name: String,
    pub details: Option<String>,
    pub notice: Option<String>,
    pub params: Vec<ParamDoc>,
}

#[verifier::ext_equal]
pub struct EventDocModel {
    pub name: Seq<char>,
    pub details: Option<Seq<char>>,
    pub notice: Option<Seq<char>>,
    pub params: Seq<ParamDocModel>,
}

impl View for EventDoc {
    type V = EventDocModel;

    open spec fn view(&self) -> EventDocModel {
        EventDocModel {
            name: self.name@,
            details: self.details.deep_view(),
            notice: self.notice.deep_view(),
            params: self.params.deep_view(),
        }
    }
}

impl DeepView for EventDoc {
    type V = EventDocModel;

    open spec fn deep_view(&self) -> EventDocModel {
        self.view()
    }
}

/// One resolved error declaration; several may share a name and even a
/// signature across inheritance contexts.
pub struct ErrorDoc {
    pub name: String,
    pub details: Option<String>,
    pub notice: Option<String>,
    pub params: Vec<ParamDoc>,
}

#[verifier::ext_equal]
pub struct ErrorDocModel {
    pub name: Seq<char>,
    pub details: Option<Seq<char>>,
    pub notice: Option<Seq<char>>,
    pub params: Seq<ParamDocModel>,
}

impl View for ErrorDoc {
    type V = ErrorDocModel;

    open spec fn view(&self) -> ErrorDocModel {
        ErrorDocModel {
            name: self.name@,
            details: self.details.deep_view(),
            notice: self.notice.deep_view(),
            params: self.params.deep_view(),
        }
    }
}

impl DeepView for ErrorDoc {
    type V = ErrorDocModel;

    open spec fn deep_view(&self) -> ErrorDocModel {
        self.view()
    }
}

/// One contract's resolved documentation. Members are grouped by name, the
/// groups ordered lexicographically by name, and overloads kept in
/// declaration order within each group.
pub struct ContractDoc {
    pub name: String,
    pub title: Option<String>,
    pub details: Option<String>,
    pub notice: Option<String>,
    pub author: Option<String>,
    pub methods: Vec<(String, Vec<MethodDoc>)>,
    pub events: Vec<(String, Vec<EventDoc>)>,
    pub errors: Vec<(String, Vec<ErrorDoc>)>,
}

#[verifier::ext_equal]
pub struct ContractDocModel {
    pub name: Seq<char>,
    pub title: Option<Seq<char>>,
    pub details: Option<Seq<char>>,
    pub notice: Option<Seq<char>>,
    pub author: Option<Seq<char>>,
    pub methods: Seq<(Seq<char>, Seq<MethodDocModel>)>,
    pub events: Seq<(Seq<char>, Seq<EventDocModel>)>,
    pub errors: Seq<(Seq<char>, Seq<ErrorDocModel>)>,
}

impl View for ContractDoc {
    type V = ContractDocModel;

    open spec fn view(&self) -> ContractDocModel {
        ContractDocModel {
            name: self.name@,
            title: self.title.deep_view(),
            details: self.details.deep_view(),
            notice: self.notice.deep_view(),
            author: self.author.deep_view(),
            methods: self.methods.deep_view(),
            events: self.events.deep_view(),
            errors: self.errors.deep_view(),
        }
    }
}

impl DeepView for ContractDoc {
    type V = ContractDocModel;

    open spec fn deep_view(&self) -> ContractDocModel {
        self.view()
    }
}

/// One generated document: the canonical relative name (source root and
/// extension stripped) and the contracts declared in that source file.
pub struct FileDoc {
    pub name: String,
    pub contracts: Vec<ContractDoc>,
}

#[verifier::ext_equal]
pub struct FileDocModel {
    pub name: Seq<char>,
    pub contracts: Seq<ContractDocModel>,
}

impl View for FileDoc {
    type V = FileDocModel;

    open spec fn view(&self) -> FileDocModel {
        FileDocModel { name: self.name@, contracts: self.contracts.deep_view() }
    }
}

impl DeepView for FileDoc {
    type V = FileDocModel;

    open spec fn deep_view(&self) -> FileDocModel {
        self.view()
    }
}

/// A fatal condition: malformed compiler output or a filter that has
/// drifted out of sync with the path-stripping step.
#[derive(Debug)]
pub enum DocError {
    /// The artifact reports no interface description for the named contract.
    MissingAbi { contract: String },
    /// A path retained by the filter does not start with the source root.
    SourcePrefixMismatch { path: String },
    /// A path retained by the filter does not end in the source extension.
    SourceExtensionMismatch { path: String },
    /// The glob pattern derived from the source root does not compile.
    InvalidSourceGlob { root: String },
    /// Developer and user annotation lists for the named error member
    /// differ in length, so positional pairing is impossible.
    ErrorNoticeLengthMismatch { name: String },
}

#[verifier::ext_equal]
pub enum DocErrorModel {
    MissingAbi { contract: Seq<char> },
    SourcePrefixMismatch { path: Seq<char> },
    SourceExtensionMismatch { path: Seq<char> },
    InvalidSourceGlob { root: Seq<char> },
    ErrorNoticeLengthMismatch { name: Seq<char> },
}

impl View for DocError {
    type V = DocErrorModel;

    open spec fn view(&self) -> DocErrorModel {
        match self {
            DocError::MissingAbi { contract } => DocErrorModel::MissingAbi { contract: contract@ },
            DocError::SourcePrefixMismatch { path } => DocErrorModel::SourcePrefixMismatch {
                path: path@,
            },
            DocError::SourceExtensionMismatch { path } => DocErrorModel::SourceExtensionMismatch {
                path: path@,
            },
            DocError::InvalidSourceGlob { root } => DocErrorModel::InvalidSourceGlob {
                root: root@,
            },
            DocError::ErrorNoticeLengthMismatch { name } => {
                DocErrorModel::ErrorNoticeLengthMismatch { name: name@ }
            },
        }
    }
}

impl DeepView for DocError {
    type V = DocErrorModel;

    open spec fn deep_view(&self) -> DocErrorModel {
        self.view()
    }
}

} // verus!
