//! The two annotation sources of one contract: the developer-facing record
//! (details and per-parameter descriptions) and the user-facing record
//! (notices), both keyed by member signature.

use vstd::prelude::*;

verus! {

/// A signature-keyed association list; keys are member signature strings.
/// Lookups return the first entry with the given key.
pub open spec fn assoc_find<V>(m: Seq<(Seq<char>, V)>, k: Seq<char>) -> Option<V>
    decreases m.len(),
{
    if m.len() == 0 {
        None
    } else if m[0].0 == k {
        Some(m[0].1)
    } else {
        assoc_find(m.drop_first(), k)
    }
}

/// Looks `k` up in the association list `m`, by string contents.
pub fn assoc_get<'a, V: DeepView>(m: &'a Vec<(String, V)>, k: &String) -> (r: Option<&'a V>)
    ensures
        match r {
            Some(v) => assoc_find(m.deep_view(), k@) == Some(v.deep_view()),
            None => assoc_find(m.deep_view(), k@) is None,
        },
{
    let ghost md = m.deep_view();
    let n = m.len();
    let mut i: usize = 0;
    proof {
        assert(md.skip(0) =~= md);
        assert(md.len() == n);
    }
    while i < n
        invariant
            0 <= i <= n,
            n == m.len(),
            md == m.deep_view(),
            md.len() == n,
            assoc_find(md, k@) == assoc_find(md.skip(i as int), k@),
        decreases n - i,
    {
        proof {
            assert(md[i as int] == (m[i as int].0@, m[i as int].1.deep_view()));
            assert(md.skip(i as int)[0] == md[i as int]);
        }
        if crate::strutil::string_eq(&m[i].0, k) {
            return Some(&m[i].1);
        }
        proof {
            assert(md.skip(i as int).drop_first() =~= md.skip(i as int + 1));
        }
        i = i + 1;
    }
    proof {
        assert(md.skip(n as int).len() == 0);
    }
    None
}

/// Developer annotation of one method: details and name-keyed descriptions
/// of its inputs and outputs.
pub struct MethodAnnotation {
    pub details: Option<String>,
    pub params: Vec<(String, String)>,
    pub returns: Vec<(String, String)>,
}

#[verifier::ext_equal]
pub struct MethodAnnotationModel {
    pub details: Option<Seq<char>>,
    pub params: Seq<(Seq<char>, Seq<char>)>,
    pub returns: Seq<(Seq<char>, Seq<char>)>,
}

impl View for MethodAnnotation {
    type V = MethodAnnotationModel;

    open spec fn view(&self) -> MethodAnnotationModel {
        MethodAnnotationModel {
            details: self.details.deep_view(),
            params: self.params.deep_view(),
            returns: self.returns.deep_view(),
        }
    }
}

impl DeepView for MethodAnnotation {
    type V = MethodAnnotationModel;

    open spec fn deep_view(&self) -> MethodAnnotationModel {
        self.view()
    }
}

/// Developer annotation of one event or one error declaration.
pub struct EventAnnotation {
    pub details: Option<String>,
    pub params: Vec<(String, String)>,
}

#[verifier::ext_equal]
pub struct EventAnnotationModel {
    pub details: Option<Seq<char>>,
    pub params: Seq<(Seq<char>, Seq<char>)>,
}

impl View for EventAnnotation {
    type V = EventAnnotationModel;

    open spec fn view(&self) -> EventAnnotationModel {
        EventAnnotationModel {
            details: self.details.deep_view(),
            params: self.params.deep_view(),
        }
    }
}

impl DeepView for EventAnnotation {
    type V = EventAnnotationModel;

    open spec fn deep_view(&self) -> EventAnnotationModel {
        self.view()
    }
}

/// Developer annotation of one error declaration; the same signature may be
/// annotated once per declaration context, so the containing map holds lists.
pub struct ErrorAnnotation {
    pub details: Option<String>,
    pub params: Vec<(String, String)>,
}

#[verifier::ext_equal]
pub struct ErrorAnnotationModel {
    pub details: Option<Seq<char>>,
    pub params: Seq<(Seq<char>, Seq<char>)>,
}

impl View for ErrorAnnotation {
    type V = ErrorAnnotationModel;

    open spec fn view(&self) -> ErrorAnnotationModel {
        ErrorAnnotationModel {
            details: self.details.deep_view(),
            params: self.params.deep_view(),
        }
    }
}

impl DeepView for ErrorAnnotation {
    type V = ErrorAnnotationModel;

    open spec fn deep_view(&self) -> ErrorAnnotationModel {
        self.view()
    }
}

/// A user-facing notice: the constructor form and the plain form carry the
/// same kind of text payload and are unwrapped identically.
pub enum UserDocNotice {
    Constructor(String),
    Notice(String),
}

#[verifier::ext_equal]
pub enum UserDocNoticeModel {
    Constructor(Seq<char>),
    Notice(Seq<char>),
}

impl View for UserDocNotice {
    type V = UserDocNoticeModel;

    open spec fn view(&self) -> UserDocNoticeModel {
        match self {
            UserDocNotice::Constructor(s) => UserDocNoticeModel::Constructor(s@),
            UserDocNotice::Notice(s) => UserDocNoticeModel::Notice(s@),
        }
    }
}

impl DeepView for UserDocNotice {
    type V = UserDocNoticeModel;

    open spec fn deep_view(&self) -> UserDocNoticeModel {
        self.view()
    }
}

/// The text payload of a notice, whichever form carries it.
pub open spec fn notice_text(n: UserDocNoticeModel) -> Seq<char> {
    match n {
        UserDocNoticeModel::Constructor(s) => s,
        UserDocNoticeModel::Notice(s) => s,
    }
}

impl UserDocNotice {
    /// Unwraps the text payload, whichever form carries it.
    pub fn text(&self) -> (r: &String)
        ensures
            r@ == notice_text(self@),
    {
        match self {
            UserDocNotice::Constructor(s) => s,
            UserDocNotice::Notice(s) => s,
        }
    }
}

/// The developer-facing annotation record of one contract.
pub struct DevDoc {
    pub title: Option<String>,
    pub details: Option<String>,
    pub author: Option<String>,
    pub methods: Vec<(String, MethodAnnotation)>,
    pub events: Vec<(String, EventAnnotation)>,
    pub errors: Vec<(String, Vec<ErrorAnnotation>)>,
}

#[verifier::ext_equal]
pub struct DevDocModel {
    pub title: Option<Seq<char>>,
    pub details: Option<Seq<char>>,
    pub author: Option<Seq<char>>,
    pub methods: Seq<(Seq<char>, MethodAnnotationModel)>,
    pub events: Seq<(Seq<char>, EventAnnotationModel)>,
    pub errors: Seq<(Seq<char>, Seq<ErrorAnnotationModel>)>,
}

impl View for DevDoc {
    type V = DevDocModel;

    open spec fn view(&self) -> DevDocModel {
        DevDocModel {
            title: self.title.deep_view(),
            details: self.details.deep_view(),
            author: self.author.deep_view(),
            methods: self.methods.deep_view(),
            events: self.events.deep_view(),
            errors: self.errors.deep_view(),
        }
    }
}

impl DeepView for DevDoc {
    type V = DevDocModel;

    open spec fn deep_view(&self) -> DevDocModel {
        self.view()
    }
}

/// The user-facing annotation record of one contract.
pub struct UserDoc {
    pub notice: Option<String>,
    pub methods: Vec<(String, UserDocNotice)>,
    pub events: Vec<(String, UserDocNotice)>,
    pub errors: Vec<(String, Vec<UserDocNotice>)>,
}

#[verifier::ext_equal]
pub struct UserDocModel {
    pub notice: Option<Seq<char>>,
    pub methods: Seq<(Seq<char>, UserDocNoticeModel)>,
    pub events: Seq<(Seq<char>, UserDocNoticeModel)>,
    pub errors: Seq<(Seq<char>, Seq<UserDocNoticeModel>)>,
}

impl View for UserDoc {
    type V = UserDocModel;

    open spec fn view(&self) -> UserDocModel {
        UserDocModel {
            notice: self.notice.deep_view(),
            methods: self.methods.deep_view(),
            events: self.events.deep_view(),
            errors: self.errors.deep_view(),
        }
    }
}

impl DeepView for UserDoc {
    type V = UserDocModel;

    open spec fn deep_view(&self) -> UserDocModel {
        self.view()
    }
}

/// Everything the compiler reports for one contract: the interface
/// description (absent only in malformed output) and the two annotation
/// records.
pub struct ContractArtifact {
    pub abi: Option<crate::abi::Abi>,
    pub devdoc: DevDoc,
    pub userdoc: UserDoc,
}

#[verifier::ext_equal]
pub struct ContractArtifactModel {
    pub abi: Option<crate::abi::AbiModel>,
    pub devdoc: DevDocModel,
    pub userdoc: UserDocModel,
}

impl View for ContractArtifact {
    type V = ContractArtifactModel;

    open spec fn view(&self) -> ContractArtifactModel {
        ContractArtifactModel {
            abi: self.abi.deep_view(),
            devdoc: self.devdoc@,
            userdoc: self.userdoc@,
        }
    }
}

impl DeepView for ContractArtifact {
    type V = ContractArtifactModel;

    open spec fn deep_view(&self) -> ContractArtifactModel {
        self.view()
    }
}

} // verus!
