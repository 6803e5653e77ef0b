//! The interface description of one contract: functions, events and errors
//! with their typed parameter lists, as the compiler reports them.

use vstd::prelude::*;

verus! {

/// State mutability tag of an interface function.
#[derive(Clone, Copy, PartialEq, Eq, Structural, Debug)]
pub enum StateMutability {
    Pure,
    View,
    Nonpayable,
    Payable,
}

/// One function or error parameter as the interface description declares it.
pub struct Param {
    /// Declared parameter name; may be empty.
    pub name: String,
    /// Canonical rendering of the parameter's ABI type.
    pub kind: String,
    /// Source-level type, when the compiler reports one.
    pub internal_type: Option<String>,
}

#[verifier::ext_equal]
pub struct ParamModel {
    pub name: Seq<char>,
    pub kind: Seq<char>,
    pub internal_type: Option<Seq<char>>,
}

impl View for Param {
    type V = ParamModel;

    open spec fn view(&self) -> ParamModel {
        ParamModel {
            name: self.name@,
            kind: self.kind@,
            internal_type: self.internal_type.deep_view(),
        }
    }
}

impl DeepView for Param {
    type V = ParamModel;

    open spec fn deep_view(&self) -> ParamModel {
        self.view()
    }
}

/// One event parameter; it carries an indexed flag and no internal type.
pub struct EventParam {
    /// Declared parameter name; may be empty.
    pub name: String,
    /// Canonical rendering of the parameter's ABI type.
    pub kind: String,
    pub indexed: bool,
}

#[verifier::ext_equal]
pub struct EventParamModel {
    pub name: Seq<char>,
    pub kind: Seq<char>,
    pub indexed: bool,
}

impl View for EventParam {
    type V = EventParamModel;

    open spec fn view(&self) -> EventParamModel {
        EventParamModel { name: self.name@, kind: self.kind@, indexed: self.indexed }
    }
}

impl DeepView for EventParam {
    type V = EventParamModel;

    open spec fn deep_view(&self) -> EventParamModel {
        self.view()
    }
}

/// One interface function.
pub struct Function {
    pub name: String,
    /// The signature string the interface layer reports; it may append a
    /// return-type segment after a colon.
    pub signature: String,
    pub state_mutability: StateMutability,
    pub inputs: Vec<Param>,
    pub outputs: Vec<Param>,
}

#[verifier::ext_equal]
pub struct FunctionModel {
    pub name: Seq<char>,
    pub signature: Seq<char>,
    pub state_mutability: StateMutability,
    pub inputs: Seq<ParamModel>,
    pub outputs: Seq<ParamModel>,
}

impl View for Function {
    type V = FunctionModel;

    open spec fn view(&self) -> FunctionModel {
        FunctionModel {
            name: self.name@,
            signature: self.signature@,
            state_mutability: self.state_mutability,
            inputs: self.inputs.deep_view(),
            outputs: self.outputs.deep_view(),
        }
    }
}

impl DeepView for Function {
    type V = FunctionModel;

    open spec fn deep_view(&self) -> FunctionModel {
        self.view()
    }
}

/// One interface event.
pub struct Event {
    pub name: String,
    pub inputs: Vec<EventParam>,
}

#[verifier::ext_equal]
pub struct EventModel {
    pub name: Seq<char>,
    pub inputs: Seq<EventParamModel>,
}

impl View for Event {
    type V = EventModel;

    open spec fn view(&self) -> EventModel {
        EventModel { name: self.name@, inputs: self.inputs.deep_view() }
    }
}

impl DeepView for Event {
    type V = EventModel;

    open spec fn deep_view(&self) -> EventModel {
        self.view()
    }
}

/// One interface error declaration.
pub struct ErrorDecl {
    pub name: String,
    pub inputs: Vec<Param>,
}

#[verifier::ext_equal]
pub struct ErrorDeclModel {
    pub name: Seq<char>,
    pub inputs: Seq<ParamModel>,
}

impl View for ErrorDecl {
    type V = ErrorDeclModel;

    open spec fn view(&self) -> ErrorDeclModel {
        ErrorDeclModel { name: self.name@, inputs: self.inputs.deep_view() }
    }
}

impl DeepView for ErrorDecl {
    type V = ErrorDeclModel;

    open spec fn deep_view(&self) -> ErrorDeclModel {
        self.view()
    }
}

/// The full interface description of one contract, in declaration order.
pub struct Abi {
    pub functions: Vec<Function>,
    pub events: Vec<Event>,
    pub errors: Vec<ErrorDecl>,
}

#[verifier::ext_equal]
pub struct AbiModel {
    pub functions: Seq<FunctionModel>,
    pub events: Seq<EventModel>,
    pub errors: Seq<ErrorDeclModel>,
}

impl View for Abi {
    type V = AbiModel;

    open spec fn view(&self) -> AbiModel {
        AbiModel {
            functions: self.functions.deep_view(),
            events: self.events.deep_view(),
            errors: self.errors.deep_view(),
        }
    }
}

impl DeepView for Abi {
    type V = AbiModel;

    open spec fn deep_view(&self) -> AbiModel {
        self.view()
    }
}

} // verus!
