//! The document model: a parsed interface-description source.
//!
//! A `Document` holds interfaces; an `Interface` holds signals; a `Signal`
//! holds an ordered list of typed parameters.  All four are built once per
//! validation run by the parser and never mutated afterwards.

use crate::grammar::is_single_type;
use vstd::prelude::*;

verus! {

/// One typed signal parameter: a single wire-type token, possibly composite.
#[derive(Debug)]
pub struct Parameter {
    pub type_signature: String,
}

/// A named event declaration with an ordered parameter list.
#[derive(Debug)]
pub struct Signal {
    pub name: String,
    pub parameters: Vec<Parameter>,
}

/// A named group of signals, identified by a dot-separated namespace.
#[derive(Debug)]
pub struct Interface {
    pub name: String,
    pub signals: Vec<Signal>,
}

/// One parsed interface-description source; `identifier` is the opaque
/// handle (typically a path) used only for provenance and diagnostics.
#[derive(Debug)]
pub struct Document {
    pub identifier: String,
    pub interfaces: Vec<Interface>,
}

pub struct ParameterView {
    pub type_signature: Seq<char>,
}

pub struct SignalView {
    pub name: Seq<char>,
    pub parameters: Seq<ParameterView>,
}

pub struct InterfaceView {
    pub name: Seq<char>,
    pub signals: Seq<SignalView>,
}

pub struct DocumentView {
    pub identifier: Seq<char>,
    pub interfaces: Seq<InterfaceView>,
}

impl View for Parameter {
    type V = ParameterView;

    open spec fn view(&self) -> ParameterView {
        ParameterView { type_signature: self.type_signature@ }
    }
}

impl View for Signal {
    type V = SignalView;

    open spec fn view(&self) -> SignalView {
        SignalView {
            name: self.name@,
            parameters: self.parameters@.map_values(|p: Parameter| p@),
        }
    }
}

impl View for Interface {
    type V = InterfaceView;

    open spec fn view(&self) -> InterfaceView {
        InterfaceView {
            name: self.name@,
            signals: self.signals@.map_values(|s: Signal| s@),
        }
    }
}

impl View for Document {
    type V = DocumentView;

    open spec fn view(&self) -> DocumentView {
        DocumentView {
            identifier: self.identifier@,
            interfaces: self.interfaces@.map_values(|i: Interface| i@),
        }
    }
}

impl ParameterView {
    /// A parameter is well formed when its type is one complete token of the
    /// wire-type grammar.
    pub open spec fn wf(self) -> bool {
        is_single_type(self.type_signature)
    }
}

impl SignalView {
    pub open spec fn wf(self) -> bool {
        &&& self.name.len() > 0
        &&& forall|i: int| 0 <= i < self.parameters.len() ==> (#[trigger] self.parameters[i]).wf()
    }
}

impl InterfaceView {
    pub open spec fn wf(self) -> bool {
        &&& self.name.len() > 0
        &&& forall|i: int| 0 <= i < self.signals.len() ==> (#[trigger] self.signals[i]).wf()
    }
}

impl DocumentView {
    pub open spec fn wf(self) -> bool {
        forall|i: int| 0 <= i < self.interfaces.len() ==> (#[trigger] self.interfaces[i]).wf()
    }
}

/// The views of a whole document collection, in the caller-chosen order.
pub open spec fn documents_view(documents: Seq<Document>) -> Seq<DocumentView> {
    documents.map_values(|d: Document| d@)
}

} // verus!
