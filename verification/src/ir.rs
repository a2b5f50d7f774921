//! The intermediate representation produced by a successful parse, together
//! with the mathematical views the contracts are stated over.

use vstd::prelude::*;

verus! {

/// The three classes of signal a declaration can introduce.
#[derive(Clone, Copy, Debug, PartialEq, Eq, Structural)]
pub enum SignalType {
    Input,
    Output,
    Reg,
}

/// One declared signal: `<sig_type> <name>: u<width>;`.
#[derive(Debug)]
pub struct Signal {
    pub name: String,
    pub sig_type: SignalType,
    pub width: u8,
}

/// One combinational binding `<lhs> = <op1> + <op2>;`. The right-hand side
/// is stored in the canonical form `"<op1> + <op2>"`, whatever whitespace
/// the source used.
#[derive(Debug)]
pub struct Assignment {
    pub lhs: String,
    pub rhs: String,
}

/// The root of the intermediate representation: one parsed module, owning
/// its signals and assignments in source order.
#[derive(Debug)]
pub struct Module {
    pub name: String,
    pub signals: Vec<Signal>,
    pub assignments: Vec<Assignment>,
}

/// Opaque failure signal of the parser: it carries no position or
/// diagnostic payload.
#[derive(Clone, Copy, Debug, PartialEq, Eq, Structural)]
pub struct ParseError;

/// Mathematical view of a [`Signal`].
pub struct SignalView {
    pub name: Seq<char>,
    pub sig_type: SignalType,
    pub width: u8,
}

/// Mathematical view of an [`Assignment`].
pub struct AssignmentView {
    pub lhs: Seq<char>,
    pub rhs: Seq<char>,
}

/// Mathematical view of a [`Module`].
pub struct ModuleView {
    pub name: Seq<char>,
    pub signals: Seq<SignalView>,
    pub assignments: Seq<AssignmentView>,
}

impl View for Signal {
    type V = SignalView;

    open spec fn view(&self) -> SignalView {
        SignalView { name: self.name@, sig_type: self.sig_type, width: self.width }
    }
}

impl View for Assignment {
    type V = AssignmentView;

    open spec fn view(&self) -> AssignmentView {
        AssignmentView { lhs: self.lhs@, rhs: self.rhs@ }
    }
}

/// The views of a sequence of signals, in order.
pub open spec fn signal_views(v: Seq<Signal>) -> Seq<SignalView> {
    v.map_values(|s: Signal| s@)
}

/// The views of a sequence of assignments, in order.
pub open spec fn assignment_views(v: Seq<Assignment>) -> Seq<AssignmentView> {
    v.map_values(|a: Assignment| a@)
}

impl View for Module {
    type V = ModuleView;

    open spec fn view(&self) -> ModuleView {
        ModuleView {
            name: self.name@,
            signals: signal_views(self.signals@),
            assignments: assignment_views(self.assignments@),
        }
    }
}

} // verus!
