//! The lines of a function body.

use vstd::prelude::*;

verus! {

/// A declaration of registers: what follows `.reg` and the blanks after it.
#[derive(Debug, Clone, Copy, PartialEq, Eq)]
pub struct Register<'a> {
    pub raw_string: &'a [char],
}

/// The instructions that the classifier knows by name.
#[derive(Debug, Clone, Copy, PartialEq, Eq)]
pub enum OperationKind<'a> {
    LdParamU32,
    MovU32,
    MadLoS32,
    SetpLtS32,
    LdParamU64,
    CvtaToGlobalU64,
    MulWideS32,
    AddS64,
    LdGlobalF32,
    MulRnF32,
    StGlobalF32,
    MovU64,
    CvtaGlobalU64,
    SetpGeS32,
    CvtS64S32,
    AddU64,
    MulLoS32,
    /// A mnemonic that is not in the table.
    Unknown(&'a [char]),
}

/// An instruction: its kind and the text of its operands.
#[derive(Debug, Clone, Copy, PartialEq, Eq)]
pub struct Operation<'a> {
    pub operation: OperationKind<'a>,
    pub arguments: &'a [char],
}

/// The guard of a branch: the register, taken as it is or negated.
#[derive(Debug, Clone, Copy, PartialEq, Eq)]
pub enum Predicate<'a> {
    True(&'a [char]),
    False(&'a [char]),
}

/// A branch to a label, guarded or not.
#[derive(Debug, Clone, Copy, PartialEq, Eq)]
pub struct Goto<'a> {
    pub predicate: Option<Predicate<'a>>,
    pub label: &'a [char],
}

/// One line of a function body.
#[derive(Debug, Clone, Copy, PartialEq, Eq)]
pub enum BodyLine<'a> {
    Register(Register<'a>),
    Operation(Operation<'a>),
    Label(&'a [char]),
    Goto(Goto<'a>),
    Return,
    FunctionCallEntry(&'a [char]),
    FunctionCallExit(&'a [char]),
    Unknown(&'a [char]),
}

/// The mathematical value of an [`OperationKind`].
pub ghost enum OperationKindView {
    LdParamU32,
    MovU32,
    MadLoS32,
    SetpLtS32,
    LdParamU64,
    CvtaToGlobalU64,
    MulWideS32,
    AddS64,
    LdGlobalF32,
    MulRnF32,
    StGlobalF32,
    MovU64,
    CvtaGlobalU64,
    SetpGeS32,
    CvtS64S32,
    AddU64,
    MulLoS32,
    Unknown(Seq<char>),
}

/// The mathematical value of an [`Operation`].
pub ghost struct OperationView {
    pub operation: OperationKindView,
    pub arguments: Seq<char>,
}

/// The mathematical value of a [`Predicate`].
pub ghost enum PredicateView {
    True(Seq<char>),
    False(Seq<char>),
}

/// The mathematical value of a [`Goto`].
pub ghost struct GotoView {
    pub predicate: Option<PredicateView>,
    pub label: Seq<char>,
}

/// The mathematical value of a [`BodyLine`].
pub ghost enum BodyLineView {
    Register(Seq<char>),
    Operation(OperationView),
    Label(Seq<char>),
    Goto(GotoView),
    Return,
    FunctionCallEntry(Seq<char>),
    FunctionCallExit(Seq<char>),
    Unknown(Seq<char>),
}

impl<'a> View for Register<'a> {
    type V = Seq<char>;

    open spec fn view(&self) -> Seq<char> {
        self.raw_string@
    }
}

impl<'a> View for OperationKind<'a> {
    type V = OperationKindView;

    open spec fn view(&self) -> OperationKindView {
        match self {
            OperationKind::LdParamU32 => OperationKindView::LdParamU32,
            OperationKind::MovU32 => OperationKindView::MovU32,
            OperationKind::MadLoS32 => OperationKindView::MadLoS32,
            OperationKind::SetpLtS32 => OperationKindView::SetpLtS32,
            OperationKind::LdParamU64 => OperationKindView::LdParamU64,
            OperationKind::CvtaToGlobalU64 => OperationKindView::CvtaToGlobalU64,
            OperationKind::MulWideS32 => OperationKindView::MulWideS32,
            OperationKind::AddS64 => OperationKindView::AddS64,
            OperationKind::LdGlobalF32 => OperationKindView::LdGlobalF32,
            OperationKind::MulRnF32 => OperationKindView::MulRnF32,
            OperationKind::StGlobalF32 => OperationKindView::StGlobalF32,
            OperationKind::MovU64 => OperationKindView::MovU64,
            OperationKind::CvtaGlobalU64 => OperationKindView::CvtaGlobalU64,
            OperationKind::SetpGeS32 => OperationKindView::SetpGeS32,
            OperationKind::CvtS64S32 => OperationKindView::CvtS64S32,
            OperationKind::AddU64 => OperationKindView::AddU64,
            OperationKind::MulLoS32 => OperationKindView::MulLoS32,
            OperationKind::Unknown(m) => OperationKindView::Unknown(m@),
        }
    }
}

impl<'a> View for Operation<'a> {
    type V = OperationView;

    open spec fn view(&self) -> OperationView {
        OperationView { operation: self.operation@, arguments: self.arguments@ }
    }
}

impl<'a> View for Predicate<'a> {
    type V = PredicateView;

    open spec fn view(&self) -> PredicateView {
        match self {
            Predicate::True(r) => PredicateView::True(r@),
            Predicate::False(r) => PredicateView::False(r@),
        }
    }
}

impl<'a> View for Goto<'a> {
    type V = GotoView;

    open spec fn view(&self) -> GotoView {
        GotoView {
            predicate: match self.predicate {
                Some(p) => Some(p@),
                None => None,
            },
            label: self.label@,
        }
    }
}

impl<'a> View for BodyLine<'a> {
    type V = BodyLineView;

    open spec fn view(&self) -> BodyLineView {
        match self {
            BodyLine::Register(r) => BodyLineView::Register(r@),
            BodyLine::Operation(o) => BodyLineView::Operation(o@),
            BodyLine::Label(l) => BodyLineView::Label(l@),
            BodyLine::Goto(g) => BodyLineView::Goto(g@),
            BodyLine::Return => BodyLineView::Return,
            BodyLine::FunctionCallEntry(t) => BodyLineView::FunctionCallEntry(t@),
            BodyLine::FunctionCallExit(t) => BodyLineView::FunctionCallExit(t@),
            BodyLine::Unknown(t) => BodyLineView::Unknown(t@),
        }
    }
}

impl<'a> BodyLine<'a> {
    /// The instruction, where the line is one.
    pub fn operation(self) -> (r: Option<Operation<'a>>)
        ensures
            match self {
                BodyLine::Operation(o) => r == Some(o),
                _ => r is None,
            },
    {
        match self {
            BodyLine::Operation(operation) => Some(operation),
            _ => None,
        }
    }
}

} // verus!
