use vstd::prelude::*;

verus! {

/// Why an operand could not be lowered to code bytes.
#[derive(Copy, Clone, Debug, PartialEq, Eq, Structural)]
pub enum OperandIssue {
    /// A label usage stood where the opcode expects a register.
    LabelInRegisterSlot,
    /// A label usage named a symbol with no resolved offset.
    UnresolvedLabel,
    /// A token that can never be a code operand, such as a string literal.
    UnexpectedToken,
    /// More operands than the opcode's shape admits.
    TooManyOperands,
    /// The operand bytes would push the instruction past four bytes.
    InstructionTooWide,
    /// An `.asciiz` directive without a string operand.
    MissingString,
}

/// The mathematical content of an assembler diagnostic.
pub enum AssemblerErrorV {
    ParseError { error: Seq<u8> },
    NoSegmentDeclarationFound { instruction: u32 },
    StringConstantDeclaredWithoutLabel { instruction: u32 },
    SymbolAlreadyDeclared { name: Seq<u8> },
    UnknownDirectiveFound { directive: Seq<u8> },
    InsufficientSections,
    InvalidOperand { reason: OperandIssue },
}

/// A structured assembler diagnostic; see the error handling policy in the
/// crate documentation. `ParseError` aborts assembly; the others are
/// collected across pass one.
#[derive(Debug, PartialEq)]
pub enum AssemblerError {
    ParseError { error: Vec<u8> },
    NoSegmentDeclarationFound { instruction: u32 },
    StringConstantDeclaredWithoutLabel { instruction: u32 },
    SymbolAlreadyDeclared { name: Vec<u8> },
    UnknownDirectiveFound { directive: Vec<u8> },
    InsufficientSections,
    InvalidOperand { reason: OperandIssue },
}

impl View for AssemblerError {
    type V = AssemblerErrorV;

    open spec fn view(&self) -> AssemblerErrorV {
        match self {
            AssemblerError::ParseError { error } => AssemblerErrorV::ParseError { error: error@ },
            AssemblerError::NoSegmentDeclarationFound { instruction } => (
            AssemblerErrorV::NoSegmentDeclarationFound { instruction: *instruction }),
            AssemblerError::StringConstantDeclaredWithoutLabel { instruction } => (
            AssemblerErrorV::StringConstantDeclaredWithoutLabel { instruction: *instruction }),
            AssemblerError::SymbolAlreadyDeclared { name } => AssemblerErrorV::SymbolAlreadyDeclared {
                name: name@,
            },
            AssemblerError::UnknownDirectiveFound { directive } => (
            AssemblerErrorV::UnknownDirectiveFound { directive: directive@ }),
            AssemblerError::InsufficientSections => AssemblerErrorV::InsufficientSections,
            AssemblerError::InvalidOperand { reason } => AssemblerErrorV::InvalidOperand {
                reason: *reason,
            },
        }
    }
}

/// The views of a list of diagnostics.
pub open spec fn errors_view(v: Seq<AssemblerError>) -> Seq<AssemblerErrorV> {
    v.map_values(|e: AssemblerError| e@)
}

/// Copies one diagnostic.
pub fn clone_error(e: &AssemblerError) -> (r: AssemblerError)
    ensures
        r@ == e@,
{
    match e {
        AssemblerError::ParseError { error } => AssemblerError::ParseError {
            error: vstd::slice::slice_to_vec(error.as_slice()),
        },
        AssemblerError::NoSegmentDeclarationFound { instruction } => (
        AssemblerError::NoSegmentDeclarationFound { instruction: *instruction }),
        AssemblerError::StringConstantDeclaredWithoutLabel { instruction } => (
        AssemblerError::StringConstantDeclaredWithoutLabel { instruction: *instruction }),
        AssemblerError::SymbolAlreadyDeclared { name } => AssemblerError::SymbolAlreadyDeclared {
            name: vstd::slice::slice_to_vec(name.as_slice()),
        },
        AssemblerError::UnknownDirectiveFound { directive } => (
        AssemblerError::UnknownDirectiveFound {
            directive: vstd::slice::slice_to_vec(directive.as_slice()),
        }),
        AssemblerError::InsufficientSections => AssemblerError::InsufficientSections,
        AssemblerError::InvalidOperand { reason } => AssemblerError::InvalidOperand {
            reason: *reason,
        },
    }
}

/// Copies a list of diagnostics.
pub fn clone_errors(v: &Vec<AssemblerError>) -> (r: Vec<AssemblerError>)
    ensures
        errors_view(r@) == errors_view(v@),
{
    let mut out: Vec<AssemblerError> = Vec::new();
    let mut i: usize = 0;
    while i < v.len()
        invariant
            0 <= i <= v@.len(),
            out@.len() == i,
            forall|j: int| 0 <= j < i ==> out@[j]@ == v@[j]@,
        decreases v@.len() - i,
    {
        out.push(clone_error(&v[i]));
        i = i + 1;
    }
    proof {
        assert(errors_view(out@) =~= errors_view(v@));
    }
    out
}

} // verus!
