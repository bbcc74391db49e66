use vstd::prelude::*;

verus! {

/// Binary and unary operators.
#[derive(Clone, Copy, Debug, PartialEq, Eq, Structural)]
pub enum Operation {
    Add,
    Sub,
    Mul,
    Div,
    Rem,
    LE,
    LT,
    GT,
    GE,
    Eq,
    NE,
    And,
    Or,
    Not,
    BitAnd,
    BitOr,
}

/// The operator that a token's text spells, if any.
pub open spec fn op_of(s: Seq<char>) -> Option<Operation> {
    if s == "+"@ { Some(Operation::Add) }
    else if s == "-"@ { Some(Operation::Sub) }
    else if s == "*"@ { Some(Operation::Mul) }
    else if s == "/"@ { Some(Operation::Div) }
    else if s == "%"@ { Some(Operation::Rem) }
    else if s == "<"@ { Some(Operation::LT) }
    else if s == ">"@ { Some(Operation::GT) }
    else if s == "<="@ { Some(Operation::LE) }
    else if s == ">="@ { Some(Operation::GE) }
    else if s == "=="@ { Some(Operation::Eq) }
    else if s == "!="@ { Some(Operation::NE) }
    else if s == "&&"@ { Some(Operation::And) }
    else if s == "||"@ { Some(Operation::Or) }
    else if s == "!"@ { Some(Operation::Not) }
    else if s == "&"@ { Some(Operation::BitAnd) }
    else if s == "|"@ { Some(Operation::BitOr) }
    else { None }
}

/// Binding strength: lower binds tighter.
pub open spec fn precedence_of(op: Operation) -> nat {
    match op {
        Operation::Div | Operation::Mul | Operation::Rem | Operation::BitAnd | Operation::BitOr
        | Operation::Not => 0,
        Operation::Add | Operation::Sub => 1,
        Operation::Eq | Operation::NE | Operation::GE | Operation::GT | Operation::LE
        | Operation::LT => 2,
        Operation::And | Operation::Or => 3,
    }
}

/// Whether the operator is a comparison.
pub open spec fn cmp_op(op: Operation) -> bool {
    match op {
        Operation::Eq | Operation::NE | Operation::GE | Operation::GT | Operation::LE
        | Operation::LT => true,
        _ => false,
    }
}

/// Whether the operator is a short-circuit logical one.
pub open spec fn branch_op(op: Operation) -> bool {
    op is And || op is Or
}

/// Binding strength of an operator: lower binds tighter.
pub fn precedence(op: &Operation) -> (r: u8)
    ensures
        r as nat == precedence_of(*op),
{
    match op {
        Operation::Div | Operation::Mul | Operation::Rem | Operation::BitAnd | Operation::BitOr
        | Operation::Not => 0,
        Operation::Add | Operation::Sub => 1,
        Operation::Eq | Operation::NE | Operation::GE | Operation::GT | Operation::LE
        | Operation::LT => 2,
        Operation::And | Operation::Or => 3,
    }
}

/// Whether the operator is a comparison.
pub fn is_cmp(op: &Operation) -> (r: bool)
    ensures
        r == cmp_op(*op),
{
    match op {
        Operation::Eq | Operation::NE | Operation::GE | Operation::GT | Operation::LE
        | Operation::LT => true,
        _ => false,
    }
}

/// Whether the operator is a short-circuit logical one.
pub fn is_branch(op: &Operation) -> (r: bool)
    ensures
        r == branch_op(*op),
{
    match op {
        Operation::And | Operation::Or => true,
        _ => false,
    }
}

} // verus!
