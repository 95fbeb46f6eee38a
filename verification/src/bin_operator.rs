use vstd::prelude::*;
use vstd::string::StringExecFns;

verus! {

/// The binary operators of SimpleSL.
#[derive(Debug, Clone, Copy, PartialEq, Eq, Structural)]
pub enum BinOperator {
    Add,
    Subtract,
    Multiply,
    Divide,
    Modulo,
    Pow,
    Equal,
    NotEqual,
    Greater,
    GreaterOrEqual,
    Lower,
    LowerOrEqual,
    And,
    Or,
    BitwiseAnd,
    BitwiseOr,
    Xor,
    LShift,
    RShift,
    Filter,
    MapOp,
    At,
    FunctionCall,
    Assign,
    AssignAdd,
    AssignSubtract,
    AssignMultiply,
    AssignDivide,
    AssignModulo,
    AssignLShift,
    AssignRShift,
    AssignBitwiseAnd,
    AssignBitwiseOr,
    AssignXor,
    AssignPow,
}


/// How an operator is written.
pub open spec fn op_text(op: BinOperator) -> Seq<char> {
    match op {
        BinOperator::Add => "+"@,
        BinOperator::Subtract => "-"@,
        BinOperator::Multiply => "*"@,
        BinOperator::Divide => "/"@,
        BinOperator::Modulo => "%"@,
        BinOperator::Pow => "**"@,
        BinOperator::Equal => "=="@,
        BinOperator::NotEqual => "!="@,
        BinOperator::Greater => ">"@,
        BinOperator::GreaterOrEqual => ">="@,
        BinOperator::Lower => "<"@,
        BinOperator::LowerOrEqual => "<="@,
        BinOperator::And => "&&"@,
        BinOperator::Or => "||"@,
        BinOperator::BitwiseAnd => "&"@,
        BinOperator::BitwiseOr => "|"@,
        BinOperator::Xor => "^"@,
        BinOperator::LShift => "<<"@,
        BinOperator::RShift => ">>"@,
        BinOperator::Filter => "?"@,
        BinOperator::MapOp => "@"@,
        BinOperator::At => "At"@,
        BinOperator::FunctionCall => "FunctionCall"@,
        BinOperator::Assign => "="@,
        BinOperator::AssignAdd => "+="@,
        BinOperator::AssignSubtract => "-="@,
        BinOperator::AssignMultiply => "*="@,
        BinOperator::AssignDivide => "/="@,
        BinOperator::AssignModulo => "%="@,
        BinOperator::AssignLShift => "<<="@,
        BinOperator::AssignRShift => ">>="@,
        BinOperator::AssignBitwiseAnd => "&="@,
        BinOperator::AssignBitwiseOr => "|="@,
        BinOperator::AssignXor => "^="@,
        BinOperator::AssignPow => "**="@,
    }
}

impl BinOperator {
    /// How this operator is written.
    pub fn to_string(&self) -> (r: String)
        ensures
            r@ == op_text(*self),
    {
        let s = match self {
            BinOperator::Add => "+",
            BinOperator::Subtract => "-",
            BinOperator::Multiply => "*",
            BinOperator::Divide => "/",
            BinOperator::Modulo => "%",
            BinOperator::Pow => "**",
            BinOperator::Equal => "==",
            BinOperator::NotEqual => "!=",
            BinOperator::Greater => ">",
            BinOperator::GreaterOrEqual => ">=",
            BinOperator::Lower => "<",
            BinOperator::LowerOrEqual => "<=",
            BinOperator::And => "&&",
            BinOperator::Or => "||",
            BinOperator::BitwiseAnd => "&",
            BinOperator::BitwiseOr => "|",
            BinOperator::Xor => "^",
            BinOperator::LShift => "<<",
            BinOperator::RShift => ">>",
            BinOperator::Filter => "?",
            BinOperator::MapOp => "@",
            BinOperator::At => "At",
            BinOperator::FunctionCall => "FunctionCall",
            BinOperator::Assign => "=",
            BinOperator::AssignAdd => "+=",
            BinOperator::AssignSubtract => "-=",
            BinOperator::AssignMultiply => "*=",
            BinOperator::AssignDivide => "/=",
            BinOperator::AssignModulo => "%=",
            BinOperator::AssignLShift => "<<=",
            BinOperator::AssignRShift => ">>=",
            BinOperator::AssignBitwiseAnd => "&=",
            BinOperator::AssignBitwiseOr => "|=",
            BinOperator::AssignXor => "^=",
            BinOperator::AssignPow => "**=",
        };
        String::from_str(s)
    }
}

} // verus!
