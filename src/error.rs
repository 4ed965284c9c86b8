use vstd::prelude::*;

verus! {

/// Every way a run can fail. Each one is fatal to the run that meets it.
#[derive(PartialEq, Eq, Structural, Debug, Clone, Copy)]
pub enum Error {
    /// A character that starts an operator but forms no known operator.
    UnexpectedOperator,
    /// A string literal with no closing quote.
    UnterminatedString,
    /// A token that cannot start or continue the construct being parsed,
    /// or the end of the tokens where more were needed.
    UnexpectedToken,
    /// `INPUT` not followed by a string literal.
    ExpectedPrompt,
    /// A `FOR` loop without a matching `NEXT <variable>`.
    MismatchedNext,
    /// A builtin call whose arguments are not closed by `)` or separated by `,`.
    MalformedArgumentList,
    /// A number literal that is not an integer in the 64-bit signed range.
    InvalidNumber,
    /// A variable read before any value was bound to it.
    UndefinedVariable,
    /// An assignment to a variable that was never bound.
    AssignToUndeclared,
    /// A call of a builtin that has no implementation.
    UndefinedFunction,
    /// A builtin called with the wrong number or type of arguments.
    InvalidArgument,
    /// An arithmetic or relational operand that is not an integer.
    InvalidOperandType,
    /// An `IF` condition that is not a boolean.
    NonBooleanCondition,
    /// A `FOR` start value that is not an integer.
    InvalidLoopStart,
    /// A `FOR` end value that is not an integer.
    InvalidLoopEnd,
    /// A `FOR` step value that is not an integer.
    InvalidLoopStep,
    /// Integer division by zero.
    DivisionByZero,
    /// Integer arithmetic whose result does not fit in 64 bits.
    ArithmeticOverflow,
    /// An `INPUT` whose target is not a variable name.
    InvalidInputTarget,
    /// An operator lexeme that the evaluator does not know.
    UnknownOperator,
    /// A statement where an expression was expected.
    NotAnExpression,
}

} // verus!
