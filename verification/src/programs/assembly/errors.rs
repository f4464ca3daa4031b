use vstd::prelude::*;
use super::text::{ views, join_dot, join_with_dots, decimal, append_decimal };

verus! {

// SPECIFICATIONS
// ================================================================================================

/// Whether `e` is the error for operation `op` at `step` with message `message`.
pub open spec fn is_op_error(e: AssemblyError, op: Seq<&str>, step: usize, message: Seq<char>) -> bool {
    &&& e.message@ == message
    &&& e.step == step
    &&& e.op@ == join_dot(views(op))
}

/// Whether `e` is the error for an operation `op` at `step` with too many parameters.
pub open spec fn is_extra_param(e: AssemblyError, op: Seq<&str>, step: usize) -> bool {
    is_op_error(e, op, step, "malformed operation "@ + op[0]@ + ": too many parameters provided"@)
}

/// Whether `e` is the error for an operation `op` at `step` whose parameter is missing.
pub open spec fn is_missing_param(e: AssemblyError, op: Seq<&str>, step: usize) -> bool {
    is_op_error(e, op, step, "malformed operation "@ + op[0]@ + ": parameter is missing"@)
}

/// Whether `e` is the error for an operation `op` at `step` whose parameter cannot be read.
pub open spec fn is_invalid_param(e: AssemblyError, op: Seq<&str>, step: usize) -> bool {
    is_op_error(e, op, step, "malformed operation "@ + op[0]@ + ": parameter '"@ + op[1]@ + "' is invalid"@)
}

/// Whether `e` is the error for an operation `op` at `step` whose parameter is not allowed for
/// the reason `reason`.
pub open spec fn is_param_reason(e: AssemblyError, op: Seq<&str>, step: usize, reason: Seq<char>) -> bool {
    is_op_error(e, op, step, "malformed operation "@ + op[0]@ + ": "@ + reason)
}

// TYPES AND INTERFACES
// ================================================================================================

/// An error found while compiling assembly code: a message, the index of the token at which it
/// was found, and the operation it concerns.
#[derive(Debug)]
pub struct AssemblyError {
    pub message: String,
    pub step: usize,
    pub op: String,
}

// ASSEMBLY ERROR IMPLEMENTATION
// ================================================================================================

impl AssemblyError {
    // CONSTRUCTORS
    // --------------------------------------------------------------------------------------------

    /// Error for a program without any operation.
    pub fn empty_program() -> (r: AssemblyError)
        ensures
            r.message@ == "a program must contain at least one operation"@,
            r.step == 0,
            r.op@ == "begin"@,
    {
        AssemblyError {
            message: String::from_str("a program must contain at least one operation"),
            step: 0,
            op: String::from_str("begin"),
        }
    }

    /// Error for an unknown operation.
    pub fn invalid_op(op: &[&str], step: usize) -> (r: AssemblyError)
        ensures
            r.message@ == "operation "@ + join_dot(views(op@)) + " is invalid"@,
            r.step == step,
            r.op@ == join_dot(views(op@)),
    {
        let mut message = String::from_str("operation ");
        let joined = join_with_dots(op);
        message.append(joined.as_str());
        message.append(" is invalid");
        AssemblyError { message, step, op: joined }
    }

    /// Error for an operation whose parameter is missing.
    pub fn missing_param(op: &[&str], step: usize) -> (r: AssemblyError)
        requires
            op@.len() >= 1,
        ensures
            r.message@ == "malformed operation "@ + op@[0]@ + ": parameter is missing"@,
            r.step == step,
            r.op@ == join_dot(views(op@)),
    {
        let mut message = String::from_str("malformed operation ");
        message.append(op[0]);
        message.append(": parameter is missing");
        AssemblyError { message, step, op: join_with_dots(op) }
    }

    /// Error for an operation with too many parameters.
    pub fn extra_param(op: &[&str], step: usize) -> (r: AssemblyError)
        requires
            op@.len() >= 1,
        ensures
            r.message@ == "malformed operation "@ + op@[0]@ + ": too many parameters provided"@,
            r.step == step,
            r.op@ == join_dot(views(op@)),
    {
        let mut message = String::from_str("malformed operation ");
        message.append(op[0]);
        message.append(": too many parameters provided");
        AssemblyError { message, step, op: join_with_dots(op) }
    }

    /// Error for an operation whose parameter cannot be read.
    pub fn invalid_param(op: &[&str], step: usize) -> (r: AssemblyError)
        requires
            op@.len() >= 2,
        ensures
            r.message@ == "malformed operation "@ + op@[0]@ + ": parameter '"@ + op@[1]@ + "' is invalid"@,
            r.step == step,
            r.op@ == join_dot(views(op@)),
    {
        let mut message = String::from_str("malformed operation ");
        message.append(op[0]);
        message.append(": parameter '");
        message.append(op[1]);
        message.append("' is invalid");
        AssemblyError { message, step, op: join_with_dots(op) }
    }

    /// Error for an operation whose parameter is not allowed, with the reason why.
    pub fn invalid_param_reason(op: &[&str], step: usize, reason: String) -> (r: AssemblyError)
        requires
            op@.len() >= 1,
        ensures
            r.message@ == "malformed operation "@ + op@[0]@ + ": "@ + reason@,
            r.step == step,
            r.op@ == join_dot(views(op@)),
    {
        let mut message = String::from_str("malformed operation ");
        message.append(op[0]);
        message.append(": ");
        message.append(reason.as_str());
        AssemblyError { message, step, op: join_with_dots(op) }
    }

    /// Error for a block which begins with an unknown token.
    pub fn invalid_block_head(op: &[&str], step: usize) -> (r: AssemblyError)
        requires
            op@.len() >= 1,
        ensures
            r.message@ == "invalid block head '"@ + op@[0]@ + "'"@,
            r.step == step,
            r.op@ == join_dot(views(op@)),
    {
        let mut message = String::from_str("invalid block head '");
        message.append(op[0]);
        message.append("'");
        AssemblyError { message, step, op: join_with_dots(op) }
    }

    /// Error for an `else` without a matching `if`.
    pub fn dangling_else(step: usize) -> (r: AssemblyError)
        ensures
            r.message@ == "else without matching if"@,
            r.step == step,
            r.op@ == "else"@,
    {
        AssemblyError {
            message: String::from_str("else without matching if"),
            step,
            op: String::from_str("else"),
        }
    }

    /// Error for an `end` without a matching block, `if` or `while`.
    pub fn dangling_end(step: usize) -> (r: AssemblyError)
        ensures
            r.message@ == "end without matching block/if/while"@,
            r.step == step,
            r.op@ == "endif"@,
    {
        AssemblyError {
            message: String::from_str("end without matching block/if/while"),
            step,
            op: String::from_str("endif"),
        }
    }

    /// Error for a block without a matching `end`.
    pub fn unmatched_block(step: usize) -> (r: AssemblyError)
        ensures
            r.message@ == "block without matching end"@,
            r.step == step,
            r.op@ == "block"@,
    {
        AssemblyError {
            message: String::from_str("block without matching end"),
            step,
            op: String::from_str("block"),
        }
    }

    /// Error for an `if` without a matching `else` or `end`.
    pub fn unmatched_if(step: usize) -> (r: AssemblyError)
        ensures
            r.message@ == "if without matching else/end"@,
            r.step == step,
            r.op@ == "if.true"@,
    {
        AssemblyError {
            message: String::from_str("if without matching else/end"),
            step,
            op: String::from_str("if.true"),
        }
    }

    /// Error for a `while` without a matching `end`.
    pub fn unmatched_while(step: usize) -> (r: AssemblyError)
        ensures
            r.message@ == "while without matching end"@,
            r.step == step,
            r.op@ == "while.true"@,
    {
        AssemblyError {
            message: String::from_str("while without matching end"),
            step,
            op: String::from_str("while.true"),
        }
    }

    /// Error for an `else` without a matching `end`.
    pub fn unmatched_else(step: usize) -> (r: AssemblyError)
        ensures
            r.message@ == "else without matching end"@,
            r.step == step,
            r.op@ == "else"@,
    {
        AssemblyError {
            message: String::from_str("else without matching end"),
            step,
            op: String::from_str("else"),
        }
    }

    /// Error for an `endif` without a matching `if`.
    pub fn unmatched_endif(step: usize) -> (r: AssemblyError)
        ensures
            r.message@ == "endif without matching if"@,
            r.step == step,
            r.op@ == "endif"@,
    {
        AssemblyError {
            message: String::from_str("endif without matching if"),
            step,
            op: String::from_str("endif"),
        }
    }

    /// Error for an `endif` which closes an `if` without an `else`.
    pub fn missing_else(step: usize) -> (r: AssemblyError)
        ensures
            r.message@ == "if without matching else"@,
            r.step == step,
            r.op@ == "endif"@,
    {
        AssemblyError {
            message: String::from_str("if without matching else"),
            step,
            op: String::from_str("endif"),
        }
    }

    /// Error for an `if` whose `else` is never found.
    pub fn dangling_if(step: usize) -> (r: AssemblyError)
        ensures
            r.message@ == "if without matching else/endif"@,
            r.step == step,
            r.op@ == "if.true"@,
    {
        AssemblyError {
            message: String::from_str("if without matching else/endif"),
            step,
            op: String::from_str("if.true"),
        }
    }

    /// Error for a branch without any operation after its head.
    pub fn empty_branch(branch_head: &str, step: usize) -> (r: AssemblyError)
        ensures
            r.message@ == "branch "@ + branch_head@ + " is empty"@,
            r.step == step,
            r.op@ == branch_head@,
    {
        let mut message = String::from_str("branch ");
        message.append(branch_head);
        message.append(" is empty");
        AssemblyError { message, step, op: String::from_str(branch_head) }
    }

    // PUBLIC ACCESSORS
    // --------------------------------------------------------------------------------------------

    /// Returns the message of the error.
    pub fn message(&self) -> (r: &String)
        ensures
            r@ == self.message@,
    {
        &self.message
    }

    /// Returns the operation the error concerns.
    pub fn operation(&self) -> (r: &String)
        ensures
            r@ == self.op@,
    {
        &self.op
    }

    /// Returns the index of the token at which the error was found.
    pub fn step(&self) -> (r: usize)
        ensures
            r == self.step,
    {
        self.step
    }

    /// Describes the error: "assembly error at STEP: MESSAGE".
    pub fn to_string(&self) -> (r: String)
        ensures
            r@ == "assembly error at "@ + decimal(self.step as nat) + ": "@ + self.message@,
    {
        let mut s = String::from_str("assembly error at ");
        append_decimal(&mut s, self.step as u128);
        s.append(": ");
        s.append(self.message.as_str());
        s
    }
}

} // verus!
