use vstd::prelude::*;
use crate::token_type::{
    BlockView, NumberView, RefinedStandardKeyword, RefinedTokenView,
};

verus! {

/// The four binary operators.
#[derive(Debug, Clone, Copy, PartialEq, Eq, Structural)]
pub enum ArithOp {
    Add,
    Sub,
    Mul,
    Div,
}

/// One step of a decimal computation in postfix order: a literal, by its
/// text, or an operator applied to the two results before it, the earlier
/// one as its left operand.
#[derive(Debug, Clone, PartialEq, Eq)]
pub enum DecimalStep {
    Literal(String),
    Apply(ArithOp),
}

/// The content of a step.
pub enum DecimalStepView {
    Literal(Seq<char>),
    Apply(ArithOp),
}

impl View for DecimalStep {
    type V = DecimalStepView;

    open spec fn view(&self) -> DecimalStepView {
        match self {
            DecimalStep::Literal(t) => DecimalStepView::Literal(t@),
            DecimalStep::Apply(op) => DecimalStepView::Apply(*op),
        }
    }
}

/// The contents of a list of steps.
pub open spec fn steps_view(s: Seq<DecimalStep>) -> Seq<DecimalStepView> {
    Seq::new(s.len(), |i: int| s[i]@)
}

/// A value on the stack. An integer is held as such. A decimal value is held
/// as the postfix computation that yields it, which the embedding program
/// carries out when it needs the number; no operation of the language
/// depends on the number itself.
#[derive(Debug, Clone, PartialEq, Eq)]
pub enum StackValue {
    Float64(Vec<DecimalStep>),
    ISize(isize),
}

/// The content of a stack value.
pub enum StackValueView {
    Float64(Seq<DecimalStepView>),
    ISize(isize),
}

impl View for StackValue {
    type V = StackValueView;

    open spec fn view(&self) -> StackValueView {
        match self {
            StackValue::Float64(s) => StackValueView::Float64(steps_view(s@)),
            StackValue::ISize(n) => StackValueView::ISize(*n),
        }
    }
}

/// The contents of a list of stack values, the top of a stack last.
pub open spec fn stack_view(s: Seq<StackValue>) -> Seq<StackValueView> {
    Seq::new(s.len(), |i: int| s[i]@)
}

/// Why an execution that was given a stack stopped.
#[derive(Debug, Clone, Copy, PartialEq, Eq, Structural)]
pub enum StackExecuteErr {
    /// A value was needed and the stack was empty.
    EmptyStackPop,
    /// An operator met an integer and a decimal value.
    TypeMismatch,
    /// A call of a name that the block's own table does not hold.
    UndefinedCall,
    /// A type annotation, a type cast or `stdin`.
    Unsupported,
    /// An integer result that the machine word cannot hold.
    Overflow,
    /// An integer division by zero.
    DivisionByZero,
}

/// Why an execution without a stack stopped.
#[derive(Debug, Clone, Copy, PartialEq, Eq, Structural)]
pub enum ExecuteErr {
    /// The item works on a stack only.
    RequiresStack,
    /// The execution on a fresh stack stopped with this error.
    Stack(StackExecuteErr),
}

/// The stack and the values written out so far, in order.
pub struct Machine {
    pub stack: Seq<StackValueView>,
    pub written: Seq<StackValueView>,
}

/// Where an execution left the machine, and how it ended.
pub struct Outcome {
    pub after: Machine,
    pub result: Result<(), StackExecuteErr>,
}

/// The machine that a stack and a list of written values stand for.
pub open spec fn machine_of(stack: Seq<StackValue>, written: Seq<StackValue>) -> Machine {
    Machine { stack: stack_view(stack), written: stack_view(written) }
}

/// The integer quotient rounded towards zero, for a divisor other than zero.
pub open spec fn quotient(x: int, d: int) -> int {
    if x == 0 {
        0
    } else if x > 0 && d > 0 {
        x / d
    } else if x < 0 && d < 0 {
        (-x) / (-d)
    } else if x < 0 {
        -((-x) / d)
    } else {
        -(x / (-d))
    }
}

/// `left op right` on integers, before the result is fitted into a word.
pub open spec fn int_result(op: ArithOp, left: int, right: int) -> Result<int, StackExecuteErr> {
    match op {
        ArithOp::Add => Ok(left + right),
        ArithOp::Sub => Ok(left - right),
        ArithOp::Mul => Ok(left * right),
        ArithOp::Div => if right == 0 {
            Err(StackExecuteErr::DivisionByZero)
        } else {
            Ok(quotient(left, right))
        },
    }
}

/// `left op right` on two stack values: both integers or both decimal.
pub open spec fn combine(op: ArithOp, left: StackValueView, right: StackValueView) -> Result<
    StackValueView,
    StackExecuteErr,
> {
    match (left, right) {
        (StackValueView::ISize(l), StackValueView::ISize(r)) => match int_result(
            op,
            l as int,
            r as int,
        ) {
            Err(e) => Err(e),
            Ok(v) => if isize::MIN <= v <= isize::MAX {
                Ok(StackValueView::ISize(v as isize))
            } else {
                Err(StackExecuteErr::Overflow)
            },
        },
        (StackValueView::Float64(l), StackValueView::Float64(r)) => Ok(
            StackValueView::Float64(l + r + seq![DecimalStepView::Apply(op)]),
        ),
        _ => Err(StackExecuteErr::TypeMismatch),
    }
}

/// The machine stopped by `e` in state `m`.
pub open spec fn stopped(m: Machine, e: StackExecuteErr) -> Outcome {
    Outcome { after: m, result: Err(e) }
}

/// The machine that goes on in state `m`.
pub open spec fn going(m: Machine) -> Outcome {
    Outcome { after: m, result: Ok(()) }
}

/// A binary operator on the machine: the top of the stack leaves it first
/// and is the left operand, the value below it leaves second and is the
/// right operand; the result takes their place. A value that has left the
/// stack stays off it when the operator fails.
pub open spec fn binary_effect(op: ArithOp, m: Machine) -> Outcome {
    if m.stack.len() == 0 {
        stopped(m, StackExecuteErr::EmptyStackPop)
    } else if m.stack.len() == 1 {
        stopped(Machine { stack: m.stack.drop_last(), ..m }, StackExecuteErr::EmptyStackPop)
    } else {
        let left = m.stack[m.stack.len() - 1];
        let right = m.stack[m.stack.len() - 2];
        let rest = m.stack.drop_last().drop_last();
        match combine(op, left, right) {
            Err(e) => stopped(Machine { stack: rest, ..m }, e),
            Ok(v) => going(Machine { stack: rest.push(v), ..m }),
        }
    }
}

/// What one keyword does to the machine.
pub open spec fn keyword_effect(k: RefinedStandardKeyword, m: Machine) -> Outcome {
    match k {
        RefinedStandardKeyword::Stdin => stopped(m, StackExecuteErr::Unsupported),
        RefinedStandardKeyword::Stdout => if m.stack.len() == 0 {
            stopped(m, StackExecuteErr::EmptyStackPop)
        } else {
            going(Machine { stack: m.stack.drop_last(), written: m.written.push(m.stack.last()) })
        },
        RefinedStandardKeyword::Add => binary_effect(ArithOp::Add, m),
        RefinedStandardKeyword::Mul => binary_effect(ArithOp::Mul, m),
        RefinedStandardKeyword::Sub => binary_effect(ArithOp::Sub, m),
        RefinedStandardKeyword::Div => binary_effect(ArithOp::Div, m),
        RefinedStandardKeyword::Copy => if m.stack.len() == 0 {
            stopped(m, StackExecuteErr::EmptyStackPop)
        } else {
            going(Machine { stack: m.stack.push(m.stack.last()), ..m })
        },
    }
}

/// The value that a number literal puts on the stack.
pub open spec fn literal_value(n: NumberView) -> StackValueView {
    match n {
        NumberView::Integer(v) => StackValueView::ISize(v),
        NumberView::Decimal(t) => StackValueView::Float64(seq![DecimalStepView::Literal(t)]),
    }
}

/// Executing the operations of `block` from the one at `at` on. A call is
/// looked up in the table of `block` alone; a nested block and a called
/// block work on the same machine with their own tables. The first failure
/// ends everything.
pub open spec fn run_from(block: BlockView, at: nat, m: Machine) -> Outcome
    decreases block, block.operations.len() - at,
{
    if at >= block.operations.len() {
        going(m)
    } else {
        let step = match block.operations[at as int] {
            RefinedTokenView::LangType(_) => stopped(m, StackExecuteErr::Unsupported),
            RefinedTokenView::LangTypeCast(_) => stopped(m, StackExecuteErr::Unsupported),
            RefinedTokenView::Number(n) => going(
                Machine { stack: m.stack.push(literal_value(n)), ..m },
            ),
            RefinedTokenView::Keyword(k) => keyword_effect(k, m),
            RefinedTokenView::Call(name) => if block.user_defs.contains_key(name) {
                run_from(block.user_defs[name], 0, m)
            } else {
                stopped(m, StackExecuteErr::UndefinedCall)
            },
            RefinedTokenView::LooseBlock(child) => run_from(child, 0, m),
        };
        if step.result is Err {
            step
        } else {
            run_from(block, at + 1, step.after)
        }
    }
}

/// What can be executed.
pub trait Executable {
    /// What executing the item does to a machine.
    spec fn effect(&self, m: Machine) -> Outcome;

    /// Whether the item works on a stack that it is given, and on no other.
    spec fn needs_stack(&self) -> bool;

    /// Executes the item on a stack of its own, which starts empty. The
    /// values that it writes out are appended to `written`.
    fn execute(&self, written: &mut Vec<StackValue>) -> (r: Result<(), ExecuteErr>)
        ensures
            self.needs_stack() ==> r == Err::<(), ExecuteErr>(ExecuteErr::RequiresStack)
                && final(written)@ == old(written)@,
            !self.needs_stack() ==> ({
                let o = self.effect(
                    Machine { stack: Seq::empty(), written: stack_view(old(written)@) },
                );
                &&& stack_view(final(written)@) == o.after.written
                &&& r == match o.result {
                    Ok(_) => Ok::<(), ExecuteErr>(()),
                    Err(e) => Err::<(), ExecuteErr>(ExecuteErr::Stack(e)),
                }
            }),
    ;

    /// Executes the item on the stack given. The values that it writes out
    /// are appended to `written`.
    fn execute_with_stack(
        &self,
        stack: &mut Vec<StackValue>,
        written: &mut Vec<StackValue>,
    ) -> (r: Result<(), StackExecuteErr>)
        ensures
            ({
                let o = self.effect(machine_of(old(stack)@, old(written)@));
                &&& machine_of(final(stack)@, final(written)@) == o.after
                &&& r == o.result
            }),
    ;
}

/// A call of a name that the block's table does not hold stops the
/// execution with `UndefinedCall` and leaves the stack, and what was
/// written, as they were before the call.
pub proof fn undefined_call_keeps_stack(block: BlockView, at: nat, name: Seq<char>, m: Machine)
    requires
        at < block.operations.len(),
        block.operations[at as int] == RefinedTokenView::Call(name),
        !block.user_defs.contains_key(name),
    ensures
        run_from(block, at, m) == stopped(m, StackExecuteErr::UndefinedCall),
{
}

/// `stdout` on an empty stack stops the execution with `EmptyStackPop` and
/// writes nothing.
pub proof fn stdout_on_empty_writes_nothing(m: Machine)
    requires
        m.stack.len() == 0,
    ensures
        keyword_effect(RefinedStandardKeyword::Stdout, m) == stopped(
            m,
            StackExecuteErr::EmptyStackPop,
        ),
        keyword_effect(RefinedStandardKeyword::Stdout, m).after.written == m.written,
{
}

} // verus!
