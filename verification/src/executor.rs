use vstd::prelude::*;
use crate::runner::{
    ArithOp, DecimalStep, DecimalStepView, Executable, ExecuteErr, Machine, Outcome,
    StackExecuteErr, StackValue, StackValueView, binary_effect, combine, keyword_effect,
    literal_value, machine_of, run_from, stack_view, steps_view,
};
use crate::token_type::{
    Block, Number, RefinedStandardKeyword, RefinedToken, find_def, lemma_ops_view,
};

verus! {

impl DecimalStep {
    /// A second step with the same content.
    pub fn duplicate(&self) -> (r: DecimalStep)
        ensures
            r@ == self@,
    {
        match self {
            DecimalStep::Literal(t) => DecimalStep::Literal(t.clone()),
            DecimalStep::Apply(op) => DecimalStep::Apply(*op),
        }
    }
}

impl StackValue {
    /// A second value with the same content.
    pub fn duplicate(&self) -> (r: StackValue)
        ensures
            r@ == self@,
    {
        match self {
            StackValue::ISize(n) => StackValue::ISize(*n),
            StackValue::Float64(steps) => {
                let mut copy: Vec<DecimalStep> = Vec::new();
                let mut i: usize = 0;
                while i < steps.len()
                    invariant
                        i <= steps.len(),
                        copy@.len() == i,
                        forall|j: int| 0 <= j < i ==> (#[trigger] copy@[j])@ == steps@[j]@,
                    decreases steps.len() - i,
                {
                    let step = steps[i].duplicate();
                    copy.push(step);
                    i += 1;
                }
                proof {
                    assert(steps_view(copy@) =~= steps_view(steps@));
                }
                StackValue::Float64(copy)
            },
        }
    }

    /// The value that a number literal stands for.
    pub fn of_literal(n: &Number) -> (r: StackValue)
        ensures
            r@ == literal_value(n@),
    {
        match n {
            Number::Integer(v) => StackValue::ISize(*v),
            Number::Decimal(t) => {
                let mut steps: Vec<DecimalStep> = Vec::new();
                steps.push(DecimalStep::Literal(t.clone()));
                proof {
                    assert(steps_view(steps@) =~= seq![DecimalStepView::Literal(t@)]);
                }
                StackValue::Float64(steps)
            },
        }
    }

    /// `left op right`: on two integers the result in a word, or the error
    /// when it has none; on two decimal values the computation of both
    /// followed by the operator; on one of each a type mismatch.
    pub fn arith(op: ArithOp, left: StackValue, right: StackValue) -> (r: Result<
        StackValue,
        StackExecuteErr,
    >)
        ensures
            match r {
                Ok(v) => combine(op, left@, right@) == Ok::<StackValueView, StackExecuteErr>(v@),
                Err(e) => combine(op, left@, right@) == Err::<StackValueView, StackExecuteErr>(e),
            },
    {
        match (left, right) {
            (StackValue::ISize(l), StackValue::ISize(r)) => {
                let value = match op {
                    ArithOp::Add => l.checked_add(r),
                    ArithOp::Sub => l.checked_sub(r),
                    ArithOp::Mul => l.checked_mul(r),
                    ArithOp::Div => {
                        if r == 0 {
                            return Err(StackExecuteErr::DivisionByZero);
                        }
                        l.checked_div(r)
                    },
                };
                match value {
                    Some(v) => Ok(StackValue::ISize(v)),
                    None => Err(StackExecuteErr::Overflow),
                }
            },
            (StackValue::Float64(l), StackValue::Float64(r)) => {
                let mut steps = l;
                let mut tail = r;
                let ghost lv = steps_view(steps@);
                let ghost rv = steps_view(tail@);
                steps.append(&mut tail);
                steps.push(DecimalStep::Apply(op));
                proof {
                    assert(steps_view(steps@) =~= lv + rv + seq![DecimalStepView::Apply(op)]);
                }
                Ok(StackValue::Float64(steps))
            },
            _ => Err(StackExecuteErr::TypeMismatch),
        }
    }
}

proof fn lemma_stack_push(s: Seq<StackValue>, v: StackValue)
    ensures
        stack_view(s.push(v)) == stack_view(s).push(v@),
{
    assert(stack_view(s.push(v)) =~= stack_view(s).push(v@));
}

proof fn lemma_stack_drop(s: Seq<StackValue>)
    requires
        s.len() > 0,
    ensures
        stack_view(s.drop_last()) == stack_view(s).drop_last(),
        stack_view(s).last() == s.last()@,
{
    assert(stack_view(s.drop_last()) =~= stack_view(s).drop_last());
}

/// A binary operator on the stack.
fn binary(op: ArithOp, stack: &mut Vec<StackValue>) -> (r: Result<(), StackExecuteErr>)
    ensures
        ({
            let m = Machine { stack: stack_view(old(stack)@), written: Seq::empty() };
            let o = binary_effect(op, m);
            &&& stack_view(final(stack)@) == o.after.stack
            &&& r == o.result
        }),
{
    let ghost before = stack@;
    let left = match stack.pop() {
        Some(v) => v,
        None => {
            return Err(StackExecuteErr::EmptyStackPop);
        },
    };
    proof {
        lemma_stack_drop(before);
    }
    let ghost middle = stack@;
    let right = match stack.pop() {
        Some(v) => v,
        None => {
            return Err(StackExecuteErr::EmptyStackPop);
        },
    };
    proof {
        lemma_stack_drop(middle);
    }
    match StackValue::arith(op, left, right) {
        Ok(v) => {
            proof {
                lemma_stack_push(stack@, v);
            }
            stack.push(v);
            Ok(())
        },
        Err(e) => Err(e),
    }
}

impl RefinedStandardKeyword {
    /// Carries out the keyword on the stack. A value that `stdout` takes
    /// off the stack is appended to `written`.
    pub fn run(&self, stack: &mut Vec<StackValue>, written: &mut Vec<StackValue>) -> (r: Result<
        (),
        StackExecuteErr,
    >)
        ensures
            ({
                let o = keyword_effect(*self, machine_of(old(stack)@, old(written)@));
                &&& machine_of(final(stack)@, final(written)@) == o.after
                &&& r == o.result
            }),
    {
        match self {
            RefinedStandardKeyword::Stdin => Err(StackExecuteErr::Unsupported),
            RefinedStandardKeyword::Stdout => {
                let ghost before = stack@;
                match stack.pop() {
                    None => Err(StackExecuteErr::EmptyStackPop),
                    Some(v) => {
                        proof {
                            lemma_stack_drop(before);
                            lemma_stack_push(written@, v);
                        }
                        written.push(v);
                        Ok(())
                    },
                }
            },
            RefinedStandardKeyword::Add => binary(ArithOp::Add, stack),
            RefinedStandardKeyword::Mul => binary(ArithOp::Mul, stack),
            RefinedStandardKeyword::Sub => binary(ArithOp::Sub, stack),
            RefinedStandardKeyword::Div => binary(ArithOp::Div, stack),
            RefinedStandardKeyword::Copy => {
                if stack.len() == 0 {
                    return Err(StackExecuteErr::EmptyStackPop);
                }
                let copy = stack[stack.len() - 1].duplicate();
                proof {
                    lemma_stack_push(stack@, copy);
                }
                stack.push(copy);
                Ok(())
            },
        }
    }
}

impl Block {
    /// Executes the block on the stack. Values that `stdout` takes off the
    /// stack are appended to `written`, in order.
    pub fn run(&self, stack: &mut Vec<StackValue>, written: &mut Vec<StackValue>) -> (r: Result<
        (),
        StackExecuteErr,
    >)
        ensures
            ({
                let o = run_from(self.view(), 0, machine_of(old(stack)@, old(written)@));
                &&& machine_of(final(stack)@, final(written)@) == o.after
                &&& r == o.result
            }),
        decreases self,
    {
        let ghost goal = run_from(self.view(), 0, machine_of(stack@, written@));
        let mut at: usize = 0;
        proof {
            lemma_ops_view(self.operations@);
        }
        while at < self.operations.len()
            invariant
                at <= self.operations.len(),
                goal == run_from(self.view(), 0, machine_of(old(stack)@, old(written)@)),
                goal == run_from(self.view(), at as nat, machine_of(stack@, written@)),
                self.view().operations.len() == self.operations.len(),
                forall|i: int|
                    0 <= i < self.operations.len() ==> (#[trigger] self.view().operations[i])
                        == self.operations@[i].view(),
            decreases self.operations.len() - at,
        {
            let step = match &self.operations[at] {
                RefinedToken::LangType(_) => Err(StackExecuteErr::Unsupported),
                RefinedToken::LangTypeCast(_) => Err(StackExecuteErr::Unsupported),
                RefinedToken::Number(n) => {
                    let v = StackValue::of_literal(n);
                    proof {
                        lemma_stack_push(stack@, v);
                    }
                    stack.push(v);
                    Ok(())
                },
                RefinedToken::Keyword(k) => k.run(stack, written),
                RefinedToken::Call(name) => match find_def(&self.user_defs, name) {
                    None => Err(StackExecuteErr::UndefinedCall),
                    Some(i) => self.user_defs[i].1.run(stack, written),
                },
                RefinedToken::LooseBlock(child) => child.run(stack, written),
            };
            match step {
                Err(e) => {
                    return Err(e);
                },
                Ok(()) => {
                    at += 1;
                },
            }
        }
        Ok(())
    }
}

impl Executable for Block {
    open spec fn effect(&self, m: Machine) -> Outcome {
        run_from(self.view(), 0, m)
    }

    open spec fn needs_stack(&self) -> bool {
        false
    }

    fn execute(&self, written: &mut Vec<StackValue>) -> (r: Result<(), ExecuteErr>) {
        let mut stack: Vec<StackValue> = Vec::new();
        proof {
            assert(stack_view(stack@) =~= Seq::empty());
        }
        match self.run(&mut stack, written) {
            Ok(()) => Ok(()),
            Err(e) => Err(ExecuteErr::Stack(e)),
        }
    }

    fn execute_with_stack(
        &self,
        stack: &mut Vec<StackValue>,
        written: &mut Vec<StackValue>,
    ) -> (r: Result<(), StackExecuteErr>) {
        self.run(stack, written)
    }
}

impl Executable for RefinedStandardKeyword {
    open spec fn effect(&self, m: Machine) -> Outcome {
        keyword_effect(*self, m)
    }

    open spec fn needs_stack(&self) -> bool {
        true
    }

    fn execute(&self, written: &mut Vec<StackValue>) -> (r: Result<(), ExecuteErr>) {
        Err(ExecuteErr::RequiresStack)
    }

    fn execute_with_stack(
        &self,
        stack: &mut Vec<StackValue>,
        written: &mut Vec<StackValue>,
    ) -> (r: Result<(), StackExecuteErr>) {
        self.run(stack, written)
    }
}

} // verus!
