use stack_script::runner::{
    ArithOp, DecimalStep, Executable, ExecuteErr, StackExecuteErr, StackValue,
};
use stack_script::token_type::{
    Block, Number, PrimitiveType, RawToken, RefinedStandardKeyword, RefinedToken,
};
use stack_script::tokenizer::tokenize;

fn program(text: &str) -> Block {
    let mut diagnostics = Vec::new();
    let tokens = RawToken::from_vec_str(tokenize(text).unwrap(), &mut diagnostics).unwrap();
    Block::from_rawtoken_iter(&tokens, &mut diagnostics).unwrap()
}

fn run(text: &str) -> (Result<(), StackExecuteErr>, Vec<StackValue>, Vec<StackValue>) {
    let mut stack = Vec::new();
    let mut written = Vec::new();
    let result = program(text).execute_with_stack(&mut stack, &mut written);
    (result, stack, written)
}

fn ints(values: &[isize]) -> Vec<StackValue> {
    values.iter().map(|v| StackValue::ISize(*v)).collect()
}

fn number_of(value: &StackValue) -> f64 {
    match value {
        StackValue::ISize(n) => *n as f64,
        StackValue::Float64(steps) => {
            let mut stack: Vec<f64> = Vec::new();
            for step in steps {
                match step {
                    DecimalStep::Literal(text) => stack.push(text.parse().unwrap()),
                    DecimalStep::Apply(op) => {
                        let right = stack.pop().unwrap();
                        let left = stack.pop().unwrap();
                        stack.push(match op {
                            ArithOp::Add => left + right,
                            ArithOp::Sub => left - right,
                            ArithOp::Mul => left * right,
                            ArithOp::Div => left / right,
                        });
                    }
                }
            }
            assert_eq!(stack.len(), 1);
            stack[0]
        }
    }
}

#[test]
fn top_of_stack_is_left_operand() {
    let block = Block {
        user_defs: vec![],
        operations: vec![
            RefinedToken::Number(Number::Integer(10)),
            RefinedToken::Number(Number::Integer(3)),
            RefinedToken::Keyword(RefinedStandardKeyword::Sub),
        ],
    };
    let mut stack = Vec::new();
    let mut written = Vec::new();
    assert_eq!(block.execute_with_stack(&mut stack, &mut written), Ok(()));
    assert_eq!(stack, ints(&[-7]));
    assert!(written.is_empty());
}

#[test]
fn integer_arithmetic() {
    assert_eq!(run("2 3 +").1, ints(&[5]));
    assert_eq!(run("2 3 *").1, ints(&[6]));
    assert_eq!(run("2 7 /").1, ints(&[3]));
    assert_eq!(run("2 -7 /").1, ints(&[-3]));
    assert_eq!(run("-2 7 /").1, ints(&[-3]));
    assert_eq!(run("-2 -7 /").1, ints(&[3]));
    assert_eq!(run("7 2 /").1, ints(&[0]));
    assert_eq!(run("1 2 3 -").1, ints(&[1, 1]));
}

#[test]
fn integer_failures() {
    assert_eq!(run("0 5 /"), (Err(StackExecuteErr::DivisionByZero), ints(&[]), vec![]));
    let most = isize::MAX.to_string();
    let least = isize::MIN.to_string();
    assert_eq!(run(&format!("1 {} +", most)).0, Err(StackExecuteErr::Overflow));
    assert_eq!(run(&format!("2 {} *", most)).0, Err(StackExecuteErr::Overflow));
    assert_eq!(run(&format!("1 {} -", least)).0, Err(StackExecuteErr::Overflow));
    assert_eq!(run(&format!("{} 1 -", most)).1, ints(&[1 - isize::MAX]));
    assert_eq!(run(&format!("-1 {} /", least)).0, Err(StackExecuteErr::Overflow));
    assert_eq!(run(&format!("0 {} +", most)).1, ints(&[isize::MAX]));
}

#[test]
fn stack_underflow() {
    assert_eq!(run("+"), (Err(StackExecuteErr::EmptyStackPop), ints(&[]), vec![]));
    assert_eq!(run("4 +"), (Err(StackExecuteErr::EmptyStackPop), ints(&[]), vec![]));
    assert_eq!(run("#"), (Err(StackExecuteErr::EmptyStackPop), ints(&[]), vec![]));
    assert_eq!(run("4 5 stdout stdout stdout 6").0, Err(StackExecuteErr::EmptyStackPop));
}

#[test]
fn stdout_on_empty_stack_writes_nothing() {
    let (result, stack, written) = run("stdout");
    assert_eq!(result, Err(StackExecuteErr::EmptyStackPop));
    assert!(stack.is_empty());
    assert!(written.is_empty());
}

#[test]
fn stdout_writes_in_order() {
    let (result, stack, written) = run("1 2 3 stdout stdout");
    assert_eq!(result, Ok(()));
    assert_eq!(stack, ints(&[1]));
    assert_eq!(written, ints(&[3, 2]));
}

#[test]
fn duplicate_copies_the_top() {
    assert_eq!(run("4 9 #").1, ints(&[4, 9, 9]));
    let (_, stack, _) = run("1.5 #");
    assert_eq!(stack.len(), 2);
    assert_eq!(stack[0], stack[1]);
    assert_eq!(number_of(&stack[1]), 1.5);
}

#[test]
fn undefined_call_leaves_stack() {
    let (result, stack, written) = run("1 2 nothing 3");
    assert_eq!(result, Err(StackExecuteErr::UndefinedCall));
    assert_eq!(stack, ints(&[1, 2]));
    assert!(written.is_empty());
}

#[test]
fn unsupported_operations() {
    assert_eq!(run("1 [i32] 2"), (Err(StackExecuteErr::Unsupported), ints(&[1]), vec![]));
    assert_eq!(run("1 (f32) 2"), (Err(StackExecuteErr::Unsupported), ints(&[1]), vec![]));
    assert_eq!(run("1 stdin 2"), (Err(StackExecuteErr::Unsupported), ints(&[1]), vec![]));
    let block = Block {
        user_defs: vec![],
        operations: vec![RefinedToken::LangType(PrimitiveType::Float32)],
    };
    let mut written = Vec::new();
    assert_eq!(
        block.execute(&mut written),
        Err(ExecuteErr::Stack(StackExecuteErr::Unsupported))
    );
}

#[test]
fn mixed_kinds_do_not_combine() {
    let (result, stack, _) = run("7 1 2.0 +");
    assert_eq!(result, Err(StackExecuteErr::TypeMismatch));
    assert_eq!(stack, ints(&[7]));
    assert_eq!(run("2.0 1 *").0, Err(StackExecuteErr::TypeMismatch));
}

#[test]
fn decimal_arithmetic_keeps_operand_order() {
    let (result, stack, _) = run("10.0 4.0 -");
    assert_eq!(result, Ok(()));
    assert_eq!(
        stack,
        vec![StackValue::Float64(vec![
            DecimalStep::Literal("4.0".to_string()),
            DecimalStep::Literal("10.0".to_string()),
            DecimalStep::Apply(ArithOp::Sub),
        ])]
    );
    assert_eq!(number_of(&stack[0]), -6.0);
    let (_, stack, _) = run("2.0 8.0 / 0.5 +");
    assert_eq!(number_of(&stack[0]), 4.5);
    let (_, stack, _) = run("1.5 # *");
    assert_eq!(number_of(&stack[0]), 2.25);
}

#[test]
fn calls_and_nested_blocks_share_the_stack() {
    let (result, stack, written) = run("double { # + } fndef 21 double stdout");
    assert_eq!(result, Ok(()));
    assert!(stack.is_empty());
    assert_eq!(written, ints(&[42]));
    assert_eq!(run("1 { 2 { 3 } + } +").1, ints(&[6]));
}

#[test]
fn tables_are_not_inherited() {
    let (result, stack, _) = run("f { 1 } fndef { f }");
    assert_eq!(result, Err(StackExecuteErr::UndefinedCall));
    assert!(stack.is_empty());
    assert_eq!(
        run("outer { inner { 5 } fndef inner } fndef outer inner"),
        (Err(StackExecuteErr::UndefinedCall), ints(&[5]), vec![])
    );
}

#[test]
fn execution_without_a_stack() {
    let mut written = Vec::new();
    assert_eq!(program("3 4 * stdout 1").execute(&mut written), Ok(()));
    assert_eq!(written, ints(&[12]));
    assert_eq!(
        program("3 +").execute(&mut written),
        Err(ExecuteErr::Stack(StackExecuteErr::EmptyStackPop))
    );
    assert_eq!(
        RefinedStandardKeyword::Add.execute(&mut written),
        Err(ExecuteErr::RequiresStack)
    );
    assert_eq!(written, ints(&[12]));
    let mut stack = ints(&[1, 2]);
    assert_eq!(
        RefinedStandardKeyword::Add.execute_with_stack(&mut stack, &mut written),
        Ok(())
    );
    assert_eq!(stack, ints(&[3]));
}

#[test]
fn values_and_literals() {
    assert_eq!(StackValue::of_literal(&Number::Integer(-3)), StackValue::ISize(-3));
    assert_eq!(
        StackValue::arith(ArithOp::Sub, StackValue::ISize(3), StackValue::ISize(10)),
        Ok(StackValue::ISize(-7))
    );
    assert_eq!(
        StackValue::arith(ArithOp::Div, StackValue::ISize(3), StackValue::ISize(0)),
        Err(StackExecuteErr::DivisionByZero)
    );
    let half = StackValue::of_literal(&Number::Decimal("0.5".to_string()));
    assert_eq!(half.duplicate(), half);
    assert_eq!(number_of(&half), 0.5);
}
