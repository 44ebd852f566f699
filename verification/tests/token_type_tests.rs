use rand::Rng;
use stack_script::builder::ParseErr;
use stack_script::classifier::ClassifyErr;
use stack_script::token_type::{
    Block, Diagnostic, Number, PrimitiveType, RawStandardKeyword, RawToken,
    RefinedStandardKeyword, RefinedToken,
};

fn classify(text: &str) -> RawToken {
    let mut diagnostics = Vec::new();
    RawToken::from_str(text, &mut diagnostics).unwrap()
}

fn build(raw: Vec<RawToken>) -> Block {
    let mut diagnostics = Vec::new();
    Block::from_rawtoken_iter(&raw, &mut diagnostics).unwrap()
}

fn name(text: &str) -> RawToken {
    RawToken::UserDefinedToken(text.to_string())
}

fn whole(n: isize) -> RawToken {
    RawToken::Number(Number::Integer(n))
}

fn block_of(operations: Vec<RefinedToken>) -> Block {
    Block { user_defs: vec![], operations }
}

#[test]
fn ints() {
    let mut rng = rand::thread_rng();
    for _ in 0..100 {
        let rand_num = rng.gen::<i32>();
        assert_eq!(
            classify(format!("{}", rand_num).as_str()),
            RawToken::Number(Number::Integer(rand_num as isize))
        )
    }
}

#[test]
fn token_type_tests_ints() {
    let mut rng = rand::thread_rng();
    for _ in 0..100 {
        let rand_num = rng.gen::<i32>();
        assert_eq!(
            classify(format!("{}", rand_num).as_str()),
            RawToken::Number(Number::Integer(rand_num as isize))
        )
    }
}

fn float_round_trip() {
    let mut rng = rand::thread_rng();
    for _ in 0..100 {
        let rand_num = rng.gen::<f32>() * 100f32 - 50f32;
        if let RawToken::Number(Number::Decimal(text)) =
            classify(format!("{}", rand_num).as_str())
        {
            let parsed_value = text.parse::<f64>().unwrap();
            assert!(
                (rand_num as f64 - parsed_value).abs() < 0.00001,
                "parsed value out of bounds of expected"
            )
        } else {
            panic!("float was not parsed to be one");
        }
    }
}

#[test]
fn floats() {
    float_round_trip();
}

#[test]
fn token_type_tests_floats() {
    float_round_trip();
}

#[test]
fn type_failure() {
    assert_eq!(classify("[fake_type]"), name("[fake_type]"))
}

#[test]
fn token_type_tests_type_failure() {
    assert_eq!(classify("[fake_type]"), name("[fake_type]"))
}

#[test]
fn type_success() {
    assert_eq!(classify("[i32]"), RawToken::LangType(PrimitiveType::Int32))
}

#[test]
fn token_type_tests_type_success() {
    assert_eq!(classify("[i32]"), RawToken::LangType(PrimitiveType::Int32))
}

#[test]
fn type_cast() {
    assert_eq!(classify("(f32)"), RawToken::LangTypeCast(PrimitiveType::Float32))
}

#[test]
fn token_type_tests_type_cast() {
    assert_eq!(classify("(f32)"), RawToken::LangTypeCast(PrimitiveType::Float32))
}

#[test]
fn keyword() {
    assert_eq!(classify("stdout"), RawToken::Keyword(RawStandardKeyword::Stdout))
}

#[test]
fn token_type_tests_keyword() {
    assert_eq!(classify("stdout"), RawToken::Keyword(RawStandardKeyword::Stdout))
}

#[test]
fn from_vec_str() {
    let mut diagnostics = Vec::new();
    assert_eq!(
        RawToken::from_vec_str(vec!["{", "test", "}"], &mut diagnostics),
        Ok(vec![RawToken::StartBlock, name("test"), RawToken::EndBlock])
    )
}

#[test]
fn token_type_tests_from_vec_str() {
    let mut diagnostics = Vec::new();
    assert_eq!(
        RawToken::from_vec_str(vec!["{", "test", "}"], &mut diagnostics),
        Ok(vec![RawToken::StartBlock, name("test"), RawToken::EndBlock])
    );
    assert!(diagnostics.is_empty());
}

#[test]
fn function_definition() {
    let raw = vec![
        name("test"),
        RawToken::StartBlock,
        RawToken::Keyword(RawStandardKeyword::Copy),
        RawToken::EndBlock,
        RawToken::Keyword(RawStandardKeyword::Fndef),
    ];

    let refined = Block {
        user_defs: vec![(
            "test".to_string(),
            block_of(vec![RefinedToken::Keyword(RefinedStandardKeyword::Copy)]),
        )],
        operations: vec![],
    };

    assert_eq!(build(raw), refined)
}

#[test]
fn recursive_function_definition() {
    let raw = vec![
        name("outer"),
        RawToken::StartBlock,
        name("inner"),
        RawToken::StartBlock,
        RawToken::EndBlock,
        RawToken::Keyword(RawStandardKeyword::Fndef),
        RawToken::EndBlock,
        RawToken::Keyword(RawStandardKeyword::Fndef),
    ];

    let refined = Block {
        user_defs: vec![(
            "outer".to_string(),
            Block {
                user_defs: vec![("inner".to_string(), block_of(vec![]))],
                operations: vec![],
            },
        )],
        operations: vec![],
    };

    let built = build(raw);
    assert_eq!(built, refined);
    assert!(built.user_defs.iter().all(|(n, _)| n != "inner"));
}

#[test]
fn loose_block() {
    let raw = vec![
        RawToken::Keyword(RawStandardKeyword::Stdin),
        RawToken::StartBlock,
        RawToken::Keyword(RawStandardKeyword::Stdout),
        RawToken::EndBlock,
    ];

    let refined = block_of(vec![
        RefinedToken::Keyword(RefinedStandardKeyword::Stdin),
        RefinedToken::LooseBlock(block_of(vec![RefinedToken::Keyword(
            RefinedStandardKeyword::Stdout,
        )])),
    ]);

    assert_eq!(build(raw), refined)
}

#[test]
fn bracketed_types_and_remarks() {
    let mut diagnostics = Vec::new();
    assert_eq!(
        RawToken::from_str("[f32]", &mut diagnostics),
        Ok(RawToken::LangType(PrimitiveType::Float32))
    );
    assert_eq!(
        RawToken::from_str("(i32)", &mut diagnostics),
        Ok(RawToken::LangTypeCast(PrimitiveType::Int32))
    );
    assert!(diagnostics.is_empty());
    assert_eq!(RawToken::from_str("[bogus]", &mut diagnostics), Ok(name("[bogus]")));
    assert_eq!(diagnostics, vec![Diagnostic::UnknownType("[bogus]".to_string())]);
    assert_eq!(RawToken::from_str("(bogus)", &mut diagnostics), Ok(name("(bogus)")));
    assert_eq!(
        diagnostics,
        vec![
            Diagnostic::UnknownType("[bogus]".to_string()),
            Diagnostic::UnknownTypeCast("(bogus)".to_string())
        ]
    );
}

#[test]
fn braces_keywords_and_identifiers() {
    assert_eq!(classify("{"), RawToken::StartBlock);
    assert_eq!(classify("}"), RawToken::EndBlock);
    assert_eq!(classify("fndef"), RawToken::Keyword(RawStandardKeyword::Fndef));
    assert_eq!(classify("stdin"), RawToken::Keyword(RawStandardKeyword::Stdin));
    assert_eq!(classify("+"), RawToken::Keyword(RawStandardKeyword::Add));
    assert_eq!(classify("*"), RawToken::Keyword(RawStandardKeyword::Mul));
    assert_eq!(classify("-"), RawToken::Keyword(RawStandardKeyword::Sub));
    assert_eq!(classify("/"), RawToken::Keyword(RawStandardKeyword::Div));
    assert_eq!(classify("#"), RawToken::Keyword(RawStandardKeyword::Copy));
    assert_eq!(classify("square"), name("square"));
    assert_eq!(classify("1.2.3"), name("1.2.3"));
    assert_eq!(classify("1."), name("1."));
    assert_eq!(classify("-x"), name("-x"));
}

#[test]
fn number_literals() {
    assert_eq!(classify("0"), whole(0));
    assert_eq!(classify("-17"), whole(-17));
    assert_eq!(classify("007"), whole(7));
    assert_eq!(classify(&isize::MAX.to_string()), whole(isize::MAX));
    assert_eq!(classify(&isize::MIN.to_string()), whole(isize::MIN));
    assert_eq!(classify("-2.50"), RawToken::Number(Number::Decimal("-2.50".to_string())));
    let mut diagnostics = Vec::new();
    assert_eq!(
        RawToken::from_str("99999999999999999999999999", &mut diagnostics),
        Err(ClassifyErr::BadInteger)
    );
    assert_eq!(
        RawToken::from_str("-99999999999999999999999999", &mut diagnostics),
        Err(ClassifyErr::BadInteger)
    );
}

#[test]
fn decision_from_given_findings() {
    let mut diagnostics = Vec::new();
    assert_eq!(
        RawToken::classify("12", None, None, true, &mut diagnostics),
        Ok(whole(12))
    );
    assert_eq!(
        RawToken::classify("12", None, None, false, &mut diagnostics),
        Ok(name("12"))
    );
    assert_eq!(
        RawToken::classify("x", Some("i32"), Some("f32"), true, &mut diagnostics),
        Ok(RawToken::LangType(PrimitiveType::Int32))
    );
    assert!(diagnostics.is_empty());
    assert_eq!(
        RawToken::classify("x", Some("u8"), Some("f32"), true, &mut diagnostics),
        Ok(RawToken::LangTypeCast(PrimitiveType::Float32))
    );
    assert_eq!(diagnostics, vec![Diagnostic::UnknownType("x".to_string())]);
    assert_eq!(
        RawToken::classify("abc", None, None, true, &mut diagnostics),
        Err(ClassifyErr::BadInteger)
    );
    assert_eq!(stack_script::classifier::parse_integer("+5"), None);
    assert_eq!(stack_script::classifier::parse_integer("-"), None);
    assert_eq!(stack_script::classifier::parse_integer(""), None);
    assert_eq!(stack_script::classifier::parse_integer("-40"), Some(-40));
}

#[test]
fn first_bad_text_ends_the_list() {
    let mut diagnostics = Vec::new();
    assert_eq!(
        RawToken::from_vec_str(
            vec!["[x]", "99999999999999999999999999", "(y)"],
            &mut diagnostics
        ),
        Err(ClassifyErr::BadInteger)
    );
    assert_eq!(diagnostics, vec![Diagnostic::UnknownType("[x]".to_string())]);
}

#[test]
fn keyword_conversion() {
    assert_eq!(
        RefinedStandardKeyword::from_raw(RawStandardKeyword::Fndef),
        Err(())
    );
    assert_eq!(
        RefinedStandardKeyword::from_raw(RawStandardKeyword::Sub),
        Ok(RefinedStandardKeyword::Sub)
    );
    assert_eq!(PrimitiveType::from_str("f32"), Some(PrimitiveType::Float32));
    assert_eq!(PrimitiveType::from_str("f64"), None);
    assert_eq!(RawStandardKeyword::from_str("#"), Some(RawStandardKeyword::Copy));
    assert_eq!(RawStandardKeyword::from_str("copy"), None);
}

#[test]
fn definition_without_name_or_body() {
    let mut diagnostics = Vec::new();
    let fndef = || RawToken::Keyword(RawStandardKeyword::Fndef);
    assert_eq!(
        Block::from_rawtoken_iter(&vec![fndef()], &mut diagnostics),
        Err(ParseErr::MissingName)
    );
    assert_eq!(
        Block::from_rawtoken_iter(
            &vec![RawToken::StartBlock, RawToken::EndBlock, fndef()],
            &mut diagnostics
        ),
        Err(ParseErr::MissingName)
    );
    assert_eq!(
        Block::from_rawtoken_iter(&vec![name("f"), fndef()], &mut diagnostics),
        Err(ParseErr::MissingBody)
    );
    assert_eq!(
        Block::from_rawtoken_iter(
            &vec![RawToken::StartBlock, name("f"), fndef()],
            &mut diagnostics
        ),
        Err(ParseErr::MissingBody)
    );
}

#[test]
fn recorded_indices_are_not_adjusted() {
    let fndef = || RawToken::Keyword(RawStandardKeyword::Fndef);
    let one = || vec![RawToken::StartBlock, whole(1), RawToken::EndBlock];
    let two = || vec![RawToken::StartBlock, whole(2), RawToken::EndBlock];
    let mut raw = vec![name("a")];
    raw.extend(one());
    raw.extend(two());
    raw.push(fndef());
    raw.push(name("y"));
    raw.push(name("x"));
    raw.push(fndef());
    let number = |n| block_of(vec![RefinedToken::Number(Number::Integer(n))]);
    assert_eq!(
        build(raw),
        Block {
            user_defs: vec![("a".to_string(), number(2)), ("x".to_string(), number(1))],
            operations: vec![RefinedToken::LooseBlock(number(1))],
        }
    );

    let mut raw = vec![name("a")];
    raw.extend(one());
    raw.extend(two());
    raw.push(fndef());
    raw.push(name("x"));
    raw.push(fndef());
    let mut diagnostics = Vec::new();
    assert_eq!(
        Block::from_rawtoken_iter(&raw, &mut diagnostics),
        Err(ParseErr::MisplacedDefinition)
    );
}

#[test]
fn redefinition_is_remarked_and_wins() {
    let fndef = || RawToken::Keyword(RawStandardKeyword::Fndef);
    let raw = vec![
        name("f"),
        RawToken::StartBlock,
        whole(1),
        RawToken::EndBlock,
        fndef(),
        name("f"),
        RawToken::StartBlock,
        whole(2),
        RawToken::EndBlock,
        fndef(),
        name("f"),
    ];
    let mut diagnostics = Vec::new();
    let block = Block::from_rawtoken_iter(&raw, &mut diagnostics).unwrap();
    assert_eq!(diagnostics, vec![Diagnostic::Redefinition("f".to_string())]);
    assert_eq!(block.operations, vec![RefinedToken::Call("f".to_string())]);
    let mut stack = Vec::new();
    let mut written = Vec::new();
    assert_eq!(block.run(&mut stack, &mut written), Ok(()));
    assert_eq!(stack, vec![stack_script::runner::StackValue::ISize(2)]);
}

#[test]
fn input_ends_at_unmatched_close() {
    let raw = vec![whole(1), RawToken::EndBlock, whole(2)];
    let mut diagnostics = Vec::new();
    let (block, next) = Block::build_block(&raw, 0, &mut diagnostics);
    assert_eq!(block, Ok(block_of(vec![RefinedToken::Number(Number::Integer(1))])));
    assert_eq!(next, 2);
    let raw = vec![RawToken::StartBlock, whole(1)];
    assert_eq!(
        build(raw),
        block_of(vec![RefinedToken::LooseBlock(block_of(vec![RefinedToken::Number(
            Number::Integer(1)
        )]))])
    );
    assert_eq!(build(vec![]), Block::empty());
}

#[test]
fn copies_are_equal() {
    let raw = vec![
        name("f"),
        RawToken::StartBlock,
        RawToken::Number(Number::Decimal("1.5".to_string())),
        RawToken::LangType(PrimitiveType::Int32),
        RawToken::EndBlock,
        RawToken::Keyword(RawStandardKeyword::Fndef),
        RawToken::StartBlock,
        name("g"),
        RawToken::EndBlock,
    ];
    let block = build(raw);
    assert_eq!(block.duplicate(), block);
}

#[test]
fn integer_text_reads_back() {
    for n in [0, 7, -7, 10, -10, 1234567890, isize::MAX, isize::MIN] {
        let text = stack_script::classifier::integer_text(n);
        assert_eq!(text, format!("{}", n));
        assert_eq!(stack_script::classifier::parse_integer(&text), Some(n));
        assert_eq!(classify(&text), whole(n));
    }
}
