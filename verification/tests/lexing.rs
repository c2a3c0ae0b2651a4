use regex_lexer_lalrpop::LexerBuilder;
use rm_query::query_language::operand::{Operand, OperandEnum};
use rm_query::query_language::operation::{Operation, OperationEnum, Root};

fn lexed(token: &str) -> Option<(String, String)> {
    let lexer = LexerBuilder::new()
        .token(r"NAME\((.*?)\)", |_, value: &str, _| {
            Some(("NAME".to_string(), Operation::remove_symbols(value, "NAME")))
        })
        .token(r"PAGE\((.*?)\)", |_, value, _| {
            Some(("PAGE".to_string(), Operation::remove_symbols(value, "PAGE")))
        })
        .token("CHARACTERS", |_, _, _| Some(("CHARACTERS".to_string(), String::new())))
        .token("EPISODES", |_, _, _| Some(("EPISODES".to_string(), String::new())))
        .token("LOCATIONS", |_, _, _| Some(("LOCATIONS".to_string(), String::new())))
        .token(r"CONTAINS\((.*?), (.*?)\)", |_, value, _| {
            Some(("CONTAINS".to_string(), Operation::remove_symbols(value, "CONTAINS")))
        })
        .token(r"LENGTH\((.*?), (.*?)\)", |_, value, _| {
            Some(("LENGTH".to_string(), Operation::remove_symbols(value, "LENGTH")))
        })
        .token(r"DIMENSION\((.*?)\)", |_, value, _| {
            Some(("DIMENSION".to_string(), Operation::remove_symbols(value, "DIMENSION")))
        })
        .token(r"SORT\((.*?), (.*?)\)", |_, value, _| {
            Some(("SORT".to_string(), Operation::remove_symbols(value, "SORT")))
        })
        .token(r"LIMIT\((.*?)\)", |_, value, _| {
            Some(("LIMIT".to_string(), Operation::remove_symbols(value, "LIMIT")))
        })
        .build()
        .unwrap();
    let mut tokens = lexer.tokens(token);
    match tokens.next() {
        Some(Ok(found)) => Some(found),
        _ => None,
    }
}

fn text_of(operand: &Operand) -> String {
    match &operand.0 {
        OperandEnum::String(s) => s.clone(),
        OperandEnum::Number(n) => n.to_string(),
    }
}

fn read(token: &str) -> Option<(String, String)> {
    match Operation::parse_str(token) {
        Err(_) => None,
        Ok(operation) => Some(match &operation.0 {
            OperationEnum::Root(Root::CHARACTERS) => ("CHARACTERS".to_string(), String::new()),
            OperationEnum::Root(Root::EPISODES) => ("EPISODES".to_string(), String::new()),
            OperationEnum::Root(Root::LOCATIONS) => ("LOCATIONS".to_string(), String::new()),
            OperationEnum::Name(a) => ("NAME".to_string(), text_of(a)),
            OperationEnum::Dimension(a) => ("DIMENSION".to_string(), text_of(a)),
            OperationEnum::Contains(a, b) => {
                ("CONTAINS".to_string(), format!("{}, {}", text_of(a), text_of(b)))
            }
            OperationEnum::Length(a, b) => {
                ("LENGTH".to_string(), format!("{}, {}", text_of(a), text_of(b)))
            }
            OperationEnum::Sort(a, b) => {
                ("SORT".to_string(), format!("{}, {}", text_of(a), text_of(b)))
            }
            OperationEnum::Page(_) => ("PAGE".to_string(), String::new()),
            OperationEnum::Limit(_) => ("LIMIT".to_string(), String::new()),
            _ => unreachable!(),
        }),
    }
}

fn agree(token: &str) {
    let expected = lexed(token).map(|(name, argument)| {
        if name == "PAGE" || name == "LIMIT" {
            (name, String::new())
        } else {
            (name, argument)
        }
    });
    assert_eq!(read(token), expected, "token {:?}", token);
}

#[test]
fn tokens_are_those_of_the_regular_expressions() {
    let tokens = [
        "",
        "CHARACTERS",
        "EPISODES",
        "LOCATIONS",
        "CHARACTER",
        "CHARACTERSS",
        "characters",
        " CHARACTERS",
        "LOCATIONS(x)",
        "NAME(Rick)",
        "NAME()",
        "NAME(",
        "NAME",
        "NAME)",
        "NAME(Rick",
        "NAME(Rick Sanchez)",
        "NAME(Earth (C-137))",
        "NAME(a)b)",
        "NAME((((a)",
        "NAME(NAME)",
        "NAME(NAMENAME(x)",
        "NAME(NANAMEME)",
        "NAME(NA(ME)x)",
        "NAME(a\nb)",
        "NAME(a\rb)",
        "NAME(a\tb)",
        "NAME(\u{e9}t\u{e9})",
        "NAME(x)::PAGE(1)",
        "NAMES(x)",
        "name(x)",
        "xNAME(x)",
        "DIMENSION(C-137)",
        "DIMENSION(DIMENSION C-137)",
        "DIMENSION()",
        "CONTAINS(name, Morty)",
        "CONTAINS(name,Morty)",
        "CONTAINS(name ,Morty)",
        "CONTAINS(name, )",
        "CONTAINS(, Morty)",
        "CONTAINS(, )",
        "CONTAINS(a, b, c)",
        "CONTAINS(a), b)",
        "CONTAINS(a) b, c)",
        "CONTAINS((a, (b)",
        "CONTAINS(a, b",
        "CONTAINS(a, b) trailing",
        "CONTAINS(a, b))",
        "CONTAINS(a\n, b)",
        "CONTAINS(a, \nb)",
        "CONTAINS(a, b\n)",
        "CONTAINS(a,\n b, c)",
        "CONTAINS(CONTAINS, CONTAINS)",
        "CONTAINS(a,) , b)",
        "CONTAINS(a,( b)",
        "CONTAINS(,) x, y)",
        "LENGTH(name, 3)",
        "LENGTH(name)",
        "LENGTH(LENGTH(name, 3), 4)",
        "SORT(ASC, name)",
        "SORT(DSC, created)",
        "SORT(ASC,name)",
        "SORT(ASC, name",
        "PAGE(1)",
        "PAGE()",
        "PAGE(1",
        "PAGE(one)",
        "LIMIT(10)",
        "LIMIT(10) and more",
        "LIMIT",
        "INDEX(1)",
        "PICK(name)",
        "BOGUS",
        "(",
        ")",
        ", ",
    ];
    for token in tokens {
        agree(token);
    }
}

#[test]
fn numbers_are_read_from_the_stripped_argument() {
    for (token, number) in [
        ("PAGE(12)", 12u32),
        ("PAGE((1)2)", 1),
        ("PAGE(PAGE3)", 0),
        ("PAGE(3)PAGE", 3),
        ("PAGE(1(2)", 12),
        ("LIMIT(LIMIT)", 0),
        ("LIMIT(7)8)", 7),
    ] {
        let (_, argument) = lexed(token).unwrap();
        let expected = argument.parse::<u32>().unwrap_or(0);
        assert_eq!(expected, number);
        match Operation::parse_str(token).unwrap().0 {
            OperationEnum::Page(Operand(OperandEnum::Number(n))) => assert_eq!(n, number),
            OperationEnum::Limit(Operand(OperandEnum::Number(n))) => assert_eq!(n, number),
            _ => panic!(),
        }
    }
}
