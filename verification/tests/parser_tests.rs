use select_parser::ast::{
    Column, Function, Numeric, Operand, SelectExpression, SelectStatement, Statement,
    TableExpression, Term, Value,
};
use select_parser::error::ParseError;
use select_parser::expression::{apply_operator_to_terms, operator_precedence, ExpressionEngine};
use select_parser::lexer::lex;
use select_parser::number::is_float_text;
use select_parser::parser::{read_number, Parser};
use select_parser::token::{QuoteType, Token, TokenizationError};

fn parse(query: &str) -> Result<Statement, ParseError> {
    Parser::new(query.to_string(), false).parse()
}

fn select_of(query: &str) -> SelectStatement {
    match parse(query) {
        Ok(Statement::Select(select)) => select,
        Err(e) => panic!("{} fails: {:?}", query, e),
    }
}

fn where_of(expression: &str) -> Operand {
    let query = format!("select * from bike where {};", expression);
    match select_of(&query).where_expression {
        Some(Term::Operand(operand)) => *operand,
        other => panic!("no operand: {:?}", other),
    }
}

fn whole(v: i64) -> Term {
    Term::Value(Value::Numeric(Numeric::Int(v)))
}

fn leaf(v: i64) -> Box<Operand> {
    Box::new(Operand::Term(whole(v)))
}

fn column(name: &str) -> Term {
    Term::Column(Column::Direct { schema: None, column_name: name.to_string() })
}

fn table(name: &str) -> TableExpression {
    TableExpression::Table { schema: None, table: name.to_string() }
}

fn expression_of(term: Term) -> Term {
    Term::Operand(Box::new(Operand::Term(term)))
}

#[test]
fn test_precedence_of_multiplication_over_addition() {
    assert_eq!(
        where_of("1+2*3"),
        Operand::Addition(leaf(1), Box::new(Operand::Multiplication(leaf(2), leaf(3))))
    );
    assert_ne!(
        where_of("1+2*3"),
        Operand::Multiplication(Box::new(Operand::Addition(leaf(1), leaf(2))), leaf(3))
    );
}

#[test]
fn test_left_associativity() {
    assert_eq!(
        where_of("1-2-3"),
        Operand::Subtraction(Box::new(Operand::Subtraction(leaf(1), leaf(2))), leaf(3))
    );
    assert_eq!(
        where_of("8/4/2"),
        Operand::Division(Box::new(Operand::Division(leaf(8), leaf(4))), leaf(2))
    );
}

#[test]
fn test_precedence_of_all_levels() {
    // or < and < comparison < sum < product
    assert_eq!(
        where_of("a or b and c = 1 + 2 * 3"),
        Operand::Or(
            Box::new(Operand::Term(column("a"))),
            Box::new(Operand::And(
                Box::new(Operand::Term(column("b"))),
                Box::new(Operand::Equal(
                    Box::new(Operand::Term(column("c"))),
                    Box::new(Operand::Addition(
                        leaf(1),
                        Box::new(Operand::Multiplication(leaf(2), leaf(3)))
                    ))
                ))
            ))
        )
    );
    assert_eq!(
        where_of("a = 1 and b = 2"),
        Operand::And(
            Box::new(Operand::Equal(Box::new(Operand::Term(column("a"))), leaf(1))),
            Box::new(Operand::Equal(Box::new(Operand::Term(column("b"))), leaf(2)))
        )
    );
}

#[test]
fn test_one_reduction_for_each_operator() {
    // an operator that arrives reduces the top of the stacks once; what is
    // left is reduced from the right at the end
    assert_eq!(
        where_of("a = 1 + 2 * 3 and b or c"),
        Operand::Equal(
            Box::new(Operand::Term(column("a"))),
            Box::new(Operand::Addition(
                leaf(1),
                Box::new(Operand::Or(
                    Box::new(Operand::And(
                        Box::new(Operand::Multiplication(leaf(2), leaf(3))),
                        Box::new(Operand::Term(column("b")))
                    )),
                    Box::new(Operand::Term(column("c")))
                ))
            ))
        )
    );
}

#[test]
fn test_comparison_operators() {
    let a = || Box::new(Operand::Term(column("a")));
    assert_eq!(where_of("a = 1"), Operand::Equal(a(), leaf(1)));
    assert_eq!(where_of("a < 1"), Operand::LessThan(a(), leaf(1)));
    assert_eq!(where_of("a > 1"), Operand::GreaterThan(a(), leaf(1)));
    assert_eq!(where_of("a <= 1"), Operand::LessThanOrEqual(a(), leaf(1)));
    assert_eq!(where_of("a >= 1"), Operand::GreaterThanOrEqual(a(), leaf(1)));
}

#[test]
fn test_engine_parenthesis_override() {
    let mut engine = ExpressionEngine::new();
    engine.push_left_parenthesis();
    engine.push_term(whole(1));
    engine.push_operator(Token::Plus).unwrap();
    engine.push_term(whole(2));
    engine.close_group().unwrap();
    engine.push_operator(Token::Star).unwrap();
    engine.push_term(whole(3));
    assert_eq!(
        engine.finish(),
        Ok(Term::Operand(Box::new(Operand::Multiplication(
            Box::new(Operand::Addition(leaf(1), leaf(2))),
            leaf(3)
        ))))
    );
}

#[test]
fn test_engine_group_on_the_right() {
    // 1 * (2 + 3)
    let mut engine = ExpressionEngine::new();
    engine.push_term(whole(1));
    engine.push_operator(Token::Star).unwrap();
    engine.push_left_parenthesis();
    assert_eq!(engine.operators_in_group(), 0);
    engine.push_term(whole(2));
    engine.push_operator(Token::Plus).unwrap();
    assert_eq!(engine.operators_in_group(), 1);
    engine.push_term(whole(3));
    assert_eq!(engine.operand_count(), 3);
    engine.close_group().unwrap();
    assert_eq!(engine.operand_count(), 2);
    assert_eq!(
        engine.finish(),
        Ok(Term::Operand(Box::new(Operand::Multiplication(
            leaf(1),
            Box::new(Operand::Addition(leaf(2), leaf(3)))
        ))))
    );
}

#[test]
fn test_engine_unbalanced_parenthesis() {
    let mut engine = ExpressionEngine::new();
    engine.push_term(whole(1));
    engine.push_left_parenthesis();
    engine.push_term(whole(2));
    assert_eq!(
        engine.finish(),
        Err(ParseError::OperandCompactionIssue(
            "unexpected parenthesis on final compaction".to_string()
        ))
    );
}

#[test]
fn test_engine_leftover_counts() {
    assert_eq!(
        ExpressionEngine::new().finish(),
        Err(ParseError::OperandCompactionIssue(
            "expected to have 1 operand and no operators".to_string()
        ))
    );
    let mut engine = ExpressionEngine::new();
    engine.push_term(whole(1));
    engine.push_operator(Token::Plus).unwrap();
    assert_eq!(
        engine.finish(),
        Err(ParseError::OperandCompactionIssue(
            "expected to have 1 operand and no operators".to_string()
        ))
    );
}

#[test]
fn test_engine_operator_without_node() {
    let mut engine = ExpressionEngine::new();
    engine.push_term(whole(1));
    engine.push_operator(Token::Not).unwrap();
    engine.push_term(whole(2));
    assert_eq!(engine.finish(), Err(ParseError::OperandTokenNotImplemented(Token::Not)));
}

#[test]
fn test_apply_operator_to_terms() {
    assert_eq!(
        apply_operator_to_terms(Token::Plus, leaf(1), leaf(2)),
        Ok(Box::new(Operand::Addition(leaf(1), leaf(2))))
    );
    assert_eq!(
        apply_operator_to_terms(Token::NotEqual, leaf(1), leaf(2)),
        Ok(Box::new(Operand::NotEqual(leaf(1), leaf(2))))
    );
    assert_eq!(
        apply_operator_to_terms(Token::Or, leaf(1), leaf(2)),
        Ok(Box::new(Operand::Or(leaf(1), leaf(2))))
    );
    assert_eq!(
        apply_operator_to_terms(Token::Comma, leaf(1), leaf(2)),
        Err(ParseError::InvalidToken(Token::Comma))
    );
    assert_eq!(
        apply_operator_to_terms(Token::In, leaf(1), leaf(2)),
        Err(ParseError::OperandTokenNotImplemented(Token::In))
    );
}

#[test]
fn test_operator_precedence_table() {
    assert_eq!(operator_precedence(&Token::Or), 7);
    assert_eq!(operator_precedence(&Token::And), 8);
    assert_eq!(operator_precedence(&Token::Equal), 9);
    assert_eq!(operator_precedence(&Token::NotEqual), 9);
    assert_eq!(operator_precedence(&Token::LessThan), 9);
    assert_eq!(operator_precedence(&Token::LessThanEqual), 9);
    assert_eq!(operator_precedence(&Token::GreaterThan), 9);
    assert_eq!(operator_precedence(&Token::GreaterThanEqual), 9);
    assert_eq!(operator_precedence(&Token::Plus), 10);
    assert_eq!(operator_precedence(&Token::Minus), 10);
    assert_eq!(operator_precedence(&Token::Star), 11);
    assert_eq!(operator_precedence(&Token::ForwardSlash), 11);
    assert_eq!(operator_precedence(&Token::Not), 0);
    assert_eq!(operator_precedence(&Token::LeftParenthesis), 0);
}

#[test]
fn test_parenthesis_does_not_start_an_expression() {
    assert_eq!(
        parse("select * from bike where (1+2)*3;"),
        Err(ParseError::OperandCompactionIssue(
            "expected to have 1 operand and no operators".to_string()
        ))
    );
}

#[test]
fn test_select_star_from_qualified_table() {
    let select = select_of("select * from items.bike;");
    assert_eq!(select.select_expressions, vec![SelectExpression::Star]);
    assert_eq!(
        select.from_expression,
        TableExpression::Table { schema: Some("items".to_string()), table: "bike".to_string() }
    );
    assert_eq!(select.where_expression, None);
}

#[test]
fn test_nested_select() {
    let select = select_of("select * from (select * from bike) as bike_select;");
    assert_eq!(select.select_expressions, vec![SelectExpression::Star]);
    assert_eq!(select.where_expression, None);
    assert_eq!(
        select.from_expression,
        TableExpression::Select {
            select_statement: Box::new(SelectStatement {
                select_expressions: vec![SelectExpression::Star],
                from_expression: table("bike"),
                where_expression: None,
            }),
            alias: Some("bike_select".to_string()),
        }
    );
}

#[test]
fn test_nested_select_without_alias() {
    let select = select_of("select * from (select a from bike where a = 1);");
    match select.from_expression {
        TableExpression::Select { select_statement, alias } => {
            assert_eq!(alias, None);
            assert_eq!(
                select_statement.select_expressions,
                vec![SelectExpression::Expression {
                    expression: expression_of(column("a")),
                    alias: None
                }]
            );
        }
        other => panic!("no nested statement: {:?}", other),
    }
}

#[test]
fn test_select_list_items() {
    let select = select_of("select id, bike.*, value as v, *, items.name from bike;");
    assert_eq!(
        select.select_expressions,
        vec![
            SelectExpression::Expression { expression: expression_of(column("id")), alias: None },
            SelectExpression::Family { name: "bike".to_string() },
            SelectExpression::Expression {
                expression: expression_of(column("value")),
                alias: Some("v".to_string())
            },
            SelectExpression::Star,
            SelectExpression::Expression {
                expression: expression_of(Term::Column(Column::Direct {
                    schema: Some("items".to_string()),
                    column_name: "name".to_string()
                })),
                alias: None
            },
        ]
    );
    assert_eq!(select.from_expression, table("bike"));
}

#[test]
fn test_empty_select_list() {
    let select = select_of("select from bike;");
    assert_eq!(select.select_expressions, Vec::<SelectExpression>::new());
}

#[test]
fn test_white_space_between_tokens_changes_nothing() {
    assert_eq!(
        parse("select a,b from bike where a=1;"),
        parse("  select   a ,  b \n from \t bike   where  a  =  1  ;  ")
    );
    assert_eq!(
        parse("select * from bike where 1 + 2;"),
        parse("select * from bike where 1    +\n2;")
    );
}

#[test]
fn test_keywords_in_upper_case() {
    assert_eq!(parse("SELECT * FROM bike WHERE a = 1;"), parse("select * from bike where a = 1;"));
}

#[test]
fn test_where_clause_with_float_literal() {
    assert_eq!(
        where_of("value > 90.0"),
        Operand::GreaterThan(
            Box::new(Operand::Term(column("value"))),
            Box::new(Operand::Term(Term::Value(Value::Numeric(Numeric::Float(
                "90.0".to_string()
            )))))
        )
    );
    let text = match where_of("90.5") {
        Operand::Term(Term::Value(Value::Numeric(Numeric::Float(text)))) => text,
        other => panic!("no float: {:?}", other),
    };
    assert_eq!(text.parse::<f64>(), Ok(90.5));
}

#[test]
fn test_function_call_terms() {
    let mut parser = Parser::from_tokens(lex("f()".to_string()), false);
    assert_eq!(
        parser.match_base_term(),
        Ok(Term::Function(Function::UserDefined { name: "f".to_string(), terms: vec![] }))
    );
    let mut parser = Parser::from_tokens(lex("sum(value)".to_string()), false);
    assert_eq!(
        parser.match_base_term(),
        Ok(Term::Function(Function::UserDefined {
            name: "sum".to_string(),
            terms: vec![expression_of(column("value"))]
        }))
    );
    let mut parser = Parser::from_tokens(lex("g(a, 1 + 2)".to_string()), false);
    assert_eq!(
        parser.match_base_term(),
        Ok(Term::Function(Function::UserDefined {
            name: "g".to_string(),
            terms: vec![
                expression_of(column("a")),
                Term::Operand(Box::new(Operand::Addition(leaf(1), leaf(2))))
            ]
        }))
    );
    let mut parser = Parser::from_tokens(lex("count(*)".to_string()), false);
    assert_eq!(
        parser.match_base_term(),
        Err(ParseError::NotImplemented("match_term".to_string()))
    );
}

#[test]
fn test_base_terms() {
    let mut parser = Parser::from_tokens(lex("items.bike".to_string()), false);
    assert_eq!(
        parser.match_base_term(),
        Ok(Term::Column(Column::Direct {
            schema: Some("items".to_string()),
            column_name: "bike".to_string()
        }))
    );
    let mut parser = Parser::from_tokens(lex("42".to_string()), false);
    assert_eq!(parser.match_base_term(), Ok(whole(42)));
    let mut parser = Parser::from_tokens(lex("1.2.3".to_string()), false);
    assert_eq!(parser.match_base_term(), Err(ParseError::InvalidNumber("1.2.3".to_string())));
    let mut parser = Parser::from_tokens(lex("'text'".to_string()), false);
    assert_eq!(
        parser.match_base_term(),
        Err(ParseError::NotImplemented("match_term".to_string()))
    );
    let mut parser = Parser::from_tokens(Vec::new(), false);
    assert_eq!(parser.match_base_term(), Err(ParseError::NoMoreTokens));
}

#[test]
fn test_table_name() {
    let mut parser = Parser::from_tokens(lex("items.bike x".to_string()), false);
    assert_eq!(parser.match_table_name(), Ok((Some("items".to_string()), "bike".to_string())));
    assert_eq!(parser.log_debug().1, 4);
    let mut parser = Parser::from_tokens(lex("bike . x".to_string()), false);
    assert_eq!(parser.match_table_name(), Ok((None, "bike".to_string())));
    assert_eq!(parser.log_debug().1, 2);
    let mut parser = Parser::from_tokens(lex("* x".to_string()), false);
    assert_eq!(parser.match_table_name(), Err(ParseError::InvalidToken(Token::Star)));
    assert_eq!(parser.log_debug().1, 0);
}

#[test]
fn test_cursor_primitives() {
    let mut parser = Parser::from_tokens(lex("a   b".to_string()), true);
    assert_eq!(parser.next_token(), Ok(Token::Identifier("a".to_string())));
    assert!(parser.peek_match_token_types(vec![Token::Identifier(String::new()), Token::Space]));
    assert!(!parser.peek_match_token_types(vec![Token::Identifier(String::new()), Token::Period]));
    assert!(!parser.peek_match_token_types(vec![
        Token::Identifier(String::new()),
        Token::Space,
        Token::Identifier(String::new()),
        Token::Space
    ]));
    assert_eq!(
        parser.match_token(Token::Identifier("b".to_string())),
        Err(ParseError::InvalidNextToken(
            Token::Identifier("b".to_string()),
            Token::Identifier("a".to_string())
        ))
    );
    assert_eq!(parser.log_debug().1, 0);
    assert_eq!(parser.match_token(Token::Identifier("a".to_string())), Ok(()));
    assert_eq!(parser.log_debug().1, 2);
    assert_eq!(parser.expression_continues(), Ok(true));
    assert!(!parser.read_next_token());
    assert_eq!(parser.log_debug().1, 3);
    assert_eq!(parser.next_token(), Err(ParseError::NoMoreTokens));
    assert_eq!(parser.match_token(Token::Comma), Err(ParseError::NoMoreTokens));
    assert_eq!(parser.expression_continues(), Err(ParseError::NoMoreTokens));
    assert_eq!(parser.log_debug().2, true);
    assert_eq!(parser.log_debug().0.len(), 3);
}

#[test]
fn test_failure_where_without_expression() {
    assert_eq!(
        parse("select * from bike where ;"),
        Err(ParseError::OperandCompactionIssue(
            "expected to have 1 operand and no operators".to_string()
        ))
    );
}

#[test]
fn test_failure_without_semicolon() {
    assert_eq!(parse("select * from bike"), Err(ParseError::NoMoreTokens));
    assert_eq!(parse("select * from bike where a = 1"), Err(ParseError::NoMoreTokens));
    assert_eq!(
        parse("select * from bike )"),
        Err(ParseError::InvalidNextToken(Token::Semicolon, Token::RightParenthesis))
    );
}

#[test]
fn test_failure_of_each_kind() {
    assert_eq!(parse(""), Err(ParseError::EmptyQueryString));
    assert_eq!(parse("   "), Err(ParseError::NoMoreTokens));
    assert_eq!(parse("from bike;"), Err(ParseError::InvalidToken(Token::From)));
    assert_eq!(
        parse("select a, from bike;"),
        Err(ParseError::InvalidToken(Token::From))
    );
    assert_eq!(
        parse("select a b from bike;"),
        Err(ParseError::NotImplemented(
            "expected an expression operator or right parenthesis".to_string()
        ))
    );
    assert_eq!(
        parse("select a as 1 from bike;"),
        Err(ParseError::InvalidToken(Token::Number("1".to_string())))
    );
    assert_eq!(parse("select"), Err(ParseError::NoMoreTokens));
    assert_eq!(
        parse("select 1.2.3 from bike;"),
        Err(ParseError::InvalidNumber("1.2.3".to_string()))
    );
    assert_eq!(
        parse("select a not b from bike;"),
        Err(ParseError::OperandTokenNotImplemented(Token::Not))
    );
    assert_eq!(
        parse("select * from 5;"),
        Err(ParseError::NotImplemented("table expression type not implemented".to_string()))
    );
    assert_eq!(
        parse("select * bike;"),
        Err(ParseError::InvalidNextToken(Token::Comma, Token::Identifier("bike".to_string())))
    );
    assert_eq!(
        parse("select # from bike;"),
        Err(ParseError::OperandCompactionIssue(
            "expected to have 1 operand and no operators".to_string()
        ))
    );
}

#[test]
fn test_function_call_leaves_its_parenthesis() {
    assert_eq!(
        parse("select f(a) from bike;"),
        Err(ParseError::InvalidNextToken(Token::Comma, Token::RightParenthesis))
    );
}

#[test]
fn test_read_number() {
    assert_eq!(read_number("42".to_string()), Ok(Numeric::Int(42)));
    assert_eq!(read_number("007".to_string()), Ok(Numeric::Int(7)));
    assert_eq!(read_number("-5".to_string()), Ok(Numeric::Int(-5)));
    assert_eq!(read_number("+5".to_string()), Ok(Numeric::Int(5)));
    assert_eq!(
        read_number("9223372036854775807".to_string()),
        Ok(Numeric::Int(9223372036854775807))
    );
    assert_eq!(
        read_number("-9223372036854775808".to_string()),
        Ok(Numeric::Int(i64::MIN))
    );
    assert_eq!(
        read_number("9223372036854775808".to_string()),
        Ok(Numeric::Float("9223372036854775808".to_string()))
    );
    assert_eq!(read_number("90.0".to_string()), Ok(Numeric::Float("90.0".to_string())));
    assert_eq!(read_number("1.".to_string()), Ok(Numeric::Float("1.".to_string())));
    assert_eq!(read_number(".".to_string()), Err(ParseError::InvalidNumber(".".to_string())));
    assert_eq!(read_number("".to_string()), Err(ParseError::InvalidNumber("".to_string())));
    assert_eq!(
        read_number("1.2.3".to_string()),
        Err(ParseError::InvalidNumber("1.2.3".to_string()))
    );
}

#[test]
fn test_float_text_agrees_with_the_standard_parser() {
    let texts = vec![
        "", ".", "1", "1.", ".5", "1.5", "+1.5", "-1.5", "1e5", "1E5", "1e+5", "1e-5", "1e", "e5",
        "1.e5", ".e5", "1.5e", "1.5e+", "inf", "-inf", "+INF", "Infinity", "infinit", "nan",
        "NaN", "-nan", "nane", "1.2.3", "1 ", " 1", "1_000", "0x10", "+", "-", "++1", "1e5.0",
        "12345678901234567890", "1f",
    ];
    for text in texts {
        assert_eq!(is_float_text(text), text.parse::<f64>().is_ok(), "{:?}", text);
    }
}

#[test]
fn test_error_descriptions() {
    assert_eq!(ParseError::EmptyQueryString.to_string(), "empty query string");
    assert_eq!(ParseError::NoMoreTokens.to_string(), "no more tokens");
    assert_eq!(
        ParseError::InvalidNumber("1.2.3".to_string()).to_string(),
        "unable to parse number: 1.2.3"
    );
    assert_eq!(
        ParseError::NotImplemented("match_term".to_string()).to_string(),
        "not implemented: match_term"
    );
    assert_eq!(
        ParseError::OperandCompactionIssue("x".to_string()).to_string(),
        "operand compaction issue: x"
    );
    assert_eq!(ParseError::InvalidToken(Token::From).to_string(), "invalid next token");
    assert_eq!(
        ParseError::InvalidNextToken(Token::From, Token::Comma).to_string(),
        "invalid next token, other than expected"
    );
    assert_eq!(
        ParseError::OperandTokenNotImplemented(Token::Not).to_string(),
        "operand not implemented"
    );
}

#[test]
fn test_quote_type_of_a_unit() {
    assert_eq!(QuoteType::try_from(&vec!['\'']).unwrap(), QuoteType::Single);
    assert_eq!(QuoteType::try_from(&vec!['"']).unwrap(), QuoteType::Double);
    assert_eq!(QuoteType::try_from(&vec!['`']).unwrap(), QuoteType::Backtick);
    assert_eq!(QuoteType::Single.to_string(), "'");
    assert_eq!(QuoteType::Double.to_string(), "\"");
    assert_eq!(QuoteType::Backtick.to_string(), "`");
    assert_eq!(QuoteType::Single.to_char(), '\'');
    assert_eq!(QuoteType::Double.to_char(), '"');
    assert_eq!(QuoteType::Backtick.to_char(), '`');
    match QuoteType::try_from(&vec!['x', 'y']) {
        Err(TokenizationError::TypeNotFound(text)) => assert_eq!(text, "xy"),
        Ok(q) => panic!("a quote type: {:?}", q),
    }
    assert_eq!(
        TokenizationError::TypeNotFound("xy".to_string()).to_string(),
        "invalid token type: xy"
    );
    match QuoteType::try_from(&vec!['\'', '\'']) {
        Err(TokenizationError::TypeNotFound(text)) => assert_eq!(text, "''"),
        Ok(q) => panic!("a quote type: {:?}", q),
    }
}

#[test]
fn test_clone_keeps_the_tree() {
    let statement = parse(
        "select a, bike.*, b + 1 as c from (select * from items.bike where x >= 2.5) as t where a = 1 or b < 2;",
    )
    .unwrap();
    assert_eq!(statement.clone(), statement);
    let mut parser = Parser::from_tokens(lex("g(a, 1 + 2)".to_string()), false);
    let call = parser.match_base_term().unwrap();
    assert_eq!(call.clone(), call);
    assert_eq!(
        call,
        Term::Function(Function::UserDefined {
            name: "g".to_string(),
            terms: vec![
                expression_of(column("a")),
                Term::Operand(Box::new(Operand::Addition(leaf(1), leaf(2))))
            ]
        })
    );
}

#[test]
fn test_float_text_on_all_short_texts() {
    let alphabet = ['0', '7', '.', 'e', 'E', '+', '-', 'i', 'n', 'f', 'a', 'N', ' ', 'x'];
    let mut texts: Vec<String> = vec![String::new()];
    let mut start = 0;
    for _ in 0..4 {
        let end = texts.len();
        for k in start..end {
            for c in alphabet {
                let mut longer = texts[k].clone();
                longer.push(c);
                texts.push(longer);
            }
        }
        start = end;
    }
    assert_eq!(texts.len(), 1 + 14 + 14 * 14 + 14 * 14 * 14 + 14 * 14 * 14 * 14);
    for text in &texts {
        assert_eq!(is_float_text(text), text.parse::<f64>().is_ok(), "{:?}", text);
    }
    for text in ["infinity", "INFINITY", "-Infinity", "+infinity", "infinityy", "1.5e-10", "1.5e+-1"] {
        assert_eq!(is_float_text(text), text.parse::<f64>().is_ok(), "{:?}", text);
    }
}

#[test]
fn test_read_number_agrees_with_the_standard_parsers() {
    let alphabet = ['0', '9', '.', '+', '-', 'e', ' '];
    let mut texts: Vec<String> = vec![String::new()];
    let mut start = 0;
    for _ in 0..5 {
        let end = texts.len();
        for k in start..end {
            for c in alphabet {
                let mut longer = texts[k].clone();
                longer.push(c);
                texts.push(longer);
            }
        }
        start = end;
    }
    for text in texts {
        let expected = match (text.parse::<i64>(), text.parse::<f64>()) {
            (Ok(v), _) => Ok(Numeric::Int(v)),
            (Err(_), Ok(_)) => Ok(Numeric::Float(text.clone())),
            (Err(_), Err(_)) => Err(ParseError::InvalidNumber(text.clone())),
        };
        assert_eq!(read_number(text), expected);
    }
}
