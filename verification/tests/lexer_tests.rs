use select_parser::lexer::{
    lex, lex_units, KeywordTokenizer, NumberTokenizer, QuotedTokenizer, Scanner, SpaceTokenizer,
    SymbolTokenizer,
};
use select_parser::token::Token;

fn vecs_equal<T: PartialEq>(a: &Vec<T>, b: &Vec<T>) -> bool {
    let matching = a.iter().zip(b.iter()).filter(|&(a, b)| a == b).count();
    matching == a.len() && matching == b.len()
}

fn id(name: &str) -> Token {
    Token::Identifier(name.to_string())
}

fn num(text: &str) -> Token {
    Token::Number(text.to_string())
}

#[test]
fn test_token_types_match() {
    let test_cases = vec![
        ("identifiers_equal", id("a1"), id("a2"), true),
        ("periods_equal", Token::Period, Token::Period, true),
        ("tokens_not_equal", Token::Period, Token::Comma, false),
        ("tokens_not_equal_id_and_num", id("a"), num("123"), false),
    ];

    for (case_name, t1, t2, expected_result) in test_cases {
        println!("running test case: {}", case_name);
        let result = Token::token_types_match(t1, t2);
        assert_eq!(expected_result, result);
    }
}

#[test]
fn test_lex_with_basic_sql_statements() {
    let test_cases = vec![
        (
            "sample-1",
            String::from("select * from bike
        where id = 42 and value > 90.0 and name = 'ðŸ¥µ'"),
            vec![
                Token::Select,
                Token::Space,
                Token::Star,
                Token::Space,
                Token::From,
                Token::Space,
                id("bike"),
                Token::Space,
                Token::Where,
                Token::Space,
                id("id"),
                Token::Space,
                Token::Equal,
                Token::Space,
                num("42"),
                Token::Space,
                Token::And,
                Token::Space,
                id("value"),
                Token::Space,
                Token::GreaterThan,
                Token::Space,
                num("90.0"),
                Token::Space,
                Token::And,
                Token::Space,
                id("name"),
                Token::Space,
                Token::Equal,
                Token::Space,
                Token::StringToken("ðŸ¥µ".to_string()),
            ],
        ),
        (
            "sample-2",
            String::from("select * from bike
        where lower(store) = 'bike stuff';"),
            vec![
                Token::Select,
                Token::Space,
                Token::Star,
                Token::Space,
                Token::From,
                Token::Space,
                id("bike"),
                Token::Space,
                Token::Where,
                Token::Space,
                id("lower"),
                Token::LeftParenthesis,
                id("store"),
                Token::RightParenthesis,
                Token::Space,
                Token::Equal,
                Token::Space,
                Token::StringToken("bike stuff".to_string()),
                Token::Semicolon,
            ],
        ),
        (
            "sample-3",
            String::from("select id, name, value, payment_per_year from bike where true;"),
            vec![
                Token::Select,
                Token::Space,
                id("id"),
                Token::Comma,
                Token::Space,
                id("name"),
                Token::Comma,
                Token::Space,
                id("value"),
                Token::Comma,
                Token::Space,
                id("payment_per_year"),
                Token::Space,
                Token::From,
                Token::Space,
                id("bike"),
                Token::Space,
                Token::Where,
                Token::Space,
                Token::True,
                Token::Semicolon,
            ],
        ),
        (
            "sample-3",
            String::from(
                "select id, name, value, payment_per_year from bike where value >= 2 or value <= 5;",
            ),
            vec![
                Token::Select,
                Token::Space,
                id("id"),
                Token::Comma,
                Token::Space,
                id("name"),
                Token::Comma,
                Token::Space,
                id("value"),
                Token::Comma,
                Token::Space,
                id("payment_per_year"),
                Token::Space,
                Token::From,
                Token::Space,
                id("bike"),
                Token::Space,
                Token::Where,
                Token::Space,
                id("value"),
                Token::Space,
                Token::GreaterThanEqual,
                Token::Space,
                num("2"),
                Token::Space,
                Token::Or,
                Token::Space,
                id("value"),
                Token::Space,
                Token::LessThanEqual,
                Token::Space,
                num("5"),
                Token::Semicolon,
            ],
        ),
    ];

    for (case_name, query, expected_tokens) in test_cases {
        println!("running test case: {}", case_name);
        let tokens = lex(query);
        println!("expected: {:?}", expected_tokens);
        println!("actual: {:?}", tokens);
        assert_eq!(vecs_equal(&tokens, &expected_tokens), true);
    }
}

fn lexed(query: &str) -> Vec<Token> {
    lex(query.to_string())
}

#[test]
fn test_lex_empty_query_has_no_tokens() {
    assert_eq!(lexed(""), Vec::<Token>::new());
}

#[test]
fn test_lex_keywords_in_any_case() {
    assert_eq!(lexed("SELECT"), vec![Token::Select]);
    assert_eq!(lexed("select"), vec![Token::Select]);
    assert_eq!(lexed("SeLeCt"), vec![Token::Select]);
    assert_eq!(
        lexed("where from and or not limit is as null order by asc desc in true false"),
        vec![
            Token::Where,
            Token::Space,
            Token::From,
            Token::Space,
            Token::And,
            Token::Space,
            Token::Or,
            Token::Space,
            Token::Not,
            Token::Space,
            Token::Limit,
            Token::Space,
            Token::Is,
            Token::Space,
            Token::As,
            Token::Space,
            Token::Null,
            Token::Space,
            Token::Order,
            Token::Space,
            Token::By,
            Token::Space,
            Token::Asc,
            Token::Space,
            Token::Desc,
            Token::Space,
            Token::In,
            Token::Space,
            Token::True,
            Token::Space,
            Token::False,
        ]
    );
}

#[test]
fn test_lex_identifiers() {
    assert_eq!(lexed("_x1"), vec![id("_x1")]);
    assert_eq!(lexed("selected"), vec![id("selected")]);
    assert_eq!(lexed("a1b2"), vec![id("a1b2")]);
    // a word does not start with a digit
    assert_eq!(lexed("1a"), vec![num("1"), id("a")]);
}

#[test]
fn test_lex_symbols() {
    assert_eq!(
        lexed("*,<<=>>==();.+-/"),
        vec![
            Token::Star,
            Token::Comma,
            Token::LessThan,
            Token::LessThanEqual,
            Token::GreaterThan,
            Token::GreaterThanEqual,
            Token::Equal,
            Token::LeftParenthesis,
            Token::RightParenthesis,
            Token::Semicolon,
            Token::Period,
            Token::Plus,
            Token::Minus,
            Token::ForwardSlash,
        ]
    );
}

#[test]
fn test_lex_exclamation_mark_opens_no_symbol() {
    assert_eq!(lexed("!="), vec![Token::UndefinedTokenType, Token::Equal]);
    assert_eq!(lexed("a != b"), vec![
        id("a"),
        Token::Space,
        Token::UndefinedTokenType,
        Token::Equal,
        Token::Space,
        id("b"),
    ]);
}

#[test]
fn test_lex_numbers() {
    assert_eq!(lexed("42"), vec![num("42")]);
    assert_eq!(lexed("90.0"), vec![num("90.0")]);
    assert_eq!(lexed("1.2.3"), vec![num("1.2.3")]);
    // a period alone is a symbol, and a number does not start with one
    assert_eq!(lexed(".5"), vec![Token::Period, num("5")]);
    assert_eq!(lexed("1+2"), vec![num("1"), Token::Plus, num("2")]);
}

#[test]
fn test_lex_white_space_run_is_one_token() {
    assert_eq!(lexed("a b"), vec![id("a"), Token::Space, id("b")]);
    assert_eq!(lexed("a \t\n  b"), vec![id("a"), Token::Space, id("b")]);
    assert_eq!(lexed("a\u{2003}b"), vec![id("a"), Token::Space, id("b")]);
    assert_eq!(lexed("   "), vec![Token::Space]);
}

#[test]
fn test_lex_quoted_literals() {
    assert_eq!(lexed("'bike stuff'"), vec![Token::StringToken("bike stuff".to_string())]);
    assert_eq!(lexed("\"my table\""), vec![id("my table")]);
    assert_eq!(lexed("`my table`"), vec![id("my table")]);
    assert_eq!(lexed("''"), vec![Token::StringToken(String::new())]);
    // other quote characters are plain text inside a literal
    assert_eq!(lexed("'a\"b'"), vec![Token::StringToken("a\"b".to_string())]);
}

#[test]
fn test_lex_escaped_quote_stays_in_the_literal() {
    assert_eq!(lexed("'a\\'b'"), vec![Token::StringToken("a\\'b".to_string())]);
    assert_eq!(lexed("'a\\'b' c"), vec![
        Token::StringToken("a\\'b".to_string()),
        Token::Space,
        id("c"),
    ]);
}

#[test]
fn test_lex_unterminated_literal_runs_to_the_end() {
    assert_eq!(lexed("'abc"), vec![Token::StringToken("abc".to_string())]);
    assert_eq!(lexed("x = 'abc def;"), vec![
        id("x"),
        Token::Space,
        Token::Equal,
        Token::Space,
        Token::StringToken("abc def;".to_string()),
    ]);
}

#[test]
fn test_lex_emoji_is_one_unit() {
    assert_eq!(lexed("'\u{1F975}'"), vec![Token::StringToken("\u{1F975}".to_string())]);
    assert_eq!(lexed("\u{1F975}"), vec![Token::UndefinedTokenType]);
    // a flag is two code points and one cluster
    assert_eq!(lexed("a\u{1F1F7}\u{1F1FA}b"), vec![id("a"), Token::UndefinedTokenType, id("b")]);
    assert_eq!(lexed("#"), vec![Token::UndefinedTokenType]);
}

#[test]
fn test_lex_cluster_with_combining_mark() {
    // the cluster belongs to the word by its first character
    assert_eq!(lexed("a\u{310}b"), vec![id("a\u{310}b")]);
    // a symbol followed by a mark is no symbol of the table
    assert_eq!(lexed("*\u{310}"), vec![id("*\u{310}")]);
}

#[test]
fn test_lex_concatenation_without_open_token() {
    let left = lexed("select * ;");
    let right = lexed("from bike");
    let mut both = left;
    both.extend(right);
    assert_eq!(lexed("select * ;from bike"), both);
    // a token that spans the boundary is read as one
    assert_eq!(lexed("sel"), vec![id("sel")]);
    assert_eq!(lexed("ect"), vec![id("ect")]);
    assert_eq!(lexed("select"), vec![Token::Select]);
}

#[test]
fn test_lex_extra_white_space_changes_no_token() {
    assert_eq!(lexed("select  *   from\n\n bike ;"), lexed("select * from bike ;"));
}

#[test]
fn test_kind_match_properties() {
    let all = vec![
        Token::Select,
        Token::Where,
        Token::From,
        Token::And,
        Token::Or,
        Token::Not,
        Token::Limit,
        Token::Is,
        Token::As,
        Token::Null,
        Token::Order,
        Token::By,
        Token::Asc,
        Token::Desc,
        Token::In,
        Token::True,
        Token::False,
        Token::Star,
        Token::Comma,
        Token::LessThan,
        Token::LessThanEqual,
        Token::GreaterThan,
        Token::GreaterThanEqual,
        Token::Equal,
        Token::NotEqual,
        Token::LeftParenthesis,
        Token::RightParenthesis,
        Token::Semicolon,
        Token::Period,
        Token::Space,
        Token::Plus,
        Token::Minus,
        Token::ForwardSlash,
        num("1"),
        Token::StringToken("s".to_string()),
        id("x"),
        Token::UndefinedTokenType,
    ];
    for (i, a) in all.iter().enumerate() {
        for (j, b) in all.iter().enumerate() {
            assert_eq!(Token::token_types_match(a.clone(), b.clone()), i == j);
        }
    }
    assert!(Token::token_types_match(num("1"), num("2")));
    assert!(Token::token_types_match(
        Token::StringToken("a".to_string()),
        Token::StringToken("b".to_string())
    ));
    assert!(Token::token_types_match(id("a"), id("b")));
    assert!(!Token::token_types_match(Token::Select, Token::From));
}

#[test]
fn test_is_expression_operator() {
    let operators = vec![
        Token::And,
        Token::Or,
        Token::Not,
        Token::Is,
        Token::In,
        Token::LessThan,
        Token::LessThanEqual,
        Token::GreaterThan,
        Token::GreaterThanEqual,
        Token::Equal,
        Token::NotEqual,
        Token::Plus,
        Token::Minus,
        Token::Star,
        Token::ForwardSlash,
    ];
    for t in operators {
        assert!(t.is_expression_operator());
    }
    let others = vec![
        Token::Select,
        Token::From,
        Token::Comma,
        Token::LeftParenthesis,
        Token::RightParenthesis,
        Token::Semicolon,
        Token::Period,
        Token::Space,
        num("1"),
        id("x"),
        Token::StringToken("s".to_string()),
        Token::UndefinedTokenType,
    ];
    for t in others {
        assert!(!t.is_expression_operator());
    }
}

fn unit(text: &str) -> Vec<char> {
    text.chars().collect()
}

fn units(texts: &[&str]) -> Vec<Vec<char>> {
    texts.iter().map(|text| unit(text)).collect()
}

#[test]
fn test_lex_units() {
    assert_eq!(lex_units(&Vec::new()), Vec::<Token>::new());
    assert_eq!(
        lex_units(&units(&["a", "b", " ", "<", "=", "1", ".", "5", "'", "x", "'"])),
        vec![
            id("ab"),
            Token::Space,
            Token::LessThanEqual,
            num("1.5"),
            Token::StringToken("x".to_string()),
        ]
    );
    // a unit without characters opens nothing
    assert_eq!(lex_units(&units(&[""])), vec![Token::UndefinedTokenType]);
    // nor does `_` with a mark on it
    assert_eq!(lex_units(&units(&["_\u{310}"])), vec![Token::UndefinedTokenType]);
    assert_eq!(lex_units(&units(&["<", "<"])), vec![Token::LessThan, Token::LessThan]);
    assert_eq!(lex_units(&units(&["=", "="])), vec![Token::Equal, Token::Equal]);
}

#[test]
fn test_starting_characters() {
    assert!(QuotedTokenizer::is_valid_starting_character(&unit("'")));
    assert!(QuotedTokenizer::is_valid_starting_character(&unit("\"")));
    assert!(QuotedTokenizer::is_valid_starting_character(&unit("`")));
    assert!(!QuotedTokenizer::is_valid_starting_character(&unit("''")));
    assert!(!QuotedTokenizer::is_valid_starting_character(&unit("a")));
    assert!(QuotedTokenizer::new(&unit("'")).is_some());
    assert!(QuotedTokenizer::new(&unit("a")).is_none());
    assert!(KeywordTokenizer::is_valid_starting_character(&unit("a")));
    assert!(KeywordTokenizer::is_valid_starting_character(&unit("Z")));
    assert!(KeywordTokenizer::is_valid_starting_character(&unit("_")));
    assert!(!KeywordTokenizer::is_valid_starting_character(&unit("1")));
    assert!(!KeywordTokenizer::is_valid_starting_character(&unit("\u{e9}")));
    assert!(!KeywordTokenizer::is_valid_starting_character(&unit("")));
    for symbol in ["*", ",", "<", ">", "=", "(", ")", ";", ".", "+", "-", "/"] {
        assert!(SymbolTokenizer::is_valid_starting_character(&unit(symbol)));
    }
    assert!(!SymbolTokenizer::is_valid_starting_character(&unit("!")));
    assert!(!SymbolTokenizer::is_valid_starting_character(&unit("a")));
    assert!(NumberTokenizer::is_valid_starting_character(&unit("0")));
    assert!(NumberTokenizer::is_valid_starting_character(&unit("9")));
    assert!(NumberTokenizer::is_valid_starting_character(&unit(".")));
    assert!(!NumberTokenizer::is_valid_starting_character(&unit("a")));
    assert!(SpaceTokenizer::is_valid_starting_character(&unit(" ")));
    assert!(SpaceTokenizer::is_valid_starting_character(&unit("\r\n")));
    assert!(!SpaceTokenizer::is_valid_starting_character(&unit("a")));
}

#[test]
fn test_scanner_by_hand() {
    let mut scanner = Scanner::open(&unit("<")).unwrap();
    assert_eq!(scanner.add_next_character(&unit("=")), (true, true));
    assert_eq!(scanner.to_token(), Token::LessThanEqual);
    let mut scanner = Scanner::open(&unit("=")).unwrap();
    assert_eq!(scanner.add_next_character(&unit("=")), (true, false));
    assert_eq!(scanner.to_token(), Token::Equal);
    let mut scanner = Scanner::open(&unit("f")).unwrap();
    assert_eq!(scanner.add_next_character(&unit("r")), (false, true));
    assert_eq!(scanner.add_next_character(&unit("O")), (false, true));
    assert_eq!(scanner.add_next_character(&unit("m")), (false, true));
    assert_eq!(scanner.add_next_character(&unit(" ")), (true, false));
    assert_eq!(scanner.to_token(), Token::From);
    let mut scanner = Scanner::open(&unit("'")).unwrap();
    assert_eq!(scanner.add_next_character(&unit("\\")), (false, true));
    assert_eq!(scanner.add_next_character(&unit("'")), (false, true));
    assert_eq!(scanner.add_next_character(&unit("'")), (true, true));
    assert_eq!(scanner.to_token(), Token::StringToken("\\'".to_string()));
    let mut scanner = Scanner::open(&unit(" ")).unwrap();
    assert_eq!(scanner.add_next_character(&unit("\t")), (false, true));
    assert_eq!(scanner.add_next_character(&unit("x")), (true, false));
    assert_eq!(scanner.to_token(), Token::Space);
    let mut scanner = Scanner::open(&unit("1")).unwrap();
    assert_eq!(scanner.add_next_character(&unit(".")), (false, true));
    assert_eq!(scanner.add_next_character(&unit("a")), (true, false));
    assert_eq!(scanner.to_token(), num("1."));
    assert!(Scanner::open(&unit("#")).is_none());
}

#[test]
fn test_keyword_and_symbol_tables() {
    let keywords = KeywordTokenizer::keywords();
    assert_eq!(keywords.len(), 17);
    for entry in &keywords {
        assert_eq!(lexed(entry.text), vec![entry.token.clone()]);
        assert_eq!(lexed(&entry.text.to_uppercase()), vec![entry.token.clone()]);
        assert_eq!(
            KeywordTokenizer::token_from_string(&unit(entry.text)),
            Some(entry.token.clone())
        );
    }
    assert_eq!(KeywordTokenizer::token_from_string(&unit("selec")), None);
    assert_eq!(KeywordTokenizer::token_from_string(&unit("")), None);
    let symbols = SymbolTokenizer::symbols();
    assert_eq!(symbols.len(), 15);
    for entry in &symbols {
        assert_eq!(
            SymbolTokenizer::token_from_string(&unit(entry.text)),
            Some(entry.token.clone())
        );
    }
    assert_eq!(SymbolTokenizer::token_from_string(&unit("!=")), Some(Token::NotEqual));
    assert_eq!(SymbolTokenizer::token_from_string(&unit("=<")), None);
    assert_eq!(
        KeywordTokenizer::match_keyword(Token::Select, "select", &unit("SELECT")),
        Some(Token::Select)
    );
    assert_eq!(KeywordTokenizer::match_keyword(Token::Select, "select", &unit("selects")), None);
    assert_eq!(SymbolTokenizer::match_symbol(Token::Star, "*", &unit("*")), Some(Token::Star));
    assert_eq!(SymbolTokenizer::match_symbol(Token::Star, "*", &unit("+")), None);
}
