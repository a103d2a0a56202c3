use vstd::prelude::*;
use crate::ast::{
    Column, Function, Numeric, SelectExpression, SelectStatement, Statement, TableExpression,
    Term, Value,
};
use crate::error::ParseError;
use crate::expression::{lemma_finished_needs_operand, ExpressionEngine};
use crate::grammar::{
    alias_at, arguments_at, base_term_at, call_at, continues_with, dotted_name_at, expect,
    expression_at, expression_from, family_at, kinds_at, next_index, number_of_text, plain,
    select_at, select_item_at, select_items_at, space_run, statement_at, table_expression_at,
    table_name_at, where_at, within,
};
use crate::lexer::{grapheme_clusters, lex, token_views, tokens_of};
use crate::number::{is_float_text, parse_int};
use crate::token::{same_kind, same_token, views_match, Token, TokenView};
use crate::views::{
    name_view, numeric_view, select_expression_view, select_expressions_view,
    select_statement_view, statement_view, table_expression_view, term_view, terms_view,
};

verus! {

/// Reads a number literal: a 64-bit integer where the text is one, else a
/// floating-point number kept as its text, else an error.
pub fn read_number(text: String) -> (r: Result<Numeric, ParseError>)
    ensures
        match number_of_text(text@) {
            Ok(n) => r is Ok && numeric_view(r->Ok_0) == n,
            Err(e) => r is Err && r->Err_0@ == e,
        },
{
    match parse_int(text.as_str()) {
        Some(v) => Ok(Numeric::Int(v)),
        None => if is_float_text(text.as_str()) {
            Ok(Numeric::Float(text))
        } else {
            Err(ParseError::InvalidNumber(text))
        },
    }
}

/// A parser over the tokens of one query, with a cursor into them.
#[derive(Debug)]
pub struct Parser {
    tokens: Vec<Token>,
    token_index: usize,
    enable_logging: bool,
}

impl Parser {
    /// The tokens of the query.
    pub closed spec fn tokens(&self) -> Seq<TokenView> {
        token_views(self.tokens@)
    }

    /// The index of the token that is read next.
    pub closed spec fn cursor(&self) -> int {
        self.token_index as int
    }

    /// Whether the parser was made with logging switched on.
    pub closed spec fn logging(&self) -> bool {
        self.enable_logging
    }

    /// The cursor stands inside the tokens or right behind them.
    pub open spec fn wf(&self) -> bool {
        0 <= self.cursor() <= self.tokens().len()
    }

    /// `self` is `before` with the cursor moved on or left in place.
    pub open spec fn advanced_from(&self, before: &Parser) -> bool {
        &&& self.tokens() == before.tokens()
        &&& self.logging() == before.logging()
        &&& self.wf()
        &&& self.cursor() >= before.cursor()
    }

    /// The token under the cursor, if there is one.
    pub open spec fn current(&self) -> Option<TokenView> {
        if within(self.tokens(), self.cursor()) {
            Some(self.tokens()[self.cursor()])
        } else {
            None
        }
    }

    /// A parser over the tokens of `query`, with the cursor on the first.
    pub fn new(query: String, enable_logging: bool) -> (p: Parser)
        ensures
            p.tokens() == tokens_of(grapheme_clusters(query@), None),
            p.cursor() == 0,
            p.logging() == enable_logging,
            p.wf(),
    {
        Parser { tokens: lex(query), token_index: 0, enable_logging }
    }

    /// A parser over given tokens, with the cursor on the first.
    pub fn from_tokens(tokens: Vec<Token>, enable_logging: bool) -> (p: Parser)
        ensures
            p.tokens() == token_views(tokens@),
            p.cursor() == 0,
            p.logging() == enable_logging,
            p.wf(),
    {
        Parser { tokens, token_index: 0, enable_logging }
    }

    /// The state of the parser, for diagnostics: its tokens, its cursor,
    /// and whether logging is on.
    pub fn log_debug(&self) -> (r: (&Vec<Token>, usize, bool))
        ensures
            token_views(r.0@) == self.tokens(),
            r.1 == self.cursor(),
            r.2 == self.logging(),
    {
        (&self.tokens, self.token_index, self.enable_logging)
    }

    /// Moves the cursor to the next token that is no `Space`, and says
    /// whether there is one.
    pub fn read_next_token(&mut self) -> (more: bool)
        requires
            old(self).wf(),
            old(self).current() is Some,
        ensures
            final(self).advanced_from(old(self)),
            final(self).cursor() == next_index(old(self).tokens(), old(self).cursor()),
            more == final(self).current() is Some,
    {
        assert(self.token_index < self.tokens.len());
        self.token_index += 1;
        while self.token_index < self.tokens.len() && matches!(
            self.tokens[self.token_index],
            Token::Space
        )
            invariant
                self.tokens == old(self).tokens,
                self.enable_logging == old(self).enable_logging,
                old(self).token_index < self.token_index <= self.tokens.len(),
                self.token_index + space_run(self.tokens(), self.token_index as int)
                    == next_index(old(self).tokens(), old(self).token_index as int),
            decreases self.tokens.len() - self.token_index,
        {
            self.token_index += 1;
        }
        self.token_index < self.tokens.len()
    }

    /// Whether the tokens from the cursor on are of the kinds of
    /// `expected_tokens`, one by one. Moves nothing.
    pub fn peek_match_token_types(&self, expected_tokens: Vec<Token>) -> (r: bool)
        requires
            self.wf(),
        ensures
            r == kinds_at(self.tokens(), self.cursor(), token_views(expected_tokens@)),
    {
        if expected_tokens.len() > self.tokens.len() - self.token_index {
            return false;
        }
        let ghost expected = token_views(expected_tokens@);
        let mut k: usize = 0;
        while k < expected_tokens.len()
            invariant
                k <= expected_tokens.len(),
                expected == token_views(expected_tokens@),
                self.token_index + expected_tokens.len() <= self.tokens.len(),
                forall|j: int|
                    0 <= j < k ==> views_match(
                        #[trigger] expected[j],
                        self.tokens()[self.token_index + j],
                    ),
            decreases expected_tokens.len() - k,
        {
            if !same_kind(&expected_tokens[k], &self.tokens[self.token_index + k]) {
                assert(!views_match(expected[k as int], self.tokens()[self.token_index + k]));
                return false;
            }
            k += 1;
        }
        true
    }

    /// The token under the cursor.
    pub fn next_token(&self) -> (r: Result<Token, ParseError>)
        ensures
            match self.current() {
                Some(t) => r is Ok && r->Ok_0@ == t,
                None => r == Err::<Token, ParseError>(ParseError::NoMoreTokens),
            },
    {
        if self.token_index < self.tokens.len() {
            Ok(self.tokens[self.token_index].clone())
        } else {
            Err(ParseError::NoMoreTokens)
        }
    }

    /// Reads the token under the cursor if it equals `expected_token` in
    /// kind and in text; else fails and moves nothing.
    pub fn match_token(&mut self, expected_token: Token) -> (r: Result<(), ParseError>)
        requires
            old(self).wf(),
        ensures
            final(self).advanced_from(old(self)),
            match expect(old(self).tokens(), old(self).cursor(), expected_token@) {
                Ok(next) => r is Ok && final(self).cursor() == next,
                Err(e) => r is Err && r->Err_0@ == e && final(self).cursor() == old(self).cursor(),
            },
    {
        let next_token = self.next_token()?;
        if same_token(&expected_token, &next_token) {
            self.read_next_token();
            Ok(())
        } else {
            Err(ParseError::InvalidNextToken(expected_token, next_token))
        }
    }

    /// Parses one statement: `SELECT ... ;`, after white space if the query
    /// starts with it.
    pub fn parse(&mut self) -> (r: Result<Statement, ParseError>)
        requires
            old(self).wf(),
        ensures
            final(self).advanced_from(old(self)),
            match statement_at(old(self).tokens(), old(self).cursor()) {
                Ok((statement, next)) => r is Ok && statement_view(r->Ok_0) == statement
                    && final(self).cursor() == next,
                Err(e) => r is Err && r->Err_0@ == e,
            },
    {
        if self.tokens.len() == 0 {
            return Err(ParseError::EmptyQueryString);
        }
        if matches!(self.next_token()?, Token::Space) {
            let has_tokens_remaining = self.read_next_token();
            if !has_tokens_remaining {
                return Err(ParseError::NoMoreTokens);
            }
        }
        let next_token = self.next_token()?;
        if matches!(next_token, Token::Select) {
            let select_statement = self.match_select()?;
            self.match_token(Token::Semicolon)?;
            Ok(Statement::Select(select_statement))
        } else {
            Err(ParseError::InvalidToken(next_token))
        }
    }

    /// `SELECT`, a select-list, a table expression, and a where-clause if
    /// there is one.
    pub fn match_select(&mut self) -> (r: Result<SelectStatement, ParseError>)
        requires
            old(self).wf(),
        ensures
            final(self).advanced_from(old(self)),
            match select_at(old(self).tokens(), old(self).cursor()) {
                Ok((statement, next)) => r is Ok && select_statement_view(r->Ok_0) == statement
                    && final(self).cursor() == next,
                Err(e) => r is Err && r->Err_0@ == e,
            },
            r is Ok ==> final(self).cursor() > old(self).cursor(),
        decreases old(self).tokens().len() - old(self).cursor(), 6nat,
    {
        self.match_token(Token::Select)?;
        let select_expressions = self.match_select_expressions()?;
        let from_expression = self.match_table_expression()?;
        let where_expression = self.match_where_expression()?;
        Ok(SelectStatement { select_expressions, from_expression, where_expression })
    }

    /// An optional `AS name`.
    fn match_alias(&mut self) -> (r: Result<Option<String>, ParseError>)
        requires
            old(self).wf(),
        ensures
            final(self).advanced_from(old(self)),
            match alias_at(old(self).tokens(), old(self).cursor()) {
                Ok((alias, next)) => r is Ok && name_view(r->Ok_0) == alias && final(self).cursor()
                    == next,
                Err(e) => r is Err && r->Err_0@ == e,
            },
    {
        if matches!(self.next_token()?, Token::As) {
            self.match_token(Token::As)?;
            let id_name = match self.next_token()? {
                Token::Identifier(name) => name,
                unexpected_token => {
                    return Err(ParseError::InvalidToken(unexpected_token));
                },
            };
            self.match_token(Token::Identifier(id_name.clone()))?;
            Ok(Some(id_name))
        } else {
            Ok(None)
        }
    }

    /// One item of a select-list: `*`, `name.*`, or an expression with an
    /// optional `AS name`.
    fn match_select_expression(&mut self) -> (r: Result<SelectExpression, ParseError>)
        requires
            old(self).wf(),
        ensures
            final(self).advanced_from(old(self)),
            match select_item_at(old(self).tokens(), old(self).cursor()) {
                Ok((item, next)) => r is Ok && select_expression_view(r->Ok_0) == item
                    && final(self).cursor() == next,
                Err(e) => r is Err && r->Err_0@ == e,
            },
            r is Ok ==> final(self).cursor() > old(self).cursor(),
        decreases old(self).tokens().len() - old(self).cursor(), 4nat,
    {
        let token = self.next_token()?;
        let pattern = vec![Token::Identifier(String::new()), Token::Period, Token::Star];
        let ghost expected = token_views(pattern@);
        if matches!(token, Token::Star) {
            self.match_token(Token::Star)?;
            Ok(SelectExpression::Star)
        } else if self.peek_match_token_types(pattern) {
            let ghost tokens = self.tokens();
            let ghost i = self.cursor();
            proof {
                assert(views_match(expected[0], tokens[i + 0]));
                assert(views_match(expected[1], tokens[i + 1]));
                assert(views_match(expected[2], tokens[i + 2]));
                assert(family_at(tokens, i));
            }
            let id_name = match token {
                Token::Identifier(name) => name,
                unexpected_token => {
                    return Err(ParseError::InvalidToken(unexpected_token));
                },
            };
            self.match_token(Token::Identifier(id_name.clone()))?;
            self.match_token(Token::Period)?;
            self.match_token(Token::Star)?;
            Ok(SelectExpression::Family { name: id_name })
        } else {
            proof {
                let tokens = self.tokens();
                let i = self.cursor();
                if family_at(tokens, i) {
                    assert forall|k: int| 0 <= k < expected.len() implies views_match(
                        #[trigger] expected[k],
                        tokens[i + k],
                    ) by {}
                }
            }
            let expression = self.match_expression()?;
            let alias = self.match_alias()?;
            Ok(SelectExpression::Expression { expression, alias })
        }
    }

    /// The select-list: items up to `FROM`, with a comma between two of
    /// them.
    pub fn match_select_expressions(&mut self) -> (r: Result<Vec<SelectExpression>, ParseError>)
        requires
            old(self).wf(),
        ensures
            final(self).advanced_from(old(self)),
            match select_items_at(old(self).tokens(), old(self).cursor(), Seq::empty()) {
                Ok((items, next)) => r is Ok && select_expressions_view(r->Ok_0@) == items
                    && final(self).cursor() == next,
                Err(e) => r is Err && r->Err_0@ == e,
            },
        decreases old(self).tokens().len() - old(self).cursor(), 5nat,
    {
        let mut select_expressions: Vec<SelectExpression> = Vec::new();
        assert(select_expressions_view(select_expressions@) =~= Seq::empty());
        loop
            invariant
                self.advanced_from(old(self)),
                select_items_at(old(self).tokens(), old(self).cursor(), Seq::empty())
                    == select_items_at(
                    self.tokens(),
                    self.cursor(),
                    select_expressions_view(select_expressions@),
                ),
            ensures
                self.current() == Some(plain(Token::From)),
            decreases self.tokens().len() - self.cursor(),
        {
            if matches!(self.next_token()?, Token::From) {
                break ;
            }
            let ghost seen = select_expressions_view(select_expressions@);
            let item = self.match_select_expression()?;
            select_expressions.push(item);
            assert(select_expressions_view(select_expressions@) =~= seen.push(
                select_expression_view(item),
            ));
            if matches!(self.next_token()?, Token::From) {
                break ;
            }
            self.match_token(Token::Comma)?;
            if matches!(self.next_token()?, Token::From) {
                return Err(ParseError::InvalidToken(Token::From));
            }
        }
        Ok(select_expressions)
    }

    /// `FROM`, then a table name, or a statement in parentheses with an
    /// optional `AS name`.
    pub fn match_table_expression(&mut self) -> (r: Result<TableExpression, ParseError>)
        requires
            old(self).wf(),
        ensures
            final(self).advanced_from(old(self)),
            match table_expression_at(old(self).tokens(), old(self).cursor()) {
                Ok((table, next)) => r is Ok && table_expression_view(r->Ok_0) == table
                    && final(self).cursor() == next,
                Err(e) => r is Err && r->Err_0@ == e,
            },
            r is Ok ==> final(self).cursor() > old(self).cursor(),
        decreases old(self).tokens().len() - old(self).cursor(), 5nat,
    {
        self.match_token(Token::From)?;
        let token = self.next_token()?;
        if matches!(token, Token::LeftParenthesis) {
            self.match_token(Token::LeftParenthesis)?;
            let select_statement = self.match_select()?;
            self.match_token(Token::RightParenthesis)?;
            let alias = self.match_alias()?;
            Ok(TableExpression::Select { select_statement: Box::new(select_statement), alias })
        } else if matches!(token, Token::Identifier(_)) {
            let (schema, table) = self.match_table_name()?;
            Ok(TableExpression::Table { schema, table })
        } else {
            Err(ParseError::NotImplemented("table expression type not implemented".to_string()))
        }
    }

    /// A name, bare or with a schema: `name` or `schema.name`. Serves for
    /// tables and for columns.
    pub fn match_table_name(&mut self) -> (r: Result<(Option<String>, String), ParseError>)
        requires
            old(self).wf(),
        ensures
            final(self).advanced_from(old(self)),
            match table_name_at(old(self).tokens(), old(self).cursor()) {
                Ok((name, next)) => r is Ok && (name_view(r->Ok_0.0), r->Ok_0.1@) == name
                    && final(self).cursor() == next,
                Err(e) => r is Err && r->Err_0@ == e && final(self).cursor() == old(self).cursor(),
            },
            r is Ok ==> final(self).cursor() > old(self).cursor(),
    {
        let pattern = vec![
            Token::Identifier(String::new()),
            Token::Period,
            Token::Identifier(String::new()),
        ];
        let ghost expected = token_views(pattern@);
        let has_schema_and_table = self.peek_match_token_types(pattern);
        let ghost tokens = self.tokens();
        let ghost i = self.cursor();
        let id_name1 = match self.next_token()? {
            Token::Identifier(name) => name,
            ut => {
                return Err(ParseError::InvalidToken(ut));
            },
        };
        proof {
            if has_schema_and_table {
                assert(views_match(expected[0], tokens[i + 0]));
                assert(views_match(expected[1], tokens[i + 1]));
                assert(views_match(expected[2], tokens[i + 2]));
            }
            assert(has_schema_and_table == dotted_name_at(tokens, i));
        }
        self.match_token(Token::Identifier(id_name1.clone()))?;
        if has_schema_and_table {
            self.match_token(Token::Period)?;
            match self.next_token()? {
                Token::Identifier(id_name2) => {
                    self.match_token(Token::Identifier(id_name2.clone()))?;
                    Ok((Some(id_name1), id_name2))
                },
                ut => Err(ParseError::InvalidToken(ut)),
            }
        } else {
            Ok((None, id_name1))
        }
    }

    /// The where-clause, if the next token is `WHERE`: the keyword and one
    /// expression.
    pub fn match_where_expression(&mut self) -> (r: Result<Option<Term>, ParseError>)
        requires
            old(self).wf(),
        ensures
            final(self).advanced_from(old(self)),
            match where_at(old(self).tokens(), old(self).cursor()) {
                Ok((term, next)) => r is Ok && (match r->Ok_0 {
                    Some(t) => Some(term_view(t)),
                    None => None,
                }) == term && final(self).cursor() == next,
                Err(e) => r is Err && r->Err_0@ == e,
            },
        decreases old(self).tokens().len() - old(self).cursor(), 4nat,
    {
        if matches!(self.next_token()?, Token::Where) {
            self.match_token(Token::Where)?;
            Ok(Some(self.match_expression()?))
        } else {
            Ok(None)
        }
    }

    /// One expression: terms, operators and parentheses are handed to the
    /// expression engine for as long as the expression goes on, and the
    /// engine's result is the expression.
    pub fn match_expression(&mut self) -> (r: Result<Term, ParseError>)
        requires
            old(self).wf(),
        ensures
            final(self).advanced_from(old(self)),
            match expression_at(old(self).tokens(), old(self).cursor()) {
                Ok((term, next)) => r is Ok && term_view(r->Ok_0) == term && final(self).cursor()
                    == next,
                Err(e) => r is Err && r->Err_0@ == e,
            },
            r is Ok ==> final(self).cursor() > old(self).cursor(),
        decreases old(self).tokens().len() - old(self).cursor(), 3nat,
    {
        let mut engine = ExpressionEngine::new();
        let mut last_was_term = false;
        loop
            invariant
                self.advanced_from(old(self)),
                engine@.operands.len() > 0 ==> self.cursor() > old(self).cursor(),
                expression_at(old(self).tokens(), old(self).cursor()) == expression_from(
                    self.tokens(),
                    self.cursor(),
                    engine@,
                    last_was_term,
                ),
            ensures
                self.current() is Some,
                !continues_with(self.current()->0),
            decreases self.tokens().len() - self.cursor(),
        {
            if !self.expression_continues()? {
                break ;
            }
            let next_token = self.next_token()?;
            // An expression does not go on at a parenthesis, so the two
            // branches for them are not reached from here; they hand the
            // engine what it takes for a group.
            if matches!(next_token, Token::LeftParenthesis) {
                self.match_token(next_token)?;
                engine.push_left_parenthesis();
                last_was_term = false;
            } else if !last_was_term {
                let term = self.match_base_term()?;
                engine.push_term(term);
                last_was_term = true;
            } else if next_token.is_expression_operator() {
                engine.push_operator(next_token.clone())?;
                self.match_token(next_token)?;
                last_was_term = false;
            } else if matches!(next_token, Token::RightParenthesis) {
                self.match_token(next_token)?;
                engine.close_group()?;
                last_was_term = true;
            } else {
                return Err(
                    ParseError::NotImplemented(
                        "expected an expression operator or right parenthesis".to_string(),
                    ),
                );
            }
        }
        proof {
            lemma_finished_needs_operand(engine@);
        }
        engine.finish()
    }

    /// One term: a function call `name(...)` with its arguments, a column
    /// name, or a number literal.
    pub fn match_base_term(&mut self) -> (r: Result<Term, ParseError>)
        requires
            old(self).wf(),
        ensures
            final(self).advanced_from(old(self)),
            match base_term_at(old(self).tokens(), old(self).cursor()) {
                Ok((term, next)) => r is Ok && term_view(r->Ok_0) == term && final(self).cursor()
                    == next,
                Err(e) => r is Err && r->Err_0@ == e,
            },
            r is Ok ==> final(self).cursor() > old(self).cursor(),
        decreases old(self).tokens().len() - old(self).cursor(), 2nat,
    {
        let next_token = self.next_token()?;
        let pattern = vec![Token::Identifier(String::new()), Token::LeftParenthesis];
        let ghost expected = token_views(pattern@);
        let ghost tokens = self.tokens();
        let ghost i = self.cursor();
        if self.peek_match_token_types(pattern) {
            proof {
                assert(views_match(expected[0], tokens[i + 0]));
                assert(views_match(expected[1], tokens[i + 1]));
                assert(call_at(tokens, i));
            }
            let id_name = match next_token {
                Token::Identifier(name) => name,
                ut => {
                    return Err(ParseError::InvalidToken(ut));
                },
            };
            self.match_token(Token::Identifier(id_name.clone()))?;
            self.match_token(Token::LeftParenthesis)?;
            let mut expressions: Vec<Term> = Vec::new();
            loop
                invariant
                    self.advanced_from(old(self)),
                    self.cursor() > old(self).cursor(),
                    base_term_at(old(self).tokens(), old(self).cursor()) == arguments_at(
                        self.tokens(),
                        self.cursor(),
                        id_name@,
                        terms_view(expressions@),
                    ),
                ensures
                    self.current() == Some(plain(Token::RightParenthesis)),
                decreases self.tokens().len() - self.cursor(),
            {
                if matches!(self.next_token()?, Token::RightParenthesis) {
                    break ;
                }
                let expression = self.match_expression()?;
                proof {
                    assert(expressions@.push(expression).drop_last() =~= expressions@);
                }
                expressions.push(expression);
                if matches!(self.next_token()?, Token::Comma) {
                    self.match_token(Token::Comma)?;
                }
            }
            return Ok(Term::Function(Function::UserDefined { name: id_name, terms: expressions }));
        }
        proof {
            if call_at(tokens, i) {
                assert forall|k: int| 0 <= k < expected.len() implies views_match(
                    #[trigger] expected[k],
                    tokens[i + k],
                ) by {}
            }
        }
        match next_token {
            Token::Identifier(_) => {
                let (schema, column_name) = self.match_table_name()?;
                Ok(Term::Column(Column::Direct { schema, column_name }))
            },
            Token::Number(value) => {
                self.match_token(Token::Number(value.clone()))?;
                match read_number(value) {
                    Ok(n) => Ok(Term::Value(Value::Numeric(n))),
                    Err(e) => Err(e),
                }
            },
            _ => Err(ParseError::NotImplemented("match_term".to_string())),
        }
    }

    /// Whether the expression goes on at the cursor.
    pub fn expression_continues(&self) -> (r: Result<bool, ParseError>)
        requires
            self.wf(),
        ensures
            match self.current() {
                None => r == Err::<bool, ParseError>(ParseError::NoMoreTokens),
                Some(t) => r == Ok::<bool, ParseError>(continues_with(t)),
            },
    {
        let token = self.next_token()?;
        let call = vec![Token::Identifier(String::new()), Token::LeftParenthesis];
        let name = vec![Token::Identifier(String::new())];
        let number = vec![Token::Number(String::new())];
        let ghost a = token_views(call@);
        let ghost b = token_views(name@);
        let ghost c = token_views(number@);
        let r = token.is_expression_operator() || self.peek_match_token_types(call)
            || self.peek_match_token_types(name) || self.peek_match_token_types(number);
        proof {
            if kinds_at(self.tokens(), self.cursor(), a) {
                assert(views_match(a[0], self.tokens()[self.cursor() + 0]));
            }
            if kinds_at(self.tokens(), self.cursor(), b) {
                assert(views_match(b[0], self.tokens()[self.cursor() + 0]));
            }
            if kinds_at(self.tokens(), self.cursor(), c) {
                assert(views_match(c[0], self.tokens()[self.cursor() + 0]));
            }
        }
        Ok(r)
    }
}

} // verus!
