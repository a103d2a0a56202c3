use vstd::prelude::*;
use crate::error::{leftover_text, operator_text, table_text, term_text, ParseErrorView};
use crate::expression::{
    after_operator, after_term, drained, finished, left_parenthesis, lemma_finished_needs_operand,
    no_stacks, right_parenthesis, Stacks,
};
use crate::lexer::{lemma_extra_white_space, progress, space_part, tokens_of, Mode};
use crate::number::{float_text, int_of_text};
use crate::token::{is_operator, views_match, Token, TokenView};
use crate::views::{
    ColumnView, FunctionView, NumericView, SelectExpressionView, SelectStatementView,
    StatementView, TableExpressionView, TermView, ValueView,
};

verus! {

/// The view of a token that carries no text.
pub open spec fn plain(t: Token) -> TokenView {
    TokenView::Plain(t)
}

/// Whether `i` is the index of a token.
pub open spec fn within(tokens: Seq<TokenView>, i: int) -> bool {
    0 <= i < tokens.len()
}

/// The number of tokens from `i` on.
pub open spec fn left(tokens: Seq<TokenView>, i: int) -> nat {
    if i < tokens.len() {
        (tokens.len() - i) as nat
    } else {
        0
    }
}

/// The number of `Space` tokens that stand in a row from `i` on.
pub open spec fn space_run(tokens: Seq<TokenView>, i: int) -> nat
    decreases tokens.len() - i,
{
    if within(tokens, i) && tokens[i] == plain(Token::Space) {
        1 + space_run(tokens, i + 1)
    } else {
        0
    }
}

/// Where the cursor stands after the token at `i` has been read: behind
/// it and behind the white space that follows it.
pub open spec fn next_index(tokens: Seq<TokenView>, i: int) -> int {
    i + 1 + space_run(tokens, i + 1)
}

/// The tokens from `i` on are of the kinds of `expected`, one by one.
pub open spec fn kinds_at(tokens: Seq<TokenView>, i: int, expected: Seq<TokenView>) -> bool {
    i + expected.len() <= tokens.len() && forall|k: int|
        0 <= k < expected.len() ==> views_match(#[trigger] expected[k], tokens[i + k])
}

/// A dotted name stands at `i`: identifier, period, identifier, with
/// nothing between them.
pub open spec fn dotted_name_at(tokens: Seq<TokenView>, i: int) -> bool {
    i + 3 <= tokens.len() && tokens[i] is Name && tokens[i + 1] == plain(Token::Period)
        && tokens[i + 2] is Name
}

/// `name.*` stands at `i`, with nothing between its three tokens.
pub open spec fn family_at(tokens: Seq<TokenView>, i: int) -> bool {
    i + 3 <= tokens.len() && tokens[i] is Name && tokens[i + 1] == plain(Token::Period)
        && tokens[i + 2] == plain(Token::Star)
}

/// A function call starts at `i`: a name with `(` right behind it.
pub open spec fn call_at(tokens: Seq<TokenView>, i: int) -> bool {
    i + 2 <= tokens.len() && tokens[i] is Name && tokens[i + 1] == left_parenthesis()
}

/// Whether an expression goes on at `token`: with an operator, or with the
/// start of a term.
pub open spec fn continues_with(token: TokenView) -> bool {
    is_operator(token.plain()) || token is Name || token is Number
}

/// Reading the token `expected` at `i`: the index behind it, or the error.
pub open spec fn expect(tokens: Seq<TokenView>, i: int, expected: TokenView) -> Result<
    int,
    ParseErrorView,
> {
    if !within(tokens, i) {
        Err(ParseErrorView::NoMoreTokens)
    } else if tokens[i] == expected {
        Ok(next_index(tokens, i))
    } else {
        Err(ParseErrorView::InvalidNextToken(expected, tokens[i]))
    }
}

/// The number that a literal's text denotes: an integer if the text is
/// one, else the text itself if it is the decimal form of a floating-point
/// number.
pub open spec fn number_of_text(text: Seq<char>) -> Result<NumericView, ParseErrorView> {
    match int_of_text(text) {
        Some(v) => Ok(NumericView::Int(v)),
        None => if float_text(text) {
            Ok(NumericView::Float(text))
        } else {
            Err(ParseErrorView::InvalidNumber(text))
        },
    }
}

/// A name at `i`, bare or with a schema, and the index behind it.
pub open spec fn table_name_at(tokens: Seq<TokenView>, i: int) -> Result<
    ((Option<Seq<char>>, Seq<char>), int),
    ParseErrorView,
> {
    if !within(tokens, i) {
        Err(ParseErrorView::NoMoreTokens)
    } else {
        match tokens[i] {
            TokenView::Name(first) => if dotted_name_at(tokens, i) {
                Ok(((Some(first), tokens[i + 2]->Name_0), next_index(tokens, i + 2)))
            } else {
                Ok(((None, first), next_index(tokens, i)))
            },
            other => Err(ParseErrorView::InvalidToken(other)),
        }
    }
}

/// An optional `AS name` at `i`: the name, if `AS` stands there, and the
/// index behind it.
pub open spec fn alias_at(tokens: Seq<TokenView>, i: int) -> Result<
    (Option<Seq<char>>, int),
    ParseErrorView,
> {
    if !within(tokens, i) {
        Err(ParseErrorView::NoMoreTokens)
    } else if tokens[i] == plain(Token::As) {
        let k = next_index(tokens, i);
        if !within(tokens, k) {
            Err(ParseErrorView::NoMoreTokens)
        } else {
            match tokens[k] {
                TokenView::Name(name) => Ok((Some(name), next_index(tokens, k))),
                other => Err(ParseErrorView::InvalidToken(other)),
            }
        }
    } else {
        Ok((None, i))
    }
}

/// The term at `i` and the index behind it: a function call, a column
/// name, or a number literal.
///
/// In this and the following definitions a test that one index lies
/// behind another only serves the definition's termination: a piece of
/// the grammar never ends before it starts, as the lemmas below show.
pub open spec fn base_term_at(tokens: Seq<TokenView>, i: int) -> Result<
    (TermView, int),
    ParseErrorView,
>
    decreases left(tokens, i), 2nat, 0nat,
{
    if !within(tokens, i) {
        Err(ParseErrorView::NoMoreTokens)
    } else if call_at(tokens, i) {
        arguments_at(tokens, next_index(tokens, i + 1), tokens[i]->Name_0, Seq::empty())
    } else {
        match tokens[i] {
            TokenView::Name(_) => match table_name_at(tokens, i) {
                Ok(((schema, column_name), next)) => Ok(
                    (TermView::Column(ColumnView::Direct { schema, column_name }), next),
                ),
                Err(e) => Err(e),
            },
            TokenView::Number(text) => match number_of_text(text) {
                Ok(n) => Ok((TermView::Value(ValueView::Numeric(n)), next_index(tokens, i))),
                Err(e) => Err(e),
            },
            _ => Err(ParseErrorView::NotImplemented(term_text())),
        }
    }
}

/// The call of `name` whose arguments from `i` on follow those in `seen`.
/// The call ends at `)`, which is left unread; an argument is an
/// expression, and a comma behind it is read.
pub open spec fn arguments_at(
    tokens: Seq<TokenView>,
    i: int,
    name: Seq<char>,
    seen: Seq<TermView>,
) -> Result<(TermView, int), ParseErrorView>
    decreases left(tokens, i), 4nat, 0nat,
{
    if !within(tokens, i) {
        Err(ParseErrorView::NoMoreTokens)
    } else if tokens[i] == right_parenthesis() {
        Ok((TermView::Function(FunctionView::UserDefined { name, terms: seen }), i))
    } else {
        match expression_at(tokens, i) {
            Err(e) => Err(e),
            Ok((term, j)) => {
                let k = if within(tokens, j) && tokens[j] == plain(Token::Comma) {
                    next_index(tokens, j)
                } else {
                    j
                };
                if !within(tokens, j) || k <= i {
                    Err(ParseErrorView::NoMoreTokens)
                } else {
                    arguments_at(tokens, k, name, seen.push(term))
                }
            },
        }
    }
}

/// The expression at `i` and the index behind it.
pub open spec fn expression_at(tokens: Seq<TokenView>, i: int) -> Result<
    (TermView, int),
    ParseErrorView,
>
    decreases left(tokens, i), 3nat, 1nat,
{
    expression_from(tokens, i, no_stacks(), false)
}

/// The expression that goes on at `i` with the engine's stacks as they
/// are; `after_term` says whether the last piece read was a term.
///
/// The expression goes on for as long as the next token is an operator or
/// starts a term. Where a term is due, one is read; behind a term an
/// operator is due. At the end the engine's result is the expression.
pub open spec fn expression_from(
    tokens: Seq<TokenView>,
    i: int,
    stacks: Stacks,
    was_term: bool,
) -> Result<(TermView, int), ParseErrorView>
    decreases left(tokens, i), 3nat, 0nat,
{
    if !within(tokens, i) {
        Err(ParseErrorView::NoMoreTokens)
    } else if !continues_with(tokens[i]) {
        match finished(stacks) {
            Ok(term) => Ok((term, i)),
            Err(e) => Err(e),
        }
    } else if !was_term {
        match base_term_at(tokens, i) {
            Ok((term, j)) => if j <= i {
                Err(ParseErrorView::NoMoreTokens)
            } else {
                expression_from(tokens, j, after_term(stacks, term), true)
            },
            Err(e) => Err(e),
        }
    } else if is_operator(tokens[i].plain()) {
        match after_operator(stacks, tokens[i]) {
            Ok(s) => expression_from(tokens, next_index(tokens, i), s, false),
            Err(e) => Err(e),
        }
    } else {
        Err(ParseErrorView::NotImplemented(operator_text()))
    }
}

/// One item of a select-list at `i`, which is not `FROM`: `*`, `name.*`,
/// or an expression with an optional `AS name`.
pub open spec fn select_item_at(tokens: Seq<TokenView>, i: int) -> Result<
    (SelectExpressionView, int),
    ParseErrorView,
>
    decreases left(tokens, i), 4nat, 0nat,
{
    if !within(tokens, i) {
        Err(ParseErrorView::NoMoreTokens)
    } else if tokens[i] == plain(Token::Star) {
        Ok((SelectExpressionView::Star, next_index(tokens, i)))
    } else if family_at(tokens, i) {
        Ok((SelectExpressionView::Family { name: tokens[i]->Name_0 }, next_index(tokens, i + 2)))
    } else {
        match expression_at(tokens, i) {
            Err(e) => Err(e),
            Ok((expression, j)) => match alias_at(tokens, j) {
                Err(e) => Err(e),
                Ok((alias, k)) => Ok((SelectExpressionView::Expression { expression, alias }, k)),
            },
        }
    }
}

/// The select-list whose items from `i` on follow those in `seen`: items
/// up to `FROM`, which is left unread, with a comma between two of them.
pub open spec fn select_items_at(
    tokens: Seq<TokenView>,
    i: int,
    seen: Seq<SelectExpressionView>,
) -> Result<(Seq<SelectExpressionView>, int), ParseErrorView>
    decreases left(tokens, i), 5nat, 0nat,
{
    if !within(tokens, i) {
        Err(ParseErrorView::NoMoreTokens)
    } else if tokens[i] == plain(Token::From) {
        Ok((seen, i))
    } else {
        match select_item_at(tokens, i) {
            Err(e) => Err(e),
            Ok((item, j)) => if !within(tokens, j) {
                Err(ParseErrorView::NoMoreTokens)
            } else if tokens[j] == plain(Token::From) {
                Ok((seen.push(item), j))
            } else if tokens[j] != plain(Token::Comma) {
                Err(ParseErrorView::InvalidNextToken(plain(Token::Comma), tokens[j]))
            } else {
                let k = next_index(tokens, j);
                if !within(tokens, k) || k <= i {
                    Err(ParseErrorView::NoMoreTokens)
                } else if tokens[k] == plain(Token::From) {
                    Err(ParseErrorView::InvalidToken(plain(Token::From)))
                } else {
                    select_items_at(tokens, k, seen.push(item))
                }
            },
        }
    }
}

/// The table expression at `i`: `FROM`, then a table name, or a statement
/// in parentheses with an optional `AS name`.
pub open spec fn table_expression_at(tokens: Seq<TokenView>, i: int) -> Result<
    (TableExpressionView, int),
    ParseErrorView,
>
    decreases left(tokens, i), 5nat, 0nat,
{
    match expect(tokens, i, plain(Token::From)) {
        Err(e) => Err(e),
        Ok(j) => if !within(tokens, j) {
            Err(ParseErrorView::NoMoreTokens)
        } else if tokens[j] == left_parenthesis() {
            match select_at(tokens, next_index(tokens, j)) {
                Err(e) => Err(e),
                Ok((statement, m)) => match expect(tokens, m, right_parenthesis()) {
                    Err(e) => Err(e),
                    Ok(n) => match alias_at(tokens, n) {
                        Err(e) => Err(e),
                        Ok((alias, p)) => Ok(
                            (
                                TableExpressionView::Select {
                                    select_statement: Box::new(statement),
                                    alias,
                                },
                                p,
                            ),
                        ),
                    },
                },
            }
        } else if tokens[j] is Name {
            match table_name_at(tokens, j) {
                Ok(((schema, table), k)) => Ok((TableExpressionView::Table { schema, table }, k)),
                Err(e) => Err(e),
            }
        } else {
            Err(ParseErrorView::NotImplemented(table_text()))
        },
    }
}

/// The where-clause at `i`, if `WHERE` stands there: the keyword and one
/// expression.
pub open spec fn where_at(tokens: Seq<TokenView>, i: int) -> Result<
    (Option<TermView>, int),
    ParseErrorView,
>
    decreases left(tokens, i), 4nat, 0nat,
{
    if !within(tokens, i) {
        Err(ParseErrorView::NoMoreTokens)
    } else if tokens[i] == plain(Token::Where) {
        match expression_at(tokens, next_index(tokens, i)) {
            Ok((term, j)) => Ok((Some(term), j)),
            Err(e) => Err(e),
        }
    } else {
        Ok((None, i))
    }
}

/// The `SELECT` statement at `i`: the keyword, a select-list, a table
/// expression, and a where-clause if there is one.
pub open spec fn select_at(tokens: Seq<TokenView>, i: int) -> Result<
    (SelectStatementView, int),
    ParseErrorView,
>
    decreases left(tokens, i), 6nat, 0nat,
{
    match expect(tokens, i, plain(Token::Select)) {
        Err(e) => Err(e),
        Ok(j) => match select_items_at(tokens, j, Seq::empty()) {
            Err(e) => Err(e),
            Ok((select_expressions, k)) => if k < j {
                Err(ParseErrorView::NoMoreTokens)
            } else {
                match table_expression_at(tokens, k) {
                    Err(e) => Err(e),
                    Ok((from_expression, m)) => if m < k {
                        Err(ParseErrorView::NoMoreTokens)
                    } else {
                        match where_at(tokens, m) {
                            Err(e) => Err(e),
                            Ok((where_expression, n)) => Ok(
                                (
                                    SelectStatementView {
                                        select_expressions,
                                        from_expression,
                                        where_expression,
                                    },
                                    n,
                                ),
                            ),
                        }
                    },
                }
            },
        },
    }
}

/// The statement that the tokens hold, read with the cursor at `i`: white
/// space if the cursor stands on it, a `SELECT` statement, and `;`.
pub open spec fn statement_at(tokens: Seq<TokenView>, i: int) -> Result<
    (StatementView, int),
    ParseErrorView,
> {
    if tokens.len() == 0 {
        Err(ParseErrorView::EmptyQueryString)
    } else if !within(tokens, i) {
        Err(ParseErrorView::NoMoreTokens)
    } else {
        let j = if tokens[i] == plain(Token::Space) {
            next_index(tokens, i)
        } else {
            i
        };
        if !within(tokens, j) {
            Err(ParseErrorView::NoMoreTokens)
        } else if tokens[j] == plain(Token::Select) {
            match select_at(tokens, j) {
                Err(e) => Err(e),
                Ok((select, k)) => match expect(tokens, k, plain(Token::Semicolon)) {
                    Err(e) => Err(e),
                    Ok(n) => Ok((StatementView::Select(select), n)),
                },
            }
        } else {
            Err(ParseErrorView::InvalidToken(tokens[j]))
        }
    }
}

/// A term takes at least one token.
pub proof fn lemma_base_term_advances(tokens: Seq<TokenView>, i: int)
    ensures
        base_term_at(tokens, i) is Ok ==> base_term_at(tokens, i)->Ok_0.1 > i,
    decreases left(tokens, i), 2nat, 0nat,
{
    if within(tokens, i) && call_at(tokens, i) {
        lemma_arguments_advance(
            tokens,
            next_index(tokens, i + 1),
            tokens[i]->Name_0,
            Seq::empty(),
        );
    }
}

/// The arguments of a call end at or behind the index at which they start.
pub proof fn lemma_arguments_advance(
    tokens: Seq<TokenView>,
    i: int,
    name: Seq<char>,
    seen: Seq<TermView>,
)
    ensures
        arguments_at(tokens, i, name, seen) is Ok ==> arguments_at(tokens, i, name, seen)->Ok_0.1
            >= i,
    decreases left(tokens, i), 4nat, 0nat,
{
    if within(tokens, i) && tokens[i] != right_parenthesis() {
        lemma_expression_advances(tokens, i);
        if let Ok((term, j)) = expression_at(tokens, i) {
            let k = if within(tokens, j) && tokens[j] == plain(Token::Comma) {
                next_index(tokens, j)
            } else {
                j
            };
            if within(tokens, j) && k > i {
                lemma_arguments_advance(tokens, k, name, seen.push(term));
            }
        }
    }
}

/// An expression takes at least one token.
pub proof fn lemma_expression_advances(tokens: Seq<TokenView>, i: int)
    ensures
        expression_at(tokens, i) is Ok ==> expression_at(tokens, i)->Ok_0.1 > i,
    decreases left(tokens, i), 3nat, 1nat,
{
    lemma_expression_from_advances(tokens, i, no_stacks(), false);
}

/// An expression that goes on ends at or behind the index at which it goes
/// on, and behind it where no operand has been read yet.
pub proof fn lemma_expression_from_advances(
    tokens: Seq<TokenView>,
    i: int,
    stacks: Stacks,
    was_term: bool,
)
    ensures
        expression_from(tokens, i, stacks, was_term) is Ok ==> {
            let end = expression_from(tokens, i, stacks, was_term)->Ok_0.1;
            end >= i && (stacks.operands.len() == 0 ==> end > i)
        },
    decreases left(tokens, i), 3nat, 0nat,
{
    if within(tokens, i) {
        if !continues_with(tokens[i]) {
            lemma_finished_needs_operand(stacks);
        } else if !was_term {
            lemma_base_term_advances(tokens, i);
            if let Ok((term, j)) = base_term_at(tokens, i) {
                if j > i {
                    lemma_expression_from_advances(tokens, j, after_term(stacks, term), true);
                }
            }
        } else if is_operator(tokens[i].plain()) {
            if let Ok(s) = after_operator(stacks, tokens[i]) {
                lemma_expression_from_advances(tokens, next_index(tokens, i), s, false);
            }
        }
    }
}

/// An item of a select-list takes at least one token.
pub proof fn lemma_select_item_advances(tokens: Seq<TokenView>, i: int)
    ensures
        select_item_at(tokens, i) is Ok ==> select_item_at(tokens, i)->Ok_0.1 > i,
{
    lemma_expression_advances(tokens, i);
}

/// A select-list ends at or behind the index at which it starts.
pub proof fn lemma_select_items_advance(
    tokens: Seq<TokenView>,
    i: int,
    seen: Seq<SelectExpressionView>,
)
    ensures
        select_items_at(tokens, i, seen) is Ok ==> select_items_at(tokens, i, seen)->Ok_0.1 >= i,
    decreases left(tokens, i),
{
    if within(tokens, i) && tokens[i] != plain(Token::From) {
        lemma_select_item_advances(tokens, i);
        if let Ok((item, j)) = select_item_at(tokens, i) {
            if within(tokens, j) && tokens[j] == plain(Token::Comma) {
                let k = next_index(tokens, j);
                if within(tokens, k) && k > i && tokens[k] != plain(Token::From) {
                    lemma_select_items_advance(tokens, k, seen.push(item));
                }
            }
        }
    }
}

/// A table expression takes at least one token, and so does a `SELECT`
/// statement; a where-clause ends at or behind the index at which it
/// starts.
pub proof fn lemma_select_advances(tokens: Seq<TokenView>, i: int)
    ensures
        table_expression_at(tokens, i) is Ok ==> table_expression_at(tokens, i)->Ok_0.1 > i,
        where_at(tokens, i) is Ok ==> where_at(tokens, i)->Ok_0.1 >= i,
        select_at(tokens, i) is Ok ==> select_at(tokens, i)->Ok_0.1 > i,
    decreases left(tokens, i),
{
    if within(tokens, i) {
        if tokens[i] == plain(Token::Where) {
            lemma_expression_advances(tokens, next_index(tokens, i));
        }
        let j = next_index(tokens, i);
        if tokens[i] == plain(Token::From) && within(tokens, j) && tokens[j]
            == left_parenthesis() {
            lemma_select_advances(tokens, next_index(tokens, j));
        }
        if tokens[i] == plain(Token::Select) {
            lemma_select_items_advance(tokens, j, Seq::empty());
            if let Ok((items, k)) = select_items_at(tokens, j, Seq::empty()) {
                if k >= j {
                    lemma_select_advances(tokens, k);
                    if let Ok((from, m)) = table_expression_at(tokens, k) {
                        lemma_select_advances(tokens, m);
                    }
                }
            }
        }
    }
}

/// An expression holds at least one term: where the token at `i` neither
/// starts a term nor is an operator, as is the case for `;` and for a
/// parenthesis, the engine ends with nothing on its stacks and reports
/// that.
pub proof fn lemma_expression_needs_term(tokens: Seq<TokenView>, i: int)
    requires
        within(tokens, i),
        !continues_with(tokens[i]),
    ensures
        expression_at(tokens, i) == Err::<(TermView, int), ParseErrorView>(
            ParseErrorView::OperandCompactionIssue(leftover_text()),
        ),
        !continues_with(plain(Token::Semicolon)),
        !continues_with(left_parenthesis()),
        !continues_with(right_parenthesis()),
{
    reveal_with_fuel(drained, 2);
}

/// A statement is parsed only where `;` is read behind it: tokens without
/// `;` hold no statement.
pub proof fn lemma_statement_needs_semicolon(tokens: Seq<TokenView>, i: int)
    ensures
        statement_at(tokens, i) is Ok ==> exists|k: int|
            within(tokens, k) && #[trigger] tokens[k] == plain(Token::Semicolon) && statement_at(
                tokens,
                i,
            )->Ok_0.1 == next_index(tokens, k),
        (forall|k: int| within(tokens, k) ==> #[trigger] tokens[k] != plain(Token::Semicolon))
            ==> statement_at(tokens, i) is Err,
{
    if statement_at(tokens, i) is Ok {
        let j = if tokens[i] == plain(Token::Space) {
            next_index(tokens, i)
        } else {
            i
        };
        let k = select_at(tokens, j)->Ok_0.1;
        assert(within(tokens, k) && tokens[k] == plain(Token::Semicolon));
    }
}

/// More white space inside a run of white space between tokens changes
/// nothing of what is parsed: where the units in `a` end inside such a run,
/// a white-space unit put in behind them leaves the tokens, and with them
/// the statement or the error, as they are.
pub proof fn lemma_white_space_keeps_statement(
    a: Seq<Seq<char>>,
    unit: Seq<char>,
    b: Seq<Seq<char>>,
)
    requires
        progress(a, None).open is Some,
        progress(a, None).open->0.mode == Mode::Space,
        space_part(unit),
    ensures
        tokens_of(a + seq![unit] + b, None) == tokens_of(a + b, None),
        statement_at(tokens_of(a + seq![unit] + b, None), 0) == statement_at(
            tokens_of(a + b, None),
            0,
        ),
{
    lemma_extra_white_space(a, unit, b, None);
}

} // verus!
