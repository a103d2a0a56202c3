use vstd::prelude::*;
use crate::ast::{Operand, Term};
use crate::error::{leftover_text, unbalanced_text, ParseError, ParseErrorView};
use crate::lexer::token_views;
use crate::token::{is_operator, Token, TokenView};
use crate::views::{operand_view, operands_view, term_view, OperandView, TermView};

verus! {

/// How tightly an operator binds; a higher number binds tighter. Tokens
/// that are no binary operator of the engine have 0.
pub open spec fn precedence(t: Token) -> int {
    match t {
        Token::Or => 7,
        Token::And => 8,
        Token::Equal => 9,
        Token::NotEqual => 9,
        Token::LessThan => 9,
        Token::LessThanEqual => 9,
        Token::GreaterThan => 9,
        Token::GreaterThanEqual => 9,
        Token::Plus => 10,
        Token::Minus => 10,
        Token::Star => 11,
        Token::ForwardSlash => 11,
        _ => 0,
    }
}

/// The node that an operator makes of two operands.
pub open spec fn combined(op: TokenView, left: OperandView, right: OperandView) -> Result<
    OperandView,
    ParseErrorView,
> {
    let l = Box::new(left);
    let r = Box::new(right);
    match op.plain() {
        Token::Plus => Ok(OperandView::Addition(l, r)),
        Token::Minus => Ok(OperandView::Subtraction(l, r)),
        Token::Star => Ok(OperandView::Multiplication(l, r)),
        Token::ForwardSlash => Ok(OperandView::Division(l, r)),
        Token::Equal => Ok(OperandView::Equal(l, r)),
        Token::NotEqual => Ok(OperandView::NotEqual(l, r)),
        Token::LessThan => Ok(OperandView::LessThan(l, r)),
        Token::LessThanEqual => Ok(OperandView::LessThanOrEqual(l, r)),
        Token::GreaterThan => Ok(OperandView::GreaterThan(l, r)),
        Token::GreaterThanEqual => Ok(OperandView::GreaterThanOrEqual(l, r)),
        Token::Or => Ok(OperandView::Or(l, r)),
        Token::And => Ok(OperandView::And(l, r)),
        _ => if is_operator(op.plain()) {
            Err(ParseErrorView::OperandTokenNotImplemented(op))
        } else {
            Err(ParseErrorView::InvalidToken(op))
        },
    }
}

/// The two stacks of the engine: operands built so far, and operators with
/// the left parentheses that are still open. The top of each is its end.
pub ghost struct Stacks {
    pub operands: Seq<OperandView>,
    pub operators: Seq<TokenView>,
}

/// Both stacks empty.
pub open spec fn no_stacks() -> Stacks {
    Stacks { operands: Seq::empty(), operators: Seq::empty() }
}

/// A left parenthesis.
pub open spec fn left_parenthesis() -> TokenView {
    TokenView::Plain(Token::LeftParenthesis)
}

/// A right parenthesis.
pub open spec fn right_parenthesis() -> TokenView {
    TokenView::Plain(Token::RightParenthesis)
}

/// The number of operators above the nearest open parenthesis.
pub open spec fn open_operators(operators: Seq<TokenView>) -> nat
    decreases operators.len(),
{
    if operators.len() == 0 || operators.last() == left_parenthesis() {
        0
    } else {
        1 + open_operators(operators.drop_last())
    }
}

/// Whether one reduction is possible: an operator and two operands.
pub open spec fn reducible(s: Stacks) -> bool {
    s.operators.len() > 0 && s.operands.len() >= 2
}

/// One reduction: the top operator is applied to the two top operands, and
/// the node takes their place.
pub open spec fn reduced(s: Stacks) -> Result<Stacks, ParseErrorView> {
    let n = s.operands.len() as int;
    match combined(s.operators.last(), s.operands[n - 2], s.operands[n - 1]) {
        Ok(node) => Ok(
            Stacks {
                operands: s.operands.take(n - 2).push(node),
                operators: s.operators.drop_last(),
            },
        ),
        Err(e) => Err(e),
    }
}

/// The stacks with a left parenthesis on the operators.
pub open spec fn after_open(s: Stacks) -> Stacks {
    Stacks { operands: s.operands, operators: s.operators.push(left_parenthesis()) }
}

/// The stacks with a term on the operands, as a leaf.
pub open spec fn after_term(s: Stacks, term: TermView) -> Stacks {
    Stacks { operands: s.operands.push(OperandView::Term(term)), operators: s.operators }
}

/// The stacks after an operator has arrived: where it binds no tighter than
/// the operator on top, that one is reduced first.
pub open spec fn after_operator(s: Stacks, op: TokenView) -> Result<Stacks, ParseErrorView> {
    if reducible(s) && precedence(op.plain()) <= precedence(s.operators.last().plain()) {
        match reduced(s) {
            Ok(t) => Ok(Stacks { operands: t.operands, operators: t.operators.push(op) }),
            Err(e) => Err(e),
        }
    } else {
        Ok(Stacks { operands: s.operands, operators: s.operators.push(op) })
    }
}

/// The stacks after a right parenthesis has arrived: the operators above
/// the nearest left parenthesis are reduced, one by one, and that
/// parenthesis is taken off. Where the group cannot be reduced further
/// before its parenthesis is on top, the stacks stay as they are then.
pub open spec fn after_close(s: Stacks) -> Result<Stacks, ParseErrorView>
    decreases s.operators.len(),
{
    if s.operators.len() > 0 && s.operators.last() == left_parenthesis() {
        Ok(Stacks { operands: s.operands, operators: s.operators.drop_last() })
    } else if reducible(s) && s.operands.len() > open_operators(s.operators) {
        match reduced(s) {
            Ok(t) => after_close(t),
            Err(e) => Err(e),
        }
    } else {
        Ok(s)
    }
}

/// The stacks after all that can be reduced at the end of an expression
/// has been; a parenthesis on top of the operators is an error.
pub open spec fn drained(s: Stacks) -> Result<Stacks, ParseErrorView>
    decreases s.operators.len(),
{
    if reducible(s) {
        if s.operators.last() == left_parenthesis() || s.operators.last() == right_parenthesis() {
            Err(ParseErrorView::OperandCompactionIssue(unbalanced_text()))
        } else {
            match reduced(s) {
                Ok(t) => drained(t),
                Err(e) => Err(e),
            }
        }
    } else {
        Ok(s)
    }
}

/// The expression that the stacks stand for at the end: after draining,
/// one operand must be left and no operator.
pub open spec fn finished(s: Stacks) -> Result<TermView, ParseErrorView> {
    match drained(s) {
        Ok(t) => if t.operands.len() == 1 && t.operators.len() == 0 {
            Ok(TermView::Operand(Box::new(t.operands[0])))
        } else {
            Err(ParseErrorView::OperandCompactionIssue(leftover_text()))
        },
        Err(e) => Err(e),
    }
}

/// An expression ends well only if it held at least one operand.
pub proof fn lemma_finished_needs_operand(s: Stacks)
    ensures
        finished(s) is Ok ==> s.operands.len() >= 1,
    decreases s.operators.len(),
{
    if reducible(s) && !(s.operators.last() == left_parenthesis() || s.operators.last()
        == right_parenthesis()) {
        if let Ok(t) = reduced(s) {
            lemma_finished_needs_operand(t);
        }
    }
}

/// The operators that make a node of two operands: those with a
/// precedence of their own.
pub open spec fn is_binary(op: TokenView) -> bool {
    precedence(op.plain()) > 0
}

/// The node of a binary operator and two operands.
pub open spec fn node(op: TokenView, left: OperandView, right: OperandView) -> OperandView {
    combined(op, left, right)->Ok_0
}

/// The stacks after `a op1 b op2 c` has been taken in, from empty stacks.
pub open spec fn after_three(
    a: TermView,
    op1: TokenView,
    b: TermView,
    op2: TokenView,
    c: TermView,
) -> Result<Stacks, ParseErrorView> {
    match after_operator(after_term(no_stacks(), a), op1) {
        Ok(s1) => match after_operator(after_term(s1, b), op2) {
            Ok(s2) => Ok(after_term(s2, c)),
            Err(e) => Err(e),
        },
        Err(e) => Err(e),
    }
}

/// Precedence and associativity on three terms: in `a op1 b op2 c` the
/// second operator takes `b` where it binds tighter than the first, and
/// else the first does, so that operators of one precedence group from the
/// left.
pub proof fn lemma_precedence_of_three(
    a: TermView,
    op1: TokenView,
    b: TermView,
    op2: TokenView,
    c: TermView,
)
    requires
        is_binary(op1),
        is_binary(op2),
    ensures
        after_three(a, op1, b, op2, c) is Ok,
        precedence(op2.plain()) > precedence(op1.plain()) ==> finished(
            after_three(a, op1, b, op2, c)->Ok_0,
        ) == Ok::<TermView, ParseErrorView>(
            TermView::Operand(
                Box::new(
                    node(
                        op1,
                        OperandView::Term(a),
                        node(op2, OperandView::Term(b), OperandView::Term(c)),
                    ),
                ),
            ),
        ),
        precedence(op2.plain()) <= precedence(op1.plain()) ==> finished(
            after_three(a, op1, b, op2, c)->Ok_0,
        ) == Ok::<TermView, ParseErrorView>(
            TermView::Operand(
                Box::new(
                    node(
                        op2,
                        node(op1, OperandView::Term(a), OperandView::Term(b)),
                        OperandView::Term(c),
                    ),
                ),
            ),
        ),
{
    reveal_with_fuel(drained, 4);
    let la = OperandView::Term(a);
    let lb = OperandView::Term(b);
    let lc = OperandView::Term(c);
    let s1 = after_operator(after_term(no_stacks(), a), op1)->Ok_0;
    assert(s1.operands =~= seq![la]);
    assert(s1.operators =~= seq![op1]);
    let s1b = after_term(s1, b);
    assert(s1b.operands =~= seq![la, lb]);
    assert(combined(op1, la, lb) is Ok);
    assert(combined(op2, lb, lc) is Ok);
    if precedence(op2.plain()) <= precedence(op1.plain()) {
        let n1 = node(op1, la, lb);
        assert(combined(op2, n1, lc) is Ok);
        let r = reduced(s1b)->Ok_0;
        assert(r.operands =~= seq![n1]);
        assert(r.operators =~= Seq::<TokenView>::empty());
        let s2 = after_operator(s1b, op2)->Ok_0;
        assert(s2.operands =~= seq![n1]);
        assert(s2.operators =~= seq![op2]);
        let s3 = after_term(s2, c);
        assert(s3.operands =~= seq![n1, lc]);
        let d = reduced(s3)->Ok_0;
        assert(d.operands =~= seq![node(op2, n1, lc)]);
        assert(d.operators =~= Seq::<TokenView>::empty());
    } else {
        let n2 = node(op2, lb, lc);
        assert(combined(op1, la, n2) is Ok);
        let s2 = after_operator(s1b, op2)->Ok_0;
        assert(s2.operands =~= seq![la, lb]);
        assert(s2.operators =~= seq![op1, op2]);
        let s3 = after_term(s2, c);
        assert(s3.operands =~= seq![la, lb, lc]);
        let d1 = reduced(s3)->Ok_0;
        assert(d1.operands =~= seq![la, n2]);
        assert(d1.operators =~= seq![op1]);
        let d2 = reduced(d1)->Ok_0;
        assert(d2.operands =~= seq![node(op1, la, n2)]);
        assert(d2.operators =~= Seq::<TokenView>::empty());
    }
}

/// The stacks after `( a op1 b ) op2 c` has been taken in, from empty
/// stacks.
pub open spec fn after_group_on_left(
    a: TermView,
    op1: TokenView,
    b: TermView,
    op2: TokenView,
    c: TermView,
) -> Result<Stacks, ParseErrorView> {
    match after_operator(after_term(after_open(no_stacks()), a), op1) {
        Ok(s1) => match after_close(after_term(s1, b)) {
            Ok(s2) => match after_operator(s2, op2) {
                Ok(s3) => Ok(after_term(s3, c)),
                Err(e) => Err(e),
            },
            Err(e) => Err(e),
        },
        Err(e) => Err(e),
    }
}

/// The stacks after `a op1 ( b op2 c )` has been taken in, from empty
/// stacks.
pub open spec fn after_group_on_right(
    a: TermView,
    op1: TokenView,
    b: TermView,
    op2: TokenView,
    c: TermView,
) -> Result<Stacks, ParseErrorView> {
    match after_operator(after_term(no_stacks(), a), op1) {
        Ok(s1) => match after_operator(after_term(after_open(s1), b), op2) {
            Ok(s2) => after_close(after_term(s2, c)),
            Err(e) => Err(e),
        },
        Err(e) => Err(e),
    }
}

/// Parentheses override precedence: a group is one operand, whatever the
/// precedence of the operators inside it and beside it.
pub proof fn lemma_group_of_three(
    a: TermView,
    op1: TokenView,
    b: TermView,
    op2: TokenView,
    c: TermView,
)
    requires
        is_binary(op1),
        is_binary(op2),
    ensures
        after_group_on_left(a, op1, b, op2, c) is Ok,
        finished(after_group_on_left(a, op1, b, op2, c)->Ok_0) == Ok::<TermView, ParseErrorView>(
            TermView::Operand(
                Box::new(
                    node(
                        op2,
                        node(op1, OperandView::Term(a), OperandView::Term(b)),
                        OperandView::Term(c),
                    ),
                ),
            ),
        ),
        after_group_on_right(a, op1, b, op2, c) is Ok,
        finished(after_group_on_right(a, op1, b, op2, c)->Ok_0) == Ok::<TermView, ParseErrorView>(
            TermView::Operand(
                Box::new(
                    node(
                        op1,
                        OperandView::Term(a),
                        node(op2, OperandView::Term(b), OperandView::Term(c)),
                    ),
                ),
            ),
        ),
{
    reveal_with_fuel(drained, 4);
    reveal_with_fuel(after_close, 4);
    reveal_with_fuel(open_operators, 4);
    let la = OperandView::Term(a);
    let lb = OperandView::Term(b);
    let lc = OperandView::Term(c);
    let open = left_parenthesis();
    assert(combined(op1, la, lb) is Ok);
    assert(combined(op2, lb, lc) is Ok);
    let n1 = node(op1, la, lb);
    let n2 = node(op2, lb, lc);
    assert(combined(op2, n1, lc) is Ok);
    assert(combined(op1, la, n2) is Ok);
    // the group on the left
    {
        let s0 = after_term(after_open(no_stacks()), a);
        assert(s0.operands =~= seq![la]);
        assert(s0.operators =~= seq![open]);
        let s1 = after_operator(s0, op1)->Ok_0;
        assert(s1.operands =~= seq![la]);
        assert(s1.operators =~= seq![open, op1]);
        let s1b = after_term(s1, b);
        assert(s1b.operands =~= seq![la, lb]);
        assert(s1b.operators.drop_last() =~= seq![open]);
        let r = reduced(s1b)->Ok_0;
        assert(r.operands =~= seq![n1]);
        assert(r.operators =~= seq![open]);
        let s2 = after_close(s1b)->Ok_0;
        assert(s2.operands =~= seq![n1]);
        assert(s2.operators =~= Seq::<TokenView>::empty());
        let s3 = after_operator(s2, op2)->Ok_0;
        assert(s3.operators =~= seq![op2]);
        let s4 = after_term(s3, c);
        assert(s4.operands =~= seq![n1, lc]);
        let d = reduced(s4)->Ok_0;
        assert(d.operands =~= seq![node(op2, n1, lc)]);
        assert(d.operators =~= Seq::<TokenView>::empty());
    }
    // the group on the right
    {
        let s1 = after_operator(after_term(no_stacks(), a), op1)->Ok_0;
        assert(s1.operands =~= seq![la]);
        assert(s1.operators =~= seq![op1]);
        let s1b = after_term(after_open(s1), b);
        assert(s1b.operands =~= seq![la, lb]);
        assert(s1b.operators =~= seq![op1, open]);
        let s2 = after_operator(s1b, op2)->Ok_0;
        assert(s2.operands =~= seq![la, lb]);
        assert(s2.operators =~= seq![op1, open, op2]);
        let s3 = after_term(s2, c);
        assert(s3.operands =~= seq![la, lb, lc]);
        assert(s3.operators.drop_last() =~= seq![op1, open]);
        let r = reduced(s3)->Ok_0;
        assert(r.operands =~= seq![la, n2]);
        assert(r.operators =~= seq![op1, open]);
        let s4 = after_close(s3)->Ok_0;
        assert(s4.operands =~= seq![la, n2]);
        assert(s4.operators =~= seq![op1]);
        let d = reduced(s4)->Ok_0;
        assert(d.operands =~= seq![node(op1, la, n2)]);
        assert(d.operators =~= Seq::<TokenView>::empty());
    }
}

/// Numeric precedence of an operator.
pub fn operator_precedence(token: &Token) -> (p: i8)
    ensures
        p == precedence(*token),
{
    match token {
        Token::Or => 7,
        Token::And => 8,
        Token::Equal => 9,
        Token::NotEqual => 9,
        Token::LessThan => 9,
        Token::LessThanEqual => 9,
        Token::GreaterThan => 9,
        Token::GreaterThanEqual => 9,
        Token::Plus => 10,
        Token::Minus => 10,
        Token::Star => 11,
        Token::ForwardSlash => 11,
        _ => 0,
    }
}

/// Makes one node of an operator and its two operands.
pub fn apply_operator_to_terms(token: Token, left_operand: Box<Operand>, right_operand: Box<
    Operand,
>) -> (r: Result<Box<Operand>, ParseError>)
    ensures
        match combined(token@, operand_view(*left_operand), operand_view(*right_operand)) {
            Ok(node) => r is Ok && operand_view(*r->Ok_0) == node,
            Err(e) => r is Err && r->Err_0@ == e,
        },
{
    if !token.is_expression_operator() {
        return Err(ParseError::InvalidToken(token));
    }
    let operand = match token {
        Token::Plus => Operand::Addition(left_operand, right_operand),
        Token::Minus => Operand::Subtraction(left_operand, right_operand),
        Token::Star => Operand::Multiplication(left_operand, right_operand),
        Token::ForwardSlash => Operand::Division(left_operand, right_operand),
        Token::Equal => Operand::Equal(left_operand, right_operand),
        Token::NotEqual => Operand::NotEqual(left_operand, right_operand),
        Token::LessThan => Operand::LessThan(left_operand, right_operand),
        Token::LessThanEqual => Operand::LessThanOrEqual(left_operand, right_operand),
        Token::GreaterThan => Operand::GreaterThan(left_operand, right_operand),
        Token::GreaterThanEqual => Operand::GreaterThanOrEqual(left_operand, right_operand),
        Token::Or => Operand::Or(left_operand, right_operand),
        Token::And => Operand::And(left_operand, right_operand),
        _ => return Err(ParseError::OperandTokenNotImplemented(token)),
    };
    Ok(Box::new(operand))
}

/// The operator-precedence engine: two stacks, reduced as operators and
/// parentheses arrive.
pub struct ExpressionEngine {
    operands: Vec<Operand>,
    operators: Vec<Token>,
}

impl View for ExpressionEngine {
    type V = Stacks;

    closed spec fn view(&self) -> Stacks {
        Stacks { operands: operands_view(self.operands@), operators: token_views(self.operators@) }
    }
}

impl ExpressionEngine {
    /// An engine with both stacks empty.
    pub fn new() -> (e: ExpressionEngine)
        ensures
            e@ == no_stacks(),
    {
        let e = ExpressionEngine { operands: Vec::new(), operators: Vec::new() };
        assert(e@.operands =~= Seq::empty());
        assert(e@.operators =~= Seq::empty());
        e
    }

    /// The number of operands on the stack.
    pub fn operand_count(&self) -> (n: usize)
        ensures
            n == self@.operands.len(),
    {
        self.operands.len()
    }

    /// The number of operators above the nearest open parenthesis.
    pub fn operators_in_group(&self) -> (n: usize)
        ensures
            n == open_operators(self@.operators),
    {
        let mut n: usize = 0;
        let mut k: usize = self.operators.len();
        assert(token_views(self.operators@).take(k as int) == token_views(self.operators@));
        while k > 0 && !matches!(self.operators[k - 1], Token::LeftParenthesis)
            invariant
                k <= self.operators.len(),
                n + k <= self.operators.len(),
                open_operators(token_views(self.operators@)) == n + open_operators(
                    token_views(self.operators@).take(k as int),
                ),
            decreases k,
        {
            assert(token_views(self.operators@).take(k as int).drop_last() == token_views(
                self.operators@,
            ).take(k - 1));
            n += 1;
            k -= 1;
        }
        n
    }

    /// Puts a left parenthesis on the operator stack.
    pub fn push_left_parenthesis(&mut self)
        ensures
            final(self)@ == after_open(old(self)@),
    {
        self.operators.push(Token::LeftParenthesis);
        assert(self@.operators =~= old(self)@.operators.push(left_parenthesis()));
    }

    /// Puts a term on the operand stack, as a leaf.
    pub fn push_term(&mut self, term: Term)
        ensures
            final(self)@ == after_term(old(self)@, term_view(term)),
    {
        self.operands.push(Operand::Term(term));
        assert(self@.operands =~= old(self)@.operands.push(OperandView::Term(term_view(term))));
    }

    /// One reduction of the stacks.
    fn compact(&mut self) -> (r: Result<(), ParseError>)
        requires
            reducible(old(self)@),
        ensures
            match reduced(old(self)@) {
                Ok(t) => r is Ok && final(self)@ == t,
                Err(e) => r is Err && r->Err_0@ == e,
            },
    {
        let ghost n = self.operands@.len() as int;
        let ghost before = self@;
        let right = self.operands.pop().unwrap();
        let left = self.operands.pop().unwrap();
        let operator = self.operators.pop().unwrap();
        assert(self@.operands =~= before.operands.take(n - 2));
        assert(self@.operators =~= before.operators.drop_last());
        let ghost middle = self@;
        let node = apply_operator_to_terms(operator, Box::new(left), Box::new(right))?;
        self.operands.push(*node);
        assert(self@.operands =~= middle.operands.push(operand_view(*node)));
        Ok(())
    }

    /// Takes in an operator: reduces the top of the stacks first where the
    /// operator binds no tighter than the one on top, then puts it on the
    /// operator stack.
    pub fn push_operator(&mut self, operator: Token) -> (r: Result<(), ParseError>)
        ensures
            match after_operator(old(self)@, operator@) {
                Ok(t) => r is Ok && final(self)@ == t,
                Err(e) => r is Err && r->Err_0@ == e,
            },
    {
        let n: usize = self.operators.len();
        if n > 0 && self.operands.len() >= 2 && operator_precedence(&operator)
            <= operator_precedence(&self.operators[n - 1]) {
            self.compact()?;
        }
        let ghost middle = self@;
        self.operators.push(operator);
        assert(self@.operators =~= middle.operators.push(operator@));
        Ok(())
    }

    /// Takes in a right parenthesis: reduces the group that it closes and
    /// takes the group's left parenthesis off the operator stack.
    pub fn close_group(&mut self) -> (r: Result<(), ParseError>)
        ensures
            match after_close(old(self)@) {
                Ok(t) => r is Ok && final(self)@ == t,
                Err(e) => r is Err && r->Err_0@ == e,
            },
    {
        loop
            invariant
                after_close(self@) == after_close(old(self)@),
            decreases self.operators.len(),
        {
            let n: usize = self.operators.len();
            if n > 0 && matches!(self.operators[n - 1], Token::LeftParenthesis) {
                let ghost before = self@;
                self.operators.pop();
                assert(self@.operators =~= before.operators.drop_last());
                return Ok(());
            }
            if n == 0 || self.operands.len() < 2 || self.operands.len()
                <= self.operators_in_group() {
                return Ok(());
            }
            self.compact()?;
        }
    }

    /// Ends the expression: reduces what is left and hands out the one
    /// operand that must remain.
    pub fn finish(self) -> (r: Result<Term, ParseError>)
        ensures
            match finished(self@) {
                Ok(t) => r is Ok && term_view(r->Ok_0) == t && r->Ok_0 is Operand,
                Err(e) => r is Err && r->Err_0@ == e,
            },
    {
        let mut engine = self;
        while engine.operators.len() > 0 && engine.operands.len() >= 2
            invariant
                drained(engine@) == drained(self@),
            decreases engine.operators.len(),
        {
            let n: usize = engine.operators.len();
            if matches!(engine.operators[n - 1], Token::LeftParenthesis | Token::RightParenthesis) {
                return Err(
                    ParseError::OperandCompactionIssue(
                        "unexpected parenthesis on final compaction".to_string(),
                    ),
                );
            }
            engine.compact()?;
        }
        if engine.operands.len() != 1 || engine.operators.len() != 0 {
            return Err(
                ParseError::OperandCompactionIssue(
                    "expected to have 1 operand and no operators".to_string(),
                ),
            );
        }
        let last = engine.operands.pop().unwrap();
        Ok(Term::Operand(Box::new(last)))
    }
}

} // verus!
