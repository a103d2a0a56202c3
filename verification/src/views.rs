use vstd::prelude::*;
use crate::ast::{
    Column, CountFunction, Function, Numeric, Operand, SelectExpression, SelectStatement,
    Statement, TableExpression, Term, Value,
};

verus! {

// Each type of the syntax tree has a view of the same shape, with a `Seq`
// in place of each `String` and `Vec`.

/// The text of an optional name.
pub open spec fn name_view(name: Option<String>) -> Option<Seq<char>> {
    match name {
        Some(s) => Some(s@),
        None => None,
    }
}

/// The view of a `Column`.
pub ghost enum ColumnView {
    Direct { schema: Option<Seq<char>>, column_name: Seq<char> },
}

/// The view of a `Numeric`.
pub ghost enum NumericView {
    Float(Seq<char>),
    Int(i64),
}

/// The view of a `Value`.
pub ghost enum ValueView {
    String(Seq<char>),
    Numeric(NumericView),
    Boolean(bool),
    Null,
}

/// The view of a `Term`.
pub ghost enum TermView {
    Value(ValueView),
    Function(FunctionView),
    Operand(Box<OperandView>),
    Column(ColumnView),
}

/// The view of a `Function`.
pub ghost enum FunctionView {
    UserDefined { name: Seq<char>, terms: Seq<TermView> },
    Sum(Box<TermView>),
    Count(CountFunctionView),
}

/// The view of a `CountFunction`.
pub ghost enum CountFunctionView {
    Star,
    Term(Box<TermView>),
}

/// The view of an `Operand`.
pub ghost enum OperandView {
    Term(TermView),
    StringConcatenation(Box<OperandView>, Box<OperandView>),
    Addition(Box<OperandView>, Box<OperandView>),
    Subtraction(Box<OperandView>, Box<OperandView>),
    Multiplication(Box<OperandView>, Box<OperandView>),
    Division(Box<OperandView>, Box<OperandView>),
    UnaryMinus(Box<OperandView>),
    And(Box<OperandView>, Box<OperandView>),
    Or(Box<OperandView>, Box<OperandView>),
    Not(Box<OperandView>),
    IsNull(Box<OperandView>),
    IsNotNull(Box<OperandView>),
    Equal(Box<OperandView>, Box<OperandView>),
    NotEqual(Box<OperandView>, Box<OperandView>),
    LessThan(Box<OperandView>, Box<OperandView>),
    GreaterThan(Box<OperandView>, Box<OperandView>),
    LessThanOrEqual(Box<OperandView>, Box<OperandView>),
    GreaterThanOrEqual(Box<OperandView>, Box<OperandView>),
}

/// The view of a `SelectExpression`.
pub ghost enum SelectExpressionView {
    Star,
    Family { name: Seq<char> },
    Expression { expression: TermView, alias: Option<Seq<char>> },
}

/// The view of a `TableExpression`.
pub ghost enum TableExpressionView {
    Table { schema: Option<Seq<char>>, table: Seq<char> },
    Select { select_statement: Box<SelectStatementView>, alias: Option<Seq<char>> },
}

/// The view of a `SelectStatement`.
pub ghost struct SelectStatementView {
    pub select_expressions: Seq<SelectExpressionView>,
    pub from_expression: TableExpressionView,
    pub where_expression: Option<TermView>,
}

/// The view of a `Statement`.
pub ghost enum StatementView {
    Select(SelectStatementView),
}

/// What a column reference holds.
pub open spec fn column_view(c: Column) -> ColumnView {
    match c {
        Column::Direct { schema, column_name } => ColumnView::Direct {
            schema: name_view(schema),
            column_name: column_name@,
        },
    }
}

/// What a number holds.
pub open spec fn numeric_view(n: Numeric) -> NumericView {
    match n {
        Numeric::Float(text) => NumericView::Float(text@),
        Numeric::Int(v) => NumericView::Int(v),
    }
}

/// What a literal holds.
pub open spec fn value_view(v: Value) -> ValueView {
    match v {
        Value::String(s) => ValueView::String(s@),
        Value::Numeric(n) => ValueView::Numeric(numeric_view(n)),
        Value::Boolean(b) => ValueView::Boolean(b),
        Value::Null => ValueView::Null,
    }
}

/// What a term holds.
pub open spec fn term_view(t: Term) -> TermView
    decreases t,
{
    match t {
        Term::Value(v) => TermView::Value(value_view(v)),
        Term::Function(f) => TermView::Function(function_view(f)),
        Term::Operand(o) => TermView::Operand(Box::new(operand_view(*o))),
        Term::Column(c) => TermView::Column(column_view(c)),
    }
}

/// What the terms of a sequence hold, one by one.
pub open spec fn terms_view(terms: Seq<Term>) -> Seq<TermView>
    decreases terms,
{
    if terms.len() == 0 {
        Seq::empty()
    } else {
        terms_view(terms.drop_last()).push(term_view(terms.last()))
    }
}

/// What a function call holds.
pub open spec fn function_view(f: Function) -> FunctionView
    decreases f,
{
    match f {
        Function::UserDefined { name, terms } => FunctionView::UserDefined {
            name: name@,
            terms: terms_view(terms@),
        },
        Function::Sum(t) => FunctionView::Sum(Box::new(term_view(*t))),
        Function::Count(c) => FunctionView::Count(count_view(c)),
    }
}

/// What the argument of `count` holds.
pub open spec fn count_view(c: CountFunction) -> CountFunctionView
    decreases c,
{
    match c {
        CountFunction::Star => CountFunctionView::Star,
        CountFunction::Term(t) => CountFunctionView::Term(Box::new(term_view(*t))),
    }
}

/// What an expression tree holds.
pub open spec fn operand_view(o: Operand) -> OperandView
    decreases o,
{
    match o {
        Operand::Term(t) => OperandView::Term(term_view(t)),
        Operand::StringConcatenation(l, r) => OperandView::StringConcatenation(
            Box::new(operand_view(*l)),
            Box::new(operand_view(*r)),
        ),
        Operand::Addition(l, r) => OperandView::Addition(
            Box::new(operand_view(*l)),
            Box::new(operand_view(*r)),
        ),
        Operand::Subtraction(l, r) => OperandView::Subtraction(
            Box::new(operand_view(*l)),
            Box::new(operand_view(*r)),
        ),
        Operand::Multiplication(l, r) => OperandView::Multiplication(
            Box::new(operand_view(*l)),
            Box::new(operand_view(*r)),
        ),
        Operand::Division(l, r) => OperandView::Division(
            Box::new(operand_view(*l)),
            Box::new(operand_view(*r)),
        ),
        Operand::UnaryMinus(x) => OperandView::UnaryMinus(Box::new(operand_view(*x))),
        Operand::And(l, r) => OperandView::And(
            Box::new(operand_view(*l)),
            Box::new(operand_view(*r)),
        ),
        Operand::Or(l, r) => OperandView::Or(
            Box::new(operand_view(*l)),
            Box::new(operand_view(*r)),
        ),
        Operand::Not(x) => OperandView::Not(Box::new(operand_view(*x))),
        Operand::IsNull(x) => OperandView::IsNull(Box::new(operand_view(*x))),
        Operand::IsNotNull(x) => OperandView::IsNotNull(Box::new(operand_view(*x))),
        Operand::Equal(l, r) => OperandView::Equal(
            Box::new(operand_view(*l)),
            Box::new(operand_view(*r)),
        ),
        Operand::NotEqual(l, r) => OperandView::NotEqual(
            Box::new(operand_view(*l)),
            Box::new(operand_view(*r)),
        ),
        Operand::LessThan(l, r) => OperandView::LessThan(
            Box::new(operand_view(*l)),
            Box::new(operand_view(*r)),
        ),
        Operand::GreaterThan(l, r) => OperandView::GreaterThan(
            Box::new(operand_view(*l)),
            Box::new(operand_view(*r)),
        ),
        Operand::LessThanOrEqual(l, r) => OperandView::LessThanOrEqual(
            Box::new(operand_view(*l)),
            Box::new(operand_view(*r)),
        ),
        Operand::GreaterThanOrEqual(l, r) => OperandView::GreaterThanOrEqual(
            Box::new(operand_view(*l)),
            Box::new(operand_view(*r)),
        ),
    }
}

/// What the expression trees of a sequence hold, one by one.
pub open spec fn operands_view(operands: Seq<Operand>) -> Seq<OperandView> {
    Seq::new(operands.len(), |i: int| operand_view(operands[i]))
}

/// What an item of a select-list holds.
pub open spec fn select_expression_view(e: SelectExpression) -> SelectExpressionView {
    match e {
        SelectExpression::Star => SelectExpressionView::Star,
        SelectExpression::Family { name } => SelectExpressionView::Family { name: name@ },
        SelectExpression::Expression { expression, alias } => SelectExpressionView::Expression {
            expression: term_view(expression),
            alias: name_view(alias),
        },
    }
}

/// What the items of a select-list hold, one by one.
pub open spec fn select_expressions_view(items: Seq<SelectExpression>) -> Seq<
    SelectExpressionView,
> {
    Seq::new(items.len(), |i: int| select_expression_view(items[i]))
}

/// What a table expression holds.
pub open spec fn table_expression_view(t: TableExpression) -> TableExpressionView
    decreases t,
{
    match t {
        TableExpression::Table { schema, table } => TableExpressionView::Table {
            schema: name_view(schema),
            table: table@,
        },
        TableExpression::Select { select_statement, alias } => TableExpressionView::Select {
            select_statement: Box::new(select_statement_view(*select_statement)),
            alias: name_view(alias),
        },
    }
}

/// What a `SELECT` statement holds.
pub open spec fn select_statement_view(s: SelectStatement) -> SelectStatementView
    decreases s,
{
    SelectStatementView {
        select_expressions: select_expressions_view(s.select_expressions@),
        from_expression: table_expression_view(s.from_expression),
        where_expression: match s.where_expression {
            Some(t) => Some(term_view(t)),
            None => None,
        },
    }
}

/// What a statement holds.
pub open spec fn statement_view(s: Statement) -> StatementView {
    match s {
        Statement::Select(select) => StatementView::Select(select_statement_view(select)),
    }
}

} // verus!
