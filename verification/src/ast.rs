use vstd::prelude::*;
use crate::views::{
    count_view, function_view, operand_view, select_expression_view, select_expressions_view,
    select_statement_view, statement_view, table_expression_view, term_view, terms_view,
};

verus! {

/// A parsed statement.
#[derive(Debug, PartialEq)]
pub enum Statement {
    Select(SelectStatement),
}

/// A `SELECT` statement: what is selected, from where, and under which
/// condition.
#[derive(Debug, PartialEq)]
pub struct SelectStatement {
    pub select_expressions: Vec<SelectExpression>,
    pub from_expression: TableExpression,
    pub where_expression: Option<Term>,
}

/// One item of a select-list.
#[derive(Debug, PartialEq)]
pub enum SelectExpression {
    /// A bare `*`.
    Star,
    /// `name.*`.
    Family { name: String },
    /// An expression, with the name that follows `AS` if there is one.
    Expression { expression: Term, alias: Option<String> },
}

/// A node of an expression.
#[derive(Debug, PartialEq)]
pub enum Term {
    Value(Value),
    Function(Function),
    Operand(Box<Operand>),
    Column(Column),
}

/// A reference to a column, with its schema if the name is dotted.
#[derive(Debug, PartialEq)]
pub enum Column {
    Direct { schema: Option<String>, column_name: String },
}

/// A literal value.
#[derive(Debug, PartialEq)]
pub enum Value {
    String(String),
    Numeric(Numeric),
    Boolean(bool),
    Null,
}

/// A number literal. A literal that is no 64-bit integer is kept as its
/// decimal text, which is the decimal form of a floating-point number.
#[derive(Debug, PartialEq)]
pub enum Numeric {
    Float(String),
    Int(i64),
}

/// A function call.
#[derive(Debug, PartialEq)]
pub enum Function {
    UserDefined { name: String, terms: Vec<Term> },
    Sum(Box<Term>),
    Count(CountFunction),
}

/// The argument of `count`.
#[derive(Debug, PartialEq)]
pub enum CountFunction {
    Star,
    Term(Box<Term>),
}

/// An expression tree: a term, or an operator with its operands.
#[derive(Debug, PartialEq)]
pub enum Operand {
    Term(Term),
    // string operations
    StringConcatenation(Box<Operand>, Box<Operand>),
    // arithmetic
    Addition(Box<Operand>, Box<Operand>),
    Subtraction(Box<Operand>, Box<Operand>),
    Multiplication(Box<Operand>, Box<Operand>),
    Division(Box<Operand>, Box<Operand>),
    UnaryMinus(Box<Operand>),
    // logic
    And(Box<Operand>, Box<Operand>),
    Or(Box<Operand>, Box<Operand>),
    Not(Box<Operand>),
    IsNull(Box<Operand>),
    IsNotNull(Box<Operand>),
    // comparisons
    Equal(Box<Operand>, Box<Operand>),
    NotEqual(Box<Operand>, Box<Operand>),
    LessThan(Box<Operand>, Box<Operand>),
    GreaterThan(Box<Operand>, Box<Operand>),
    LessThanOrEqual(Box<Operand>, Box<Operand>),
    GreaterThanOrEqual(Box<Operand>, Box<Operand>),
}

/// The source of a statement's rows: a table, or a nested statement.
#[derive(Debug, PartialEq)]
pub enum TableExpression {
    Table { schema: Option<String>, table: String },
    Select { select_statement: Box<SelectStatement>, alias: Option<String> },
}

/// A copy of an optional name.
fn clone_name(name: &Option<String>) -> (r: Option<String>)
    ensures
        r == *name,
{
    match name {
        Some(s) => Some(s.clone()),
        None => None,
    }
}

impl Clone for Column {
    fn clone(&self) -> (r: Column)
        ensures
            r == *self,
    {
        match self {
            Column::Direct { schema, column_name } => Column::Direct {
                schema: clone_name(schema),
                column_name: column_name.clone(),
            },
        }
    }
}

impl Clone for Numeric {
    fn clone(&self) -> (r: Numeric)
        ensures
            r == *self,
    {
        match self {
            Numeric::Float(text) => Numeric::Float(text.clone()),
            Numeric::Int(v) => Numeric::Int(*v),
        }
    }
}

impl Clone for Value {
    fn clone(&self) -> (r: Value)
        ensures
            r == *self,
    {
        match self {
            Value::String(s) => Value::String(s.clone()),
            Value::Numeric(n) => Value::Numeric(n.clone()),
            Value::Boolean(b) => Value::Boolean(*b),
            Value::Null => Value::Null,
        }
    }
}

impl Clone for Operand {
    fn clone(&self) -> (r: Operand)
        ensures
            operand_view(r) == operand_view(*self),
        decreases self,
    {
        match self {
            Operand::Term(t) => Operand::Term(t.clone()),
            Operand::StringConcatenation(l, r) => Operand::StringConcatenation(
                Box::new((**l).clone()),
                Box::new((**r).clone()),
            ),
            Operand::Addition(l, r) => Operand::Addition(
                Box::new((**l).clone()),
                Box::new((**r).clone()),
            ),
            Operand::Subtraction(l, r) => Operand::Subtraction(
                Box::new((**l).clone()),
                Box::new((**r).clone()),
            ),
            Operand::Multiplication(l, r) => Operand::Multiplication(
                Box::new((**l).clone()),
                Box::new((**r).clone()),
            ),
            Operand::Division(l, r) => Operand::Division(
                Box::new((**l).clone()),
                Box::new((**r).clone()),
            ),
            Operand::And(l, r) => Operand::And(
                Box::new((**l).clone()),
                Box::new((**r).clone()),
            ),
            Operand::Or(l, r) => Operand::Or(
                Box::new((**l).clone()),
                Box::new((**r).clone()),
            ),
            Operand::Equal(l, r) => Operand::Equal(
                Box::new((**l).clone()),
                Box::new((**r).clone()),
            ),
            Operand::NotEqual(l, r) => Operand::NotEqual(
                Box::new((**l).clone()),
                Box::new((**r).clone()),
            ),
            Operand::LessThan(l, r) => Operand::LessThan(
                Box::new((**l).clone()),
                Box::new((**r).clone()),
            ),
            Operand::GreaterThan(l, r) => Operand::GreaterThan(
                Box::new((**l).clone()),
                Box::new((**r).clone()),
            ),
            Operand::LessThanOrEqual(l, r) => Operand::LessThanOrEqual(
                Box::new((**l).clone()),
                Box::new((**r).clone()),
            ),
            Operand::GreaterThanOrEqual(l, r) => Operand::GreaterThanOrEqual(
                Box::new((**l).clone()),
                Box::new((**r).clone()),
            ),
            Operand::UnaryMinus(o) => Operand::UnaryMinus(Box::new((**o).clone())),
            Operand::Not(o) => Operand::Not(Box::new((**o).clone())),
            Operand::IsNull(o) => Operand::IsNull(Box::new((**o).clone())),
            Operand::IsNotNull(o) => Operand::IsNotNull(Box::new((**o).clone())),
        }
    }
}

impl Clone for Term {
    fn clone(&self) -> (r: Term)
        ensures
            term_view(r) == term_view(*self),
        decreases self,
    {
        match self {
            Term::Value(v) => Term::Value(v.clone()),
            Term::Function(f) => Term::Function(f.clone()),
            Term::Operand(o) => Term::Operand(Box::new((**o).clone())),
            Term::Column(c) => Term::Column(c.clone()),
        }
    }
}

impl Clone for CountFunction {
    fn clone(&self) -> (r: CountFunction)
        ensures
            count_view(r) == count_view(*self),
        decreases self,
    {
        match self {
            CountFunction::Star => CountFunction::Star,
            CountFunction::Term(t) => CountFunction::Term(Box::new((**t).clone())),
        }
    }
}

impl Clone for Function {
    fn clone(&self) -> (r: Function)
        ensures
            function_view(r) == function_view(*self),
        decreases self,
    {
        match self {
            Function::UserDefined { name, terms } => {
                let mut copies: Vec<Term> = Vec::new();
                let mut i: usize = 0;
                assert(terms@.take(0) =~= copies@);
                while i < terms.len()
                    invariant
                        i <= terms.len(),
                        self is UserDefined,
                        self->terms == *terms,
                        terms_view(copies@) == terms_view(terms@.take(i as int)),
                    decreases terms.len() - i,
                {
                    let copy = terms[i].clone();
                    proof {
                        assert(copies@.push(copy).drop_last() =~= copies@);
                        assert(terms@.take(i + 1).drop_last() =~= terms@.take(i as int));
                    }
                    copies.push(copy);
                    i += 1;
                }
                assert(terms@.take(i as int) =~= terms@);
                Function::UserDefined { name: name.clone(), terms: copies }
            },
            Function::Sum(t) => Function::Sum(Box::new((**t).clone())),
            Function::Count(c) => Function::Count(c.clone()),
        }
    }
}

impl Clone for SelectExpression {
    fn clone(&self) -> (r: SelectExpression)
        ensures
            select_expression_view(r) == select_expression_view(*self),
    {
        match self {
            SelectExpression::Star => SelectExpression::Star,
            SelectExpression::Family { name } => SelectExpression::Family { name: name.clone() },
            SelectExpression::Expression { expression, alias } => SelectExpression::Expression {
                expression: expression.clone(),
                alias: clone_name(alias),
            },
        }
    }
}

impl Clone for TableExpression {
    fn clone(&self) -> (r: TableExpression)
        ensures
            table_expression_view(r) == table_expression_view(*self),
        decreases self,
    {
        match self {
            TableExpression::Table { schema, table } => TableExpression::Table {
                schema: clone_name(schema),
                table: table.clone(),
            },
            TableExpression::Select { select_statement, alias } => TableExpression::Select {
                select_statement: Box::new((**select_statement).clone()),
                alias: clone_name(alias),
            },
        }
    }
}

impl Clone for SelectStatement {
    fn clone(&self) -> (r: SelectStatement)
        ensures
            select_statement_view(r) == select_statement_view(*self),
        decreases self,
    {
        let items = &self.select_expressions;
        let mut copies: Vec<SelectExpression> = Vec::new();
        let mut i: usize = 0;
        while i < items.len()
            invariant
                i <= items.len(),
                copies@.len() == i,
                forall|j: int|
                    0 <= j < i ==> select_expression_view(#[trigger] copies@[j])
                        == select_expression_view(items@[j]),
            decreases items.len() - i,
        {
            copies.push(items[i].clone());
            i += 1;
        }
        assert(select_expressions_view(copies@) =~= select_expressions_view(items@));
        SelectStatement {
            select_expressions: copies,
            from_expression: self.from_expression.clone(),
            where_expression: match &self.where_expression {
                Some(t) => Some(t.clone()),
                None => None,
            },
        }
    }
}

impl Clone for Statement {
    fn clone(&self) -> (r: Statement)
        ensures
            statement_view(r) == statement_view(*self),
    {
        match self {
            Statement::Select(select) => Statement::Select(select.clone()),
        }
    }
}

} // verus!
