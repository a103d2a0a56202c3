use vstd::prelude::*;

verus! {

/// The error of a conversion into a token-level type.
#[derive(Debug)]
pub enum TokenizationError {
    /// The text names no value of the requested type.
    TypeNotFound(String),
}

impl TokenizationError {
    /// A description of the error.
    pub fn to_string(&self) -> (s: String)
        ensures
            s@ == "invalid token type: "@ + self->TypeNotFound_0@,
    {
        match self {
            TokenizationError::TypeNotFound(text) => "invalid token type: ".to_string().concat(
                text.as_str(),
            ),
        }
    }
}

/// The three quote characters that open a quoted literal.
#[derive(Copy, Clone, Debug, PartialEq, Eq, Structural)]
pub enum QuoteType {
    Single,
    Double,
    Backtick,
}

impl QuoteType {
    /// The quote character itself.
    pub open spec fn mark(self) -> char {
        match self {
            QuoteType::Single => '\'',
            QuoteType::Double => '"',
            QuoteType::Backtick => '`',
        }
    }

    /// The quote type whose character is the whole of `unit`, if any.
    pub open spec fn of_unit(unit: Seq<char>) -> Option<QuoteType> {
        if unit.len() != 1 {
            None
        } else if unit[0] == '\'' {
            Some(QuoteType::Single)
        } else if unit[0] == '"' {
            Some(QuoteType::Double)
        } else if unit[0] == '`' {
            Some(QuoteType::Backtick)
        } else {
            None
        }
    }

    /// The quote character.
    pub fn to_char(&self) -> (c: char)
        ensures
            c == self.mark(),
    {
        match self {
            QuoteType::Single => '\'',
            QuoteType::Double => '"',
            QuoteType::Backtick => '`',
        }
    }

    /// The quote character as a string.
    pub fn to_string(&self) -> (s: String)
        ensures
            s@ == seq![self.mark()],
    {
        let mut chars: Vec<char> = Vec::new();
        chars.push(self.to_char());
        crate::text::text_of(&chars)
    }

    /// Reads a quote type from one input unit: the unit must be exactly one
    /// quote character.
    pub fn try_from(unit: &Vec<char>) -> (r: Result<QuoteType, TokenizationError>)
        ensures
            r is Ok <==> QuoteType::of_unit(unit@) is Some,
            r is Ok ==> Some(r->Ok_0) == QuoteType::of_unit(unit@),
            r is Err ==> (r->Err_0 matches TokenizationError::TypeNotFound(s) && s@ == unit@),
    {
        if unit.len() == 1 && unit[0] == '\'' {
            Ok(QuoteType::Single)
        } else if unit.len() == 1 && unit[0] == '"' {
            Ok(QuoteType::Double)
        } else if unit.len() == 1 && unit[0] == '`' {
            Ok(QuoteType::Backtick)
        } else {
            Err(TokenizationError::TypeNotFound(crate::text::text_of(unit)))
        }
    }
}

/// One lexical unit of a query.
#[derive(Debug, PartialEq)]
pub enum Token {
    // keywords
    Select,
    Where,
    From,
    And,
    Or,
    Not,
    Limit,
    Is,
    As,
    Null,
    Order,
    By,
    Asc,
    Desc,
    In,
    True,
    False,
    // symbols
    Star,
    Comma,
    LessThan,
    LessThanEqual,
    GreaterThan,
    GreaterThanEqual,
    Equal,
    NotEqual,
    LeftParenthesis,
    RightParenthesis,
    Semicolon,
    Period,
    Space,
    Plus,
    Minus,
    ForwardSlash,
    // data literals
    Number(String),
    StringToken(String),
    // user defined
    Identifier(String),
    // anything the tokenizer cannot place
    UndefinedTokenType,
}

/// What a token is, with the text of a literal or a name as a sequence of
/// characters. A token without text is its own view.
pub ghost enum TokenView {
    Plain(Token),
    Number(Seq<char>),
    Text(Seq<char>),
    Name(Seq<char>),
}

impl TokenView {
    /// The token itself where it carries no text; `UndefinedTokenType` for
    /// a number, a string or an identifier.
    pub open spec fn plain(self) -> Token {
        match self {
            TokenView::Plain(t) => t,
            _ => Token::UndefinedTokenType,
        }
    }
}

impl View for Token {
    type V = TokenView;

    open spec fn view(&self) -> TokenView {
        match *self {
            Token::Number(s) => TokenView::Number(s@),
            Token::StringToken(s) => TokenView::Text(s@),
            Token::Identifier(s) => TokenView::Name(s@),
            t => TokenView::Plain(t),
        }
    }
}

impl Clone for Token {
    fn clone(&self) -> (r: Token)
        ensures
            r == *self,
    {
        match self {
            Token::Number(s) => Token::Number(s.clone()),
            Token::StringToken(s) => Token::StringToken(s.clone()),
            Token::Identifier(s) => Token::Identifier(s.clone()),
            Token::Select => Token::Select,
            Token::Where => Token::Where,
            Token::From => Token::From,
            Token::And => Token::And,
            Token::Or => Token::Or,
            Token::Not => Token::Not,
            Token::Limit => Token::Limit,
            Token::Is => Token::Is,
            Token::As => Token::As,
            Token::Null => Token::Null,
            Token::Order => Token::Order,
            Token::By => Token::By,
            Token::Asc => Token::Asc,
            Token::Desc => Token::Desc,
            Token::In => Token::In,
            Token::True => Token::True,
            Token::False => Token::False,
            Token::Star => Token::Star,
            Token::Comma => Token::Comma,
            Token::LessThan => Token::LessThan,
            Token::LessThanEqual => Token::LessThanEqual,
            Token::GreaterThan => Token::GreaterThan,
            Token::GreaterThanEqual => Token::GreaterThanEqual,
            Token::Equal => Token::Equal,
            Token::NotEqual => Token::NotEqual,
            Token::LeftParenthesis => Token::LeftParenthesis,
            Token::RightParenthesis => Token::RightParenthesis,
            Token::Semicolon => Token::Semicolon,
            Token::Period => Token::Period,
            Token::Space => Token::Space,
            Token::Plus => Token::Plus,
            Token::Minus => Token::Minus,
            Token::ForwardSlash => Token::ForwardSlash,
            Token::UndefinedTokenType => Token::UndefinedTokenType,
        }
    }
}

/// Two tokens are of one kind when they are the same variant; the text that
/// a number, a string or an identifier carries plays no part.
pub open spec fn kinds_match(a: Token, b: Token) -> bool {
    match (a, b) {
        (Token::Number(_), Token::Number(_)) => true,
        (Token::StringToken(_), Token::StringToken(_)) => true,
        (Token::Identifier(_), Token::Identifier(_)) => true,
        _ => a == b,
    }
}

/// Two token views are of one kind: the same variant, whatever the text.
pub open spec fn views_match(a: TokenView, b: TokenView) -> bool {
    match (a, b) {
        (TokenView::Number(_), TokenView::Number(_)) => true,
        (TokenView::Text(_), TokenView::Text(_)) => true,
        (TokenView::Name(_), TokenView::Name(_)) => true,
        _ => a == b,
    }
}

/// The tokens that the expression engine treats as operators.
pub open spec fn is_operator(t: Token) -> bool {
    t is And || t is Or || t is Not || t is Is || t is In || t is LessThan || t is LessThanEqual
        || t is GreaterThan || t is GreaterThanEqual || t is Equal || t is NotEqual || t is Plus
        || t is Minus || t is Star || t is ForwardSlash
}

/// Decides `kinds_match` on borrowed tokens.
pub fn same_kind(a: &Token, b: &Token) -> (r: bool)
    ensures
        r == kinds_match(*a, *b),
        r == views_match(a@, b@),
{
    match (a, b) {
        (Token::Number(_), Token::Number(_)) => true,
        (Token::StringToken(_), Token::StringToken(_)) => true,
        (Token::Identifier(_), Token::Identifier(_)) => true,
        (Token::Select, Token::Select) => true,
        (Token::Where, Token::Where) => true,
        (Token::From, Token::From) => true,
        (Token::And, Token::And) => true,
        (Token::Or, Token::Or) => true,
        (Token::Not, Token::Not) => true,
        (Token::Limit, Token::Limit) => true,
        (Token::Is, Token::Is) => true,
        (Token::As, Token::As) => true,
        (Token::Null, Token::Null) => true,
        (Token::Order, Token::Order) => true,
        (Token::By, Token::By) => true,
        (Token::Asc, Token::Asc) => true,
        (Token::Desc, Token::Desc) => true,
        (Token::In, Token::In) => true,
        (Token::True, Token::True) => true,
        (Token::False, Token::False) => true,
        (Token::Star, Token::Star) => true,
        (Token::Comma, Token::Comma) => true,
        (Token::LessThan, Token::LessThan) => true,
        (Token::LessThanEqual, Token::LessThanEqual) => true,
        (Token::GreaterThan, Token::GreaterThan) => true,
        (Token::GreaterThanEqual, Token::GreaterThanEqual) => true,
        (Token::Equal, Token::Equal) => true,
        (Token::NotEqual, Token::NotEqual) => true,
        (Token::LeftParenthesis, Token::LeftParenthesis) => true,
        (Token::RightParenthesis, Token::RightParenthesis) => true,
        (Token::Semicolon, Token::Semicolon) => true,
        (Token::Period, Token::Period) => true,
        (Token::Space, Token::Space) => true,
        (Token::Plus, Token::Plus) => true,
        (Token::Minus, Token::Minus) => true,
        (Token::ForwardSlash, Token::ForwardSlash) => true,
        (Token::UndefinedTokenType, Token::UndefinedTokenType) => true,
        _ => false,
    }
}

/// Decides whether two tokens are equal in kind and in text.
pub fn same_token(a: &Token, b: &Token) -> (r: bool)
    ensures
        r == (a@ == b@),
{
    match (a, b) {
        (Token::Number(x), Token::Number(y)) => *x == *y,
        (Token::StringToken(x), Token::StringToken(y)) => *x == *y,
        (Token::Identifier(x), Token::Identifier(y)) => *x == *y,
        _ => same_kind(a, b),
    }
}

impl Token {
    /// True when the two tokens are of one kind, whatever text they carry.
    pub fn token_types_match(t1: Token, t2: Token) -> (r: bool)
        ensures
            r == kinds_match(t1, t2),
    {
        same_kind(&t1, &t2)
    }

    /// True for the tokens that may stand between two terms of an expression.
    pub fn is_expression_operator(&self) -> (r: bool)
        ensures
            r == is_operator(*self),
    {
        match self {
            Token::And => true,
            Token::Or => true,
            Token::Not => true,
            Token::Is => true,
            Token::In => true,
            Token::LessThan => true,
            Token::LessThanEqual => true,
            Token::GreaterThan => true,
            Token::GreaterThanEqual => true,
            Token::Equal => true,
            Token::NotEqual => true,
            Token::Plus => true,
            Token::Minus => true,
            Token::Star => true,
            Token::ForwardSlash => true,
            _ => false,
        }
    }
}

/// Every token is of its own kind.
pub proof fn lemma_kinds_match_reflexive(t: Token)
    ensures
        kinds_match(t, t),
{
}

/// Whether two tokens are of one kind shows in their views.
pub proof fn lemma_kinds_match_views(a: Token, b: Token)
    ensures
        kinds_match(a, b) == views_match(a@, b@),
{
}

/// Kind matching is symmetric.
pub proof fn lemma_kinds_match_symmetric(a: Token, b: Token)
    ensures
        kinds_match(a, b) == kinds_match(b, a),
{
}

/// Two numbers, two strings or two identifiers are of one kind even when
/// their texts differ.
pub proof fn lemma_kinds_match_ignores_text(a: String, b: String)
    ensures
        kinds_match(Token::Number(a), Token::Number(b)),
        kinds_match(Token::StringToken(a), Token::StringToken(b)),
        kinds_match(Token::Identifier(a), Token::Identifier(b)),
{
}

/// Tokens of different variants are never of one kind; in particular two
/// different keywords never match.
pub proof fn lemma_kinds_match_same_variant(a: Token, b: Token)
    requires
        kinds_match(a, b),
    ensures
        a is Number <==> b is Number,
        a is StringToken <==> b is StringToken,
        a is Identifier <==> b is Identifier,
        !(a is Number || a is StringToken || a is Identifier) ==> a == b,
{
}

} // verus!
