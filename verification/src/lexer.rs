use unicode_segmentation::UnicodeSegmentation;
use vstd::prelude::*;
use crate::text::text_of;
use crate::token::{QuoteType, Token, TokenView};

verus! {

/// The extended grapheme clusters of a text, in order, each as its
/// characters.
pub uninterp spec fn grapheme_clusters(text: Seq<char>) -> Seq<Seq<char>>;

/// Whether a character has the Unicode property `White_Space`.
pub uninterp spec fn white_space(c: char) -> bool;

/// The views of a vector of input units.
pub open spec fn unit_views(units: Seq<Vec<char>>) -> Seq<Seq<char>> {
    Seq::new(units.len(), |i: int| units[i]@)
}

/// The views of a vector of tokens.
pub open spec fn token_views(tokens: Seq<Token>) -> Seq<TokenView> {
    Seq::new(tokens.len(), |i: int| tokens[i]@)
}

/// Cuts a text into its extended grapheme clusters.
///
/// Wraps `UnicodeSegmentation::graphemes` of the crate unicode-segmentation,
/// called with `is_extended` set, and copies each cluster's characters into
/// a vector. The clusters depend on the text alone; the contract names them
/// and claims nothing else.
#[verifier::external_body]
fn graphemes(query: &str) -> (units: Vec<Vec<char>>)
    ensures
        unit_views(units@) == grapheme_clusters(query@),
{
    UnicodeSegmentation::graphemes(query, true).map(|g| g.chars().collect()).collect()
}

/// Tests a character for the Unicode property `White_Space`.
///
/// Wraps `char::is_whitespace` of the standard library, whose result
/// depends on the character alone.
#[verifier::external_body]
fn is_white_space(c: char) -> (r: bool)
    ensures
        r == white_space(c),
{
    c.is_whitespace()
}

/// An ASCII letter.
pub open spec fn is_letter(c: char) -> bool {
    ('a' <= c && c <= 'z') || ('A' <= c && c <= 'Z')
}

/// An ASCII digit.
pub open spec fn is_digit(c: char) -> bool {
    '0' <= c && c <= '9'
}

/// The characters that open a symbol.
pub open spec fn is_symbol_char(c: char) -> bool {
    c == '*' || c == ',' || c == '<' || c == '>' || c == '=' || c == '(' || c == ')' || c == ';'
        || c == '.' || c == '+' || c == '-' || c == '/'
}

/// The unit is the one character `c` and nothing else.
pub open spec fn is_char(unit: Seq<char>, c: char) -> bool {
    unit.len() == 1 && unit[0] == c
}

/// A keyword or an identifier starts with an ASCII letter or with `_`.
pub open spec fn word_start(unit: Seq<char>) -> bool {
    unit.len() > 0 && (is_letter(unit[0]) || is_char(unit, '_'))
}

/// A keyword or an identifier goes on with ASCII letters, digits and `_`.
pub open spec fn word_continue(unit: Seq<char>) -> bool {
    unit.len() > 0 && (is_letter(unit[0]) || is_digit(unit[0]) || is_char(unit, '_'))
}

/// A symbol starts with one of the symbol characters.
pub open spec fn symbol_start(unit: Seq<char>) -> bool {
    unit.len() > 0 && is_symbol_char(unit[0])
}

/// A number starts, and goes on, with ASCII digits and `.`.
pub open spec fn number_part(unit: Seq<char>) -> bool {
    unit.len() > 0 && (is_digit(unit[0]) || is_char(unit, '.'))
}

/// White space starts, and goes on, with white-space characters.
pub open spec fn space_part(unit: Seq<char>) -> bool {
    unit.len() > 0 && white_space(unit[0])
}

/// `c` is the lower-case letter `w` or its upper-case form.
pub open spec fn same_letter(c: char, w: char) -> bool {
    c == w || ('A' <= c && c <= 'Z' && c as int + 32 == w as int)
}

/// `text` spells the lower-case `word`, ASCII case ignored.
pub open spec fn spells(text: Seq<char>, word: Seq<char>) -> bool {
    text.len() == word.len() && forall|i: int|
        0 <= i < text.len() ==> same_letter(#[trigger] text[i], word[i])
}

/// The keywords, each with its text in lower case.
pub open spec fn keyword_table() -> Seq<(Token, Seq<char>)> {
    seq![
        (Token::Select, "select"@),
        (Token::Where, "where"@),
        (Token::From, "from"@),
        (Token::And, "and"@),
        (Token::Or, "or"@),
        (Token::Not, "not"@),
        (Token::Limit, "limit"@),
        (Token::Is, "is"@),
        (Token::As, "as"@),
        (Token::Null, "null"@),
        (Token::Order, "order"@),
        (Token::By, "by"@),
        (Token::Asc, "asc"@),
        (Token::Desc, "desc"@),
        (Token::In, "in"@),
        (Token::True, "true"@),
        (Token::False, "false"@),
    ]
}

/// The symbols, each with its text.
pub open spec fn symbol_table() -> Seq<(Token, Seq<char>)> {
    seq![
        (Token::Star, "*"@),
        (Token::Comma, ","@),
        (Token::LessThan, "<"@),
        (Token::LessThanEqual, "<="@),
        (Token::GreaterThan, ">"@),
        (Token::GreaterThanEqual, ">="@),
        (Token::Equal, "="@),
        (Token::NotEqual, "!="@),
        (Token::LeftParenthesis, "("@),
        (Token::RightParenthesis, ")"@),
        (Token::Semicolon, ";"@),
        (Token::Period, "."@),
        (Token::Plus, "+"@),
        (Token::Minus, "-"@),
        (Token::ForwardSlash, "/"@),
    ]
}

/// The token of the first entry from `from` on whose text `text` spells,
/// ASCII case ignored.
pub open spec fn first_spelled(
    table: Seq<(Token, Seq<char>)>,
    text: Seq<char>,
    from: int,
) -> Option<Token>
    decreases table.len() - from,
{
    if from < 0 || from >= table.len() {
        None
    } else if spells(text, table[from].1) {
        Some(table[from].0)
    } else {
        first_spelled(table, text, from + 1)
    }
}

/// The token of the first entry from `from` on whose text is `text`.
pub open spec fn first_equal(
    table: Seq<(Token, Seq<char>)>,
    text: Seq<char>,
    from: int,
) -> Option<Token>
    decreases table.len() - from,
{
    if from < 0 || from >= table.len() {
        None
    } else if text == table[from].1 {
        Some(table[from].0)
    } else {
        first_equal(table, text, from + 1)
    }
}

/// The keyword that `text` spells, if any.
pub open spec fn keyword_of(text: Seq<char>) -> Option<Token> {
    first_spelled(keyword_table(), text, 0)
}

/// The symbol that `text` is, if any.
pub open spec fn symbol_of(text: Seq<char>) -> Option<Token> {
    first_equal(symbol_table(), text, 0)
}

/// A keyword and a symbol carry no text: the token is its own view.
pub proof fn lemma_table_tokens_are_plain(text: Seq<char>)
    ensures
        keyword_of(text) is Some ==> keyword_of(text)->0@ == TokenView::Plain(keyword_of(text)->0),
        symbol_of(text) is Some ==> symbol_of(text)->0@ == TokenView::Plain(symbol_of(text)->0),
{
    reveal_with_fuel(first_spelled, 18);
    reveal_with_fuel(first_equal, 16);
}

/// A token with the text that stands for it.
pub struct StaticToken {
    pub token: Token,
    pub text: &'static str,
}

/// The entries of a table as pairs of token and text.
pub open spec fn entry_views(entries: Seq<StaticToken>) -> Seq<(Token, Seq<char>)> {
    Seq::new(entries.len(), |i: int| (entries[i].token, entries[i].text@))
}

/// Which kind of token is open.
#[derive(Copy, Clone, Debug, PartialEq, Eq, Structural)]
pub enum Mode {
    Quoted(QuoteType),
    Word,
    Symbol,
    Number,
    Space,
}

/// An open token: its kind, the text gathered so far, and, inside quotes,
/// whether the last unit was a lone backslash.
pub ghost struct Scan {
    pub mode: Mode,
    pub text: Seq<char>,
    pub escape: bool,
}

/// What feeding one unit to an open token gives: the token after it,
/// whether the token is complete, and whether the unit was taken.
pub ghost struct Fed {
    pub scan: Scan,
    pub done: bool,
    pub consumed: bool,
}

/// The token that a unit opens, if it opens one. The kinds are tried in a
/// fixed order: quoted, word, symbol, number, space.
pub open spec fn start(unit: Seq<char>) -> Option<Scan> {
    if let Some(q) = QuoteType::of_unit(unit) {
        Some(Scan { mode: Mode::Quoted(q), text: Seq::empty(), escape: false })
    } else if word_start(unit) {
        Some(Scan { mode: Mode::Word, text: unit, escape: false })
    } else if symbol_start(unit) {
        Some(Scan { mode: Mode::Symbol, text: unit, escape: false })
    } else if number_part(unit) {
        Some(Scan { mode: Mode::Number, text: unit, escape: false })
    } else if space_part(unit) {
        Some(Scan { mode: Mode::Space, text: Seq::empty(), escape: false })
    } else {
        None
    }
}

/// The open token with `unit` added to its text.
pub open spec fn grown(s: Scan, unit: Seq<char>) -> Scan {
    Scan { mode: s.mode, text: s.text + unit, escape: is_char(unit, '\\') }
}

/// Feeds one unit to an open token.
pub open spec fn feed(s: Scan, unit: Seq<char>) -> Fed {
    match s.mode {
        Mode::Quoted(q) => {
            if is_char(unit, q.mark()) && !s.escape {
                Fed { scan: s, done: true, consumed: true }
            } else {
                Fed { scan: grown(s, unit), done: false, consumed: true }
            }
        },
        Mode::Word => {
            if word_continue(unit) {
                Fed { scan: grown(s, unit), done: false, consumed: true }
            } else {
                Fed { scan: s, done: true, consumed: false }
            }
        },
        Mode::Symbol => {
            if (is_char(s.text, '<') || is_char(s.text, '>')) && is_char(unit, '=') {
                Fed { scan: grown(s, unit), done: true, consumed: true }
            } else {
                Fed { scan: s, done: true, consumed: false }
            }
        },
        Mode::Number => {
            if unit.len() == 0 {
                Fed { scan: s, done: false, consumed: true }
            } else if number_part(unit) {
                Fed { scan: grown(s, unit), done: false, consumed: true }
            } else {
                Fed { scan: s, done: true, consumed: false }
            }
        },
        Mode::Space => {
            if unit.len() == 0 || space_part(unit) {
                Fed { scan: s, done: false, consumed: true }
            } else {
                Fed { scan: s, done: true, consumed: false }
            }
        },
    }
}

/// The token that an open token becomes when it is closed.
pub open spec fn finish(s: Scan) -> TokenView {
    match s.mode {
        Mode::Quoted(QuoteType::Single) => TokenView::Text(s.text),
        Mode::Quoted(_) => TokenView::Name(s.text),
        Mode::Word => match keyword_of(s.text) {
            Some(t) => t@,
            None => TokenView::Name(s.text),
        },
        Mode::Symbol => match symbol_of(s.text) {
            Some(t) => t@,
            None => TokenView::Name(s.text),
        },
        Mode::Number => TokenView::Number(s.text),
        Mode::Space => TokenView::Plain(Token::Space),
    }
}

/// The tokens of a run of units that starts with no token open and with
/// `unit` as its first unit.
pub open spec fn fresh(unit: Seq<char>, rest: Seq<Seq<char>>) -> Seq<TokenView>
    decreases rest.len(), 2nat,
{
    match start(unit) {
        Some(s) => tokens_of(rest, Some(s)),
        None => seq![TokenView::Plain(Token::UndefinedTokenType)] + tokens_of(rest, None),
    }
}

/// The tokens of a run of units, read with `open` as the token that is
/// open before the first of them.
pub open spec fn tokens_of(units: Seq<Seq<char>>, open: Option<Scan>) -> Seq<TokenView>
    decreases units.len(), 1nat,
{
    if units.len() == 0 {
        match open {
            Some(s) => seq![finish(s)],
            None => Seq::empty(),
        }
    } else {
        let unit = units[0];
        let rest = units.drop_first();
        match open {
            Some(s) => {
                let fed = feed(s, unit);
                if !fed.done {
                    tokens_of(rest, Some(fed.scan))
                } else if fed.consumed {
                    seq![finish(fed.scan)] + tokens_of(rest, None)
                } else {
                    seq![finish(fed.scan)] + fresh(unit, rest)
                }
            },
            None => fresh(unit, rest),
        }
    }
}

/// What reading units leaves behind: the tokens that were closed, and the
/// token that is still open.
pub ghost struct Progress {
    pub closed: Seq<TokenView>,
    pub open: Option<Scan>,
}

/// Reading one unit with no token open.
pub open spec fn step_fresh(unit: Seq<char>) -> Progress {
    match start(unit) {
        Some(s) => Progress { closed: Seq::empty(), open: Some(s) },
        None => Progress {
            closed: seq![TokenView::Plain(Token::UndefinedTokenType)],
            open: None,
        },
    }
}

/// Reading one unit.
pub open spec fn step(open: Option<Scan>, unit: Seq<char>) -> Progress {
    match open {
        Some(s) => {
            let fed = feed(s, unit);
            if !fed.done {
                Progress { closed: Seq::empty(), open: Some(fed.scan) }
            } else if fed.consumed {
                Progress { closed: seq![finish(fed.scan)], open: None }
            } else {
                Progress {
                    closed: seq![finish(fed.scan)] + step_fresh(unit).closed,
                    open: step_fresh(unit).open,
                }
            }
        },
        None => step_fresh(unit),
    }
}

/// Reading a run of units, without closing the token that is open at its
/// end.
pub open spec fn progress(units: Seq<Seq<char>>, open: Option<Scan>) -> Progress
    decreases units.len(),
{
    if units.len() == 0 {
        Progress { closed: Seq::empty(), open }
    } else {
        let first = step(open, units[0]);
        let rest = progress(units.drop_first(), first.open);
        Progress { closed: first.closed + rest.closed, open: rest.open }
    }
}

/// The tokens of two runs of units read as one are the tokens that the
/// first run closes, followed by the tokens of the second run read with the
/// token that the first leaves open.
pub proof fn lemma_tokens_of_concat(a: Seq<Seq<char>>, b: Seq<Seq<char>>, open: Option<Scan>)
    ensures
        tokens_of(a + b, open) == progress(a, open).closed + tokens_of(b, progress(a, open).open),
    decreases a.len(),
{
    if a.len() == 0 {
        assert(a + b =~= b);
        assert(Seq::<TokenView>::empty() + tokens_of(b, open) =~= tokens_of(b, open));
    } else {
        let unit = a[0];
        let first = step(open, unit);
        assert((a + b)[0] == unit);
        assert((a + b).drop_first() =~= a.drop_first() + b);
        lemma_tokens_of_concat(a.drop_first(), b, first.open);
        let rest = progress(a.drop_first(), first.open);
        let tail = tokens_of(b, rest.open);
        assert(tokens_of(a + b, open) == first.closed + tokens_of(a.drop_first() + b, first.open))
            by {
            let units = a.drop_first() + b;
            let later = tokens_of(units, first.open);
            let opened = step_fresh(unit);
            assert(Seq::<TokenView>::empty() + later =~= later);
            assert(fresh(unit, units) == opened.closed + tokens_of(units, opened.open)) by {
                assert(Seq::<TokenView>::empty() + tokens_of(units, opened.open) =~= tokens_of(
                    units,
                    opened.open,
                ));
            }
            if let Some(s) = open {
                let fed = feed(s, unit);
                if fed.done && !fed.consumed {
                    assert(seq![finish(fed.scan)] + (opened.closed + later) =~= (seq![
                        finish(fed.scan),
                    ] + opened.closed) + later);
                }
            }
        }
        assert(first.closed + (rest.closed + tail) =~= (first.closed + rest.closed) + tail);
    }
}

/// Where the first of two texts ends with no token open, the tokens of
/// the two read as one are the tokens of the first followed by the tokens
/// of the second: no token spans the boundary.
pub proof fn lemma_lex_boundary(a: Seq<Seq<char>>, b: Seq<Seq<char>>)
    requires
        progress(a, None).open is None,
    ensures
        tokens_of(a + b, None) == tokens_of(a, None) + tokens_of(b, None),
{
    lemma_tokens_of_concat(a, b, None);
    lemma_tokens_of_concat(a, Seq::empty(), None);
    assert(a + Seq::<Seq<char>>::empty() =~= a);
    assert(progress(a, None).closed + Seq::<TokenView>::empty() =~= progress(a, None).closed);
}

/// More white space inside a run of white space between tokens changes no
/// token: where `a` ends inside such a run, a white-space unit put in
/// behind it leaves the tokens as they are.
pub proof fn lemma_extra_white_space(
    a: Seq<Seq<char>>,
    unit: Seq<char>,
    b: Seq<Seq<char>>,
    open: Option<Scan>,
)
    requires
        progress(a, open).open is Some,
        progress(a, open).open->0.mode == Mode::Space,
        space_part(unit),
    ensures
        tokens_of(a + seq![unit] + b, open) == tokens_of(a + b, open),
{
    let inside = progress(a, open).open;
    assert(a + seq![unit] + b =~= a + (seq![unit] + b));
    lemma_tokens_of_concat(a, seq![unit] + b, open);
    lemma_tokens_of_concat(a, b, open);
    assert((seq![unit] + b)[0] == unit);
    assert((seq![unit] + b).drop_first() =~= b);
    assert(tokens_of(seq![unit] + b, inside) == tokens_of(b, inside));
}

/// A run of white space of any length is one `Space` token: white space
/// that follows a closed token opens one, and the run stays open for as
/// long as white space comes.
pub proof fn lemma_white_space_opens_space(unit: Seq<char>)
    requires
        space_part(unit),
        QuoteType::of_unit(unit) is None,
        !word_start(unit),
        !symbol_start(unit),
        !number_part(unit),
    ensures
        step(None, unit).closed.len() == 0,
        step(None, unit).open is Some,
        step(None, unit).open->0.mode == Mode::Space,
        finish(step(None, unit).open->0) == TokenView::Plain(Token::Space),
{
}


fn is_letter_char(c: char) -> (r: bool)
    ensures
        r == is_letter(c),
{
    (c >= 'a' && c <= 'z') || (c >= 'A' && c <= 'Z')
}

fn is_digit_char(c: char) -> (r: bool)
    ensures
        r == is_digit(c),
{
    c >= '0' && c <= '9'
}

fn unit_is(unit: &Vec<char>, c: char) -> (r: bool)
    ensures
        r == is_char(unit@, c),
{
    unit.len() == 1 && unit[0] == c
}

/// Appends the characters of `unit` to `text`.
fn append_chars(text: &mut Vec<char>, unit: &Vec<char>)
    ensures
        final(text)@ == old(text)@ + unit@,
{
    let mut i: usize = 0;
    while i < unit.len()
        invariant
            i <= unit.len(),
            text@ == old(text)@ + unit@.take(i as int),
        decreases unit.len() - i,
    {
        text.push(unit[i]);
        assert(unit@.take(i as int).push(unit@[i as int]) == unit@.take(i + 1));
        i += 1;
    }
    assert(unit@.take(i as int) == unit@);
}

/// Decides whether `text` is exactly `word`.
fn is_text(text: &Vec<char>, word: &str) -> (r: bool)
    ensures
        r == (text@ == word@),
{
    let n: usize = word.unicode_len();
    if text.len() != n {
        return false;
    }
    let mut i: usize = 0;
    while i < n
        invariant
            i <= n,
            n == text@.len(),
            n == word@.len(),
            forall|j: int| 0 <= j < i ==> text@[j] == word@[j],
        decreases n - i,
    {
        if text[i] != word.get_char(i) {
            return false;
        }
        i += 1;
    }
    assert(text@ =~= word@);
    true
}

/// Decides whether `text` spells `word`, ASCII case ignored.
fn is_word(text: &Vec<char>, word: &str) -> (r: bool)
    ensures
        r == spells(text@, word@),
{
    let n: usize = word.unicode_len();
    if text.len() != n {
        return false;
    }
    let mut i: usize = 0;
    while i < n
        invariant
            i <= n,
            n == text@.len(),
            n == word@.len(),
            forall|j: int| 0 <= j < i ==> same_letter(#[trigger] text@[j], word@[j]),
        decreases n - i,
    {
        let c: char = text[i];
        let w: char = word.get_char(i);
        let same: bool = c == w || (c >= 'A' && c <= 'Z' && c as u32 + 32 == w as u32);
        if !same {
            return false;
        }
        i += 1;
    }
    true
}

/// An open token of the tokenizer.
pub struct Scanner {
    mode: Mode,
    text: Vec<char>,
    escape: bool,
}

impl View for Scanner {
    type V = Scan;

    closed spec fn view(&self) -> Scan {
        Scan { mode: self.mode, text: self.text@, escape: self.escape }
    }
}

/// The tokenizer for quoted strings and quoted identifiers.
pub struct QuotedTokenizer {}

/// The tokenizer for keywords and identifiers.
pub struct KeywordTokenizer {}

/// The tokenizer for symbols.
pub struct SymbolTokenizer {}

/// The tokenizer for number literals.
pub struct NumberTokenizer {}

/// The tokenizer for runs of white space.
pub struct SpaceTokenizer {}

impl QuotedTokenizer {
    /// Whether the unit opens a quoted literal: it is one quote character.
    pub fn is_valid_starting_character(unit: &Vec<char>) -> (r: bool)
        ensures
            r == QuoteType::of_unit(unit@) is Some,
    {
        match QuoteType::try_from(unit) {
            Ok(_) => true,
            Err(_) => false,
        }
    }

    /// Opens a quoted token; the quote character itself is not part of the
    /// text. Fails when the unit is no quote character.
    pub fn new(unit: &Vec<char>) -> (r: Option<Scanner>)
        ensures
            match QuoteType::of_unit(unit@) {
                Some(q) => r is Some && r->0@ == (Scan {
                    mode: Mode::Quoted(q),
                    text: Seq::empty(),
                    escape: false,
                }),
                None => r is None,
            },
    {
        match QuoteType::try_from(unit) {
            Ok(q) => Some(Scanner { mode: Mode::Quoted(q), text: Vec::new(), escape: false }),
            Err(_) => None,
        }
    }
}

impl KeywordTokenizer {
    /// Whether the unit opens a keyword or an identifier.
    pub fn is_valid_starting_character(unit: &Vec<char>) -> (r: bool)
        ensures
            r == word_start(unit@),
    {
        unit.len() > 0 && (is_letter_char(unit[0]) || unit_is(unit, '_'))
    }

    /// Opens a keyword or an identifier with its first unit.
    pub fn new(unit: &Vec<char>) -> (r: Scanner)
        ensures
            r@ == (Scan { mode: Mode::Word, text: unit@, escape: false }),
    {
        let mut text: Vec<char> = Vec::new();
        append_chars(&mut text, unit);
        assert(text@ =~= unit@);
        Scanner { mode: Mode::Word, text, escape: false }
    }

    /// `token` when `text` spells the keyword `word`.
    pub fn match_keyword(token: Token, word: &str, text: &Vec<char>) -> (r: Option<Token>)
        ensures
            r == if spells(text@, word@) { Some(token) } else { None },
    {
        if is_word(text, word) {
            Some(token)
        } else {
            None
        }
    }

    /// The table of keywords.
    pub fn keywords() -> (table: Vec<StaticToken>)
        ensures
            entry_views(table@) == keyword_table(),
    {
        let table = vec![
            StaticToken { token: Token::Select, text: "select" },
            StaticToken { token: Token::Where, text: "where" },
            StaticToken { token: Token::From, text: "from" },
            StaticToken { token: Token::And, text: "and" },
            StaticToken { token: Token::Or, text: "or" },
            StaticToken { token: Token::Not, text: "not" },
            StaticToken { token: Token::Limit, text: "limit" },
            StaticToken { token: Token::Is, text: "is" },
            StaticToken { token: Token::As, text: "as" },
            StaticToken { token: Token::Null, text: "null" },
            StaticToken { token: Token::Order, text: "order" },
            StaticToken { token: Token::By, text: "by" },
            StaticToken { token: Token::Asc, text: "asc" },
            StaticToken { token: Token::Desc, text: "desc" },
            StaticToken { token: Token::In, text: "in" },
            StaticToken { token: Token::True, text: "true" },
            StaticToken { token: Token::False, text: "false" },
        ];
        assert(entry_views(table@) =~= keyword_table());
        table
    }

    /// The keyword that `text` spells, if any.
    pub fn token_from_string(text: &Vec<char>) -> (r: Option<Token>)
        ensures
            r == keyword_of(text@),
    {
        let table = KeywordTokenizer::keywords();
        let mut i: usize = 0;
        while i < table.len()
            invariant
                i <= table.len(),
                entry_views(table@) == keyword_table(),
                keyword_of(text@) == first_spelled(keyword_table(), text@, i as int),
            decreases table.len() - i,
        {
            assert(entry_views(table@)[i as int] == (
                table@[i as int].token,
                table@[i as int].text@,
            ));
            if let Some(token) = KeywordTokenizer::match_keyword(
                table[i].token.clone(),
                table[i].text,
                text,
            ) {
                return Some(token);
            }
            i += 1;
        }
        None
    }
}

impl SymbolTokenizer {
    /// Whether the unit opens a symbol.
    pub fn is_valid_starting_character(unit: &Vec<char>) -> (r: bool)
        ensures
            r == symbol_start(unit@),
    {
        if unit.len() == 0 {
            return false;
        }
        let c: char = unit[0];
        c == '*' || c == ',' || c == '<' || c == '>' || c == '=' || c == '(' || c == ')'
            || c == ';' || c == '.' || c == '+' || c == '-' || c == '/'
    }

    /// Opens a symbol with its first unit.
    pub fn new(unit: &Vec<char>) -> (r: Scanner)
        ensures
            r@ == (Scan { mode: Mode::Symbol, text: unit@, escape: false }),
    {
        let mut text: Vec<char> = Vec::new();
        append_chars(&mut text, unit);
        assert(text@ =~= unit@);
        Scanner { mode: Mode::Symbol, text, escape: false }
    }

    /// `token` when `text` is exactly `symbol`.
    pub fn match_symbol(token: Token, symbol: &str, text: &Vec<char>) -> (r: Option<Token>)
        ensures
            r == if text@ == symbol@ { Some(token) } else { None },
    {
        if is_text(text, symbol) {
            Some(token)
        } else {
            None
        }
    }

    /// The table of symbols.
    pub fn symbols() -> (table: Vec<StaticToken>)
        ensures
            entry_views(table@) == symbol_table(),
    {
        let table = vec![
            StaticToken { token: Token::Star, text: "*" },
            StaticToken { token: Token::Comma, text: "," },
            StaticToken { token: Token::LessThan, text: "<" },
            StaticToken { token: Token::LessThanEqual, text: "<=" },
            StaticToken { token: Token::GreaterThan, text: ">" },
            StaticToken { token: Token::GreaterThanEqual, text: ">=" },
            StaticToken { token: Token::Equal, text: "=" },
            StaticToken { token: Token::NotEqual, text: "!=" },
            StaticToken { token: Token::LeftParenthesis, text: "(" },
            StaticToken { token: Token::RightParenthesis, text: ")" },
            StaticToken { token: Token::Semicolon, text: ";" },
            StaticToken { token: Token::Period, text: "." },
            StaticToken { token: Token::Plus, text: "+" },
            StaticToken { token: Token::Minus, text: "-" },
            StaticToken { token: Token::ForwardSlash, text: "/" },
        ];
        assert(entry_views(table@) =~= symbol_table());
        table
    }

    /// The symbol that `text` is, if any.
    pub fn token_from_string(text: &Vec<char>) -> (r: Option<Token>)
        ensures
            r == symbol_of(text@),
    {
        let table = SymbolTokenizer::symbols();
        let mut i: usize = 0;
        while i < table.len()
            invariant
                i <= table.len(),
                entry_views(table@) == symbol_table(),
                symbol_of(text@) == first_equal(symbol_table(), text@, i as int),
            decreases table.len() - i,
        {
            assert(entry_views(table@)[i as int] == (
                table@[i as int].token,
                table@[i as int].text@,
            ));
            if let Some(token) = SymbolTokenizer::match_symbol(
                table[i].token.clone(),
                table[i].text,
                text,
            ) {
                return Some(token);
            }
            i += 1;
        }
        None
    }
}

impl NumberTokenizer {
    /// Whether the unit opens a number.
    pub fn is_valid_starting_character(unit: &Vec<char>) -> (r: bool)
        ensures
            r == number_part(unit@),
    {
        unit.len() > 0 && (is_digit_char(unit[0]) || unit_is(unit, '.'))
    }

    /// Opens a number with its first unit.
    pub fn new(unit: &Vec<char>) -> (r: Scanner)
        ensures
            r@ == (Scan { mode: Mode::Number, text: unit@, escape: false }),
    {
        let mut text: Vec<char> = Vec::new();
        append_chars(&mut text, unit);
        assert(text@ =~= unit@);
        Scanner { mode: Mode::Number, text, escape: false }
    }
}

impl SpaceTokenizer {
    /// Whether the unit opens a run of white space.
    pub fn is_valid_starting_character(unit: &Vec<char>) -> (r: bool)
        ensures
            r == space_part(unit@),
    {
        unit.len() > 0 && is_white_space(unit[0])
    }

    /// Opens a run of white space; the run has no text.
    pub fn new(_unit: &Vec<char>) -> (r: Scanner)
        ensures
            r@ == (Scan { mode: Mode::Space, text: Seq::empty(), escape: false }),
    {
        Scanner { mode: Mode::Space, text: Vec::new(), escape: false }
    }
}

impl Scanner {
    /// Opens the token that `unit` starts, if it starts one.
    pub fn open(unit: &Vec<char>) -> (r: Option<Scanner>)
        ensures
            match start(unit@) {
                Some(s) => r is Some && r->0@ == s,
                None => r is None,
            },
    {
        if QuotedTokenizer::is_valid_starting_character(unit) {
            QuotedTokenizer::new(unit)
        } else if KeywordTokenizer::is_valid_starting_character(unit) {
            Some(KeywordTokenizer::new(unit))
        } else if SymbolTokenizer::is_valid_starting_character(unit) {
            Some(SymbolTokenizer::new(unit))
        } else if NumberTokenizer::is_valid_starting_character(unit) {
            Some(NumberTokenizer::new(unit))
        } else if SpaceTokenizer::is_valid_starting_character(unit) {
            Some(SpaceTokenizer::new(unit))
        } else {
            None
        }
    }

    fn grow(&mut self, unit: &Vec<char>)
        ensures
            final(self)@ == grown(old(self)@, unit@),
    {
        append_chars(&mut self.text, unit);
        self.escape = unit_is(unit, '\\');
    }

    /// Feeds one unit to the open token. The pair returned says whether the
    /// token is complete and whether the unit belongs to it.
    pub fn add_next_character(&mut self, unit: &Vec<char>) -> (r: (bool, bool))
        ensures
            final(self)@ == feed(old(self)@, unit@).scan,
            r.0 == feed(old(self)@, unit@).done,
            r.1 == feed(old(self)@, unit@).consumed,
    {
        match self.mode {
            Mode::Quoted(q) => {
                if unit_is(unit, q.to_char()) && !self.escape {
                    (true, true)
                } else {
                    self.grow(unit);
                    (false, true)
                }
            },
            Mode::Word => {
                if unit.len() > 0 && (is_letter_char(unit[0]) || is_digit_char(unit[0]) || unit_is(
                    unit,
                    '_',
                )) {
                    self.grow(unit);
                    (false, true)
                } else {
                    (true, false)
                }
            },
            Mode::Symbol => {
                if (unit_is(&self.text, '<') || unit_is(&self.text, '>')) && unit_is(unit, '=') {
                    self.grow(unit);
                    (true, true)
                } else {
                    (true, false)
                }
            },
            Mode::Number => {
                if unit.len() == 0 {
                    (false, true)
                } else if NumberTokenizer::is_valid_starting_character(unit) {
                    self.grow(unit);
                    (false, true)
                } else {
                    (true, false)
                }
            },
            Mode::Space => {
                if unit.len() == 0 || is_white_space(unit[0]) {
                    (false, true)
                } else {
                    (true, false)
                }
            },
        }
    }

    /// The token that the open token becomes when it is closed.
    pub fn to_token(&self) -> (t: Token)
        ensures
            t@ == finish(self@),
    {
        match self.mode {
            Mode::Quoted(QuoteType::Single) => Token::StringToken(text_of(&self.text)),
            Mode::Quoted(_) => Token::Identifier(text_of(&self.text)),
            Mode::Word => match KeywordTokenizer::token_from_string(&self.text) {
                Some(t) => t,
                None => Token::Identifier(text_of(&self.text)),
            },
            Mode::Symbol => match SymbolTokenizer::token_from_string(&self.text) {
                Some(t) => t,
                None => Token::Identifier(text_of(&self.text)),
            },
            Mode::Number => Token::Number(text_of(&self.text)),
            Mode::Space => Token::Space,
        }
    }
}

/// Groups input units into tokens. Never fails: a unit that opens no token
/// becomes `UndefinedTokenType`, and a token still open at the end of the
/// input is closed there.
pub fn lex_units(units: &Vec<Vec<char>>) -> (tokens: Vec<Token>)
    ensures
        token_views(tokens@) == tokens_of(unit_views(units@), None),
{
    let ghost all = unit_views(units@);
    let mut tokens: Vec<Token> = Vec::new();
    let mut open: Option<Scanner> = None;
    let mut i: usize = 0;
    assert(all.skip(0) =~= all);
    assert(token_views(tokens@) + tokens_of(all, None) =~= tokens_of(all, None));
    while i < units.len()
        invariant
            i <= units.len(),
            all == unit_views(units@),
            tokens_of(all, None) == token_views(tokens@) + tokens_of(
                all.skip(i as int),
                match open {
                    Some(s) => Some(s@),
                    None => None,
                },
            ),
        decreases units.len() - i,
    {
        let unit = &units[i];
        let ghost before = token_views(tokens@);
        let ghost rest = all.skip(i + 1);
        proof {
            assert(all.skip(i as int)[0] == unit@);
            assert(all.skip(i as int).drop_first() =~= rest);
        }
        let mut dispatch: bool = true;
        match open {
            Some(mut s) => {
                let ghost fed = feed(s@, unit@);
                let (done, consumed) = s.add_next_character(unit);
                if done {
                    tokens.push(s.to_token());
                    proof {
                        let closed = seq![finish(fed.scan)];
                        assert(token_views(tokens@) =~= before + closed);
                        if consumed {
                            assert(before + (closed + tokens_of(rest, None)) =~= (before + closed)
                                + tokens_of(rest, None));
                        } else {
                            assert(before + (closed + fresh(unit@, rest)) =~= (before + closed)
                                + fresh(unit@, rest));
                        }
                    }
                    open = None;
                    dispatch = !consumed;
                } else {
                    open = Some(s);
                    dispatch = false;
                }
            },
            None => {},
        }
        if dispatch {
            let ghost mid = token_views(tokens@);
            assert(tokens_of(all, None) == mid + fresh(unit@, rest));
            match Scanner::open(unit) {
                Some(s) => {
                    open = Some(s);
                },
                None => {
                    tokens.push(Token::UndefinedTokenType);
                    proof {
                        let undefined = seq![TokenView::Plain(Token::UndefinedTokenType)];
                        assert(token_views(tokens@) =~= mid + undefined);
                        assert(mid + (undefined + tokens_of(rest, None)) =~= (mid + undefined)
                            + tokens_of(rest, None));
                    }
                },
            }
        }
        i += 1;
    }
    assert(all.skip(i as int).len() == 0);
    match open {
        Some(s) => {
            let ghost before = token_views(tokens@);
            tokens.push(s.to_token());
            assert(token_views(tokens@) =~= before + seq![finish(s@)]);
        },
        None => {
            assert(token_views(tokens@) + Seq::<TokenView>::empty() =~= token_views(tokens@));
        },
    }
    tokens
}

/// Cuts a query into tokens: the query is cut into extended grapheme
/// clusters, and the clusters are grouped by `lex_units`.
pub fn lex(query: String) -> (tokens: Vec<Token>)
    ensures
        token_views(tokens@) == tokens_of(grapheme_clusters(query@), None),
{
    let units = graphemes(query.as_str());
    lex_units(&units)
}

} // verus!
