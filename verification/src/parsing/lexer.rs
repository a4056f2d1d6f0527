use crate::decimal::{all_digits, is_digit, is_digit_char};
use crate::token::{Token, TokenType, TokenView};
use vstd::prelude::*;
use vstd::string::StringExecFns;

verus! {

/// Whether `char::is_whitespace` holds of a character.
pub uninterp spec fn unicode_whitespace(c: char) -> bool;

/// Whether `char::is_alphanumeric` holds of a character.
pub uninterp spec fn unicode_alphanumeric(c: char) -> bool;

/// `char::is_whitespace` tests the Unicode property `White_Space`. The property is a
/// table of the Unicode Character Database, so the contract only gives the answer a name.
pub assume_specification[ char::is_whitespace ](c: char) -> (b: bool)
    ensures
        b == unicode_whitespace(c),
;

/// `char::is_alphanumeric` tests whether a character is alphabetic or numeric in the
/// Unicode Character Database, so the contract only gives the answer a name.
pub assume_specification[ char::is_alphanumeric ](c: char) -> (b: bool)
    ensures
        b == unicode_alphanumeric(c),
;

/// The classes of characters that the lexer scans runs of.
#[derive(Clone, Copy, PartialEq, Eq, Structural, Debug)]
pub enum CharClass {
    /// What is skipped between tokens.
    Whitespace,
    /// What an integer literal is made of.
    Digit,
    /// What an identifier or keyword is made of: alphanumeric characters and `_`.
    Word,
    /// What stands between the quotes of a string literal: anything but `"`.
    Quoted,
}

impl CharClass {
    pub open spec fn holds(self, c: char) -> bool {
        match self {
            CharClass::Whitespace => unicode_whitespace(c),
            CharClass::Digit => is_digit_char(c),
            CharClass::Word => unicode_alphanumeric(c) || c == '_',
            CharClass::Quoted => c != '"',
        }
    }

    pub fn test(self, c: char) -> (b: bool)
        ensures
            b == self.holds(c),
    {
        match self {
            CharClass::Whitespace => c.is_whitespace(),
            CharClass::Digit => is_digit(c),
            CharClass::Word => is_alpha(c),
            CharClass::Quoted => c != '"',
        }
    }
}

pub fn is_alpha(c: char) -> (b: bool)
    ensures
        b == CharClass::Word.holds(c),
{
    c.is_alphanumeric() || c == '_'
}

/// Where the longest run of characters of `class` that starts at `from` ends:
/// the first offset at or after `from` whose character is not of the class,
/// or the length of the source.
pub open spec fn run_end(source: Seq<char>, from: int, class: CharClass) -> int
    decreases source.len() - from,
{
    if 0 <= from < source.len() && class.holds(source[from]) {
        run_end(source, from + 1, class)
    } else {
        from
    }
}

/// How many of the first `upto` characters are line feeds.
pub open spec fn newlines(source: Seq<char>, upto: int) -> int
    decreases upto,
{
    if upto <= 0 {
        0
    } else {
        newlines(source, upto - 1) + if source[upto - 1] == '\n' {
            1int
        } else {
            0int
        }
    }
}

/// The line, counted from 1, that the lexer is on once it has consumed `offset` characters.
pub open spec fn line_at(source: Seq<char>, offset: int) -> int {
    1 + newlines(source, offset)
}

/// The kind of a word: a keyword's own kind, or an identifier.
pub open spec fn word_kind(text: Seq<char>) -> TokenType {
    if text == "if"@ {
        TokenType::If
    } else if text == "true"@ || text == "false"@ {
        TokenType::BooleanLiteral
    } else {
        TokenType::Identifier
    }
}

/// The characters that form a second token together with a `=` right behind them.
pub open spec fn pairs_with_equals(c: char) -> bool {
    c == '=' || c == '!' || c == '<' || c == '>'
}

/// The kind of the token that starts with `c`, a character that starts neither a
/// number, a word nor a string; `paired` says that the token is `c` and a `=`.
pub open spec fn symbol_kind(c: char, paired: bool) -> TokenType {
    if c == '-' {
        TokenType::Minus
    } else if c == '+' {
        TokenType::Plus
    } else if c == '*' {
        TokenType::Star
    } else if c == '/' {
        TokenType::Slash
    } else if c == '(' {
        TokenType::LeftParen
    } else if c == ')' {
        TokenType::RightParen
    } else if c == '{' {
        TokenType::LeftBrace
    } else if c == '}' {
        TokenType::RightBrace
    } else if c == ';' {
        TokenType::Semicolon
    } else if c == '=' {
        if paired {
            TokenType::Equals
        } else {
            TokenType::Assignment
        }
    } else if c == '!' {
        if paired {
            TokenType::BangEquals
        } else {
            TokenType::Bang
        }
    } else if c == '<' {
        if paired {
            TokenType::SmallerEquals
        } else {
            TokenType::Smaller
        }
    } else if c == '>' {
        if paired {
            TokenType::GreaterEquals
        } else {
            TokenType::Greater
        }
    } else {
        TokenType::InvalidToken
    }
}

/// One step of lexing: the kind and lexeme of a token, and the offset behind it.
pub ghost struct Scan {
    pub kind: TokenType,
    pub lexeme: Seq<char>,
    pub end: int,
}

/// The token that lexing finds when it starts at offset `from`.
///
/// Whitespace is skipped first. At the end of the source stands the end-of-input
/// token. Otherwise the first character decides: a digit starts the longest run of
/// digits; an alphanumeric character or `_` starts the longest run of such
/// characters, a keyword or an identifier; `"` starts a string, whose lexeme is
/// what stands before the next `"` or the end of the source, and which takes the
/// closing quote with it; any other character is a token by itself, or together
/// with a `=` behind it.
pub open spec fn scan(source: Seq<char>, from: int) -> Scan {
    let start = run_end(source, from, CharClass::Whitespace);
    if !(0 <= start < source.len()) {
        Scan { kind: TokenType::EOF, lexeme: "EOF"@, end: start }
    } else if is_digit_char(source[start]) {
        let end = run_end(source, start, CharClass::Digit);
        Scan { kind: TokenType::IntegerLiteral, lexeme: source.subrange(start, end), end }
    } else if CharClass::Word.holds(source[start]) {
        let end = run_end(source, start, CharClass::Word);
        let text = source.subrange(start, end);
        Scan { kind: word_kind(text), lexeme: text, end }
    } else if source[start] == '"' {
        let close = run_end(source, start + 1, CharClass::Quoted);
        Scan {
            kind: TokenType::StringLiteral,
            lexeme: source.subrange(start + 1, close),
            end: if close < source.len() {
                close + 1
            } else {
                close
            },
        }
    } else {
        let paired = pairs_with_equals(source[start]) && start + 1 < source.len() && source[start
            + 1] == '=';
        let end = if paired {
            start + 2
        } else {
            start + 1
        };
        Scan { kind: symbol_kind(source[start], paired), lexeme: source.subrange(start, end), end }
    }
}

/// The token that the lexer hands out when it stands at offset `from`. Its line is
/// the line that the lexer is on behind the token.
pub open spec fn token_at(source: Seq<char>, from: int) -> TokenView {
    let found = scan(source, from);
    TokenView { kind: found.kind, lexeme: found.lexeme, line: line_at(source, found.end) }
}

/// The tokens from offset `from` to the end of the source, the end-of-input token left out.
pub open spec fn tokens_from(source: Seq<char>, from: int) -> Seq<TokenView>
    decreases source.len() - from,
{
    if scan(source, from).kind == TokenType::EOF {
        Seq::empty()
    } else {
        proof {
            scan_advances(source, from);
        }
        seq![token_at(source, from)] + tokens_from(source, scan(source, from).end)
    }
}

/// A run ends between its start and the end of the source; every character in it
/// is of the class, and the character behind it, if there is one, is not.
pub proof fn run_end_bounds(source: Seq<char>, from: int, class: CharClass)
    requires
        0 <= from <= source.len(),
    ensures
        from <= run_end(source, from, class) <= source.len(),
        forall|i: int|
            from <= i < run_end(source, from, class) ==> class.holds(#[trigger] source[i]),
        run_end(source, from, class) < source.len() ==> !class.holds(
            source[run_end(source, from, class)],
        ),
    decreases source.len() - from,
{
    if from < source.len() && class.holds(source[from]) {
        run_end_bounds(source, from + 1, class);
    }
}

/// Line feeds are counted among the characters read: no more than there are, and
/// the count never goes down.
pub proof fn newlines_bounds(source: Seq<char>, earlier: int, later: int)
    requires
        0 <= earlier <= later,
    ensures
        0 <= newlines(source, earlier) <= newlines(source, later),
        newlines(source, later) <= later,
    decreases later,
{
    if later > 0 {
        if earlier < later {
            newlines_bounds(source, earlier, later - 1);
        } else {
            newlines_bounds(source, earlier - 1, later - 1);
        }
    }
}

/// Lexing ends at or behind the offset where it starts, within the source, and every
/// token but the end of input takes at least one character.
pub proof fn scan_advances(source: Seq<char>, from: int)
    ensures
        scan(source, from).kind != TokenType::EOF ==> 0 <= from < scan(source, from).end
            <= source.len(),
        0 <= from <= source.len() ==> from <= scan(source, from).end <= source.len(),
        scan(source, from).kind == TokenType::EOF && 0 <= from <= source.len() ==> scan(
            source,
            from,
        ).end == source.len(),
{
    if 0 <= from <= source.len() {
        run_end_bounds(source, from, CharClass::Whitespace);
        let start = run_end(source, from, CharClass::Whitespace);
        if start < source.len() {
            run_end_bounds(source, start, CharClass::Digit);
            run_end_bounds(source, start, CharClass::Word);
            run_end_bounds(source, start + 1, CharClass::Quoted);
        }
    }
}

/// The end-of-input token is final: asked again, the lexer hands out the same token
/// and stays where it is.
pub proof fn end_of_input_repeats(source: Seq<char>, from: int)
    requires
        0 <= from <= source.len(),
        scan(source, from).kind == TokenType::EOF,
    ensures
        scan(source, from).end == source.len(),
        scan(source, scan(source, from).end) == scan(source, from),
        token_at(source, scan(source, from).end) == token_at(source, from),
{
    scan_advances(source, from);
}

/// The line of a token is no lower than the line that the lexer was on before it,
/// and no higher than the line of the token that follows.
pub proof fn lines_never_decrease(source: Seq<char>, from: int)
    requires
        0 <= from <= source.len(),
    ensures
        1 <= line_at(source, from) <= token_at(source, from).line,
        token_at(source, from).line <= token_at(source, scan(source, from).end).line,
{
    scan_advances(source, from);
    let end = scan(source, from).end;
    scan_advances(source, end);
    newlines_bounds(source, from, end);
    newlines_bounds(source, end, scan(source, end).end);
    newlines_bounds(source, 0, from);
}

/// Each of the tokens of a source is what lexing finds at some offset of it.
pub proof fn tokens_are_scanned(source: Seq<char>, from: int, index: int) -> (at: int)
    requires
        0 <= from <= source.len(),
        0 <= index < tokens_from(source, from).len(),
    ensures
        from <= at < source.len(),
        tokens_from(source, from)[index] == token_at(source, at),
        scan(source, at).kind != TokenType::EOF,
        index + 1 < tokens_from(source, from).len() ==> tokens_from(source, from)[index + 1]
            == token_at(source, scan(source, at).end),
    decreases source.len() - from,
{
    scan_advances(source, from);
    let end = scan(source, from).end;
    if index == 0 {
        if 1 < tokens_from(source, from).len() {
            assert(tokens_from(source, end).len() > 0);
            scan_advances(source, end);
        }
        from
    } else {
        tokens_are_scanned(source, end, index - 1)
    }
}

/// The lines of the tokens of a source, taken in order, never decrease.
pub proof fn token_lines_are_sorted(source: Seq<char>, from: int, earlier: int, later: int)
    requires
        0 <= from <= source.len(),
        0 <= earlier <= later < tokens_from(source, from).len(),
    ensures
        1 <= tokens_from(source, from)[earlier].line <= tokens_from(source, from)[later].line,
    decreases later - earlier,
{
    let at = tokens_are_scanned(source, from, earlier);
    lines_never_decrease(source, at);
    if earlier < later {
        token_lines_are_sorted(source, from, earlier + 1, later);
    }
}

/// The lexeme of an integer literal is a run of digits, and not empty.
pub proof fn integer_lexeme_is_digits(source: Seq<char>, from: int)
    requires
        0 <= from <= source.len(),
        scan(source, from).kind == TokenType::IntegerLiteral,
    ensures
        scan(source, from).lexeme.len() > 0,
        all_digits(scan(source, from).lexeme),
{
    run_end_bounds(source, from, CharClass::Whitespace);
    let start = run_end(source, from, CharClass::Whitespace);
    run_end_bounds(source, start, CharClass::Digit);
}

/// The lexeme of a boolean literal is `true` or `false`.
pub proof fn boolean_lexeme_is_keyword(source: Seq<char>, from: int)
    requires
        0 <= from <= source.len(),
        scan(source, from).kind == TokenType::BooleanLiteral,
    ensures
        scan(source, from).lexeme == "true"@ || scan(source, from).lexeme == "false"@,
{
}

/// The lexeme of every token but the end of input is a piece of the source, taken as
/// it stands from the part that lexing went over.
pub proof fn lexeme_is_taken_from_source(source: Seq<char>, from: int) -> (place: (int, int))
    requires
        0 <= from <= source.len(),
        scan(source, from).kind != TokenType::EOF,
    ensures
        from <= place.0 <= place.1 <= scan(source, from).end,
        scan(source, from).lexeme == source.subrange(place.0, place.1),
{
    run_end_bounds(source, from, CharClass::Whitespace);
    let start = run_end(source, from, CharClass::Whitespace);
    run_end_bounds(source, start, CharClass::Digit);
    run_end_bounds(source, start, CharClass::Word);
    run_end_bounds(source, start + 1, CharClass::Quoted);
    if is_digit_char(source[start]) || CharClass::Word.holds(source[start]) {
        (start, scan(source, from).end)
    } else if source[start] == '"' {
        (start + 1, run_end(source, start + 1, CharClass::Quoted))
    } else {
        (start, scan(source, from).end)
    }
}

/// An entry of the keyword table.
struct Keyword {
    token_type: TokenType,
    lexeme: &'static str,
}

/// What the keyword table holds: `if`, `true` and `false`, each once.
spec fn is_keyword_table(keywords: Seq<Keyword>) -> bool {
    &&& keywords.len() == 3
    &&& keywords[0].lexeme@ == "if"@
    &&& keywords[0].token_type == TokenType::If
    &&& keywords[1].lexeme@ == "true"@
    &&& keywords[1].token_type == TokenType::BooleanLiteral
    &&& keywords[2].lexeme@ == "false"@
    &&& keywords[2].token_type == TokenType::BooleanLiteral
}

fn initialize_keywords() -> (keywords: Vec<Keyword>)
    ensures
        is_keyword_table(keywords@),
{
    let mut keywords: Vec<Keyword> = Vec::new();
    keywords.push(Keyword { token_type: TokenType::If, lexeme: "if" });
    keywords.push(Keyword { token_type: TokenType::BooleanLiteral, lexeme: "true" });
    keywords.push(Keyword { token_type: TokenType::BooleanLiteral, lexeme: "false" });
    keywords
}

/// The token type of the symbol that starts with `c`.
pub fn classify_symbol(c: char, paired: bool) -> (kind: TokenType)
    ensures
        kind == symbol_kind(c, paired),
{
    match c {
        '-' => TokenType::Minus,
        '+' => TokenType::Plus,
        '*' => TokenType::Star,
        '/' => TokenType::Slash,
        '(' => TokenType::LeftParen,
        ')' => TokenType::RightParen,
        '{' => TokenType::LeftBrace,
        '}' => TokenType::RightBrace,
        ';' => TokenType::Semicolon,
        '=' => if paired {
            TokenType::Equals
        } else {
            TokenType::Assignment
        },
        '!' => if paired {
            TokenType::BangEquals
        } else {
            TokenType::Bang
        },
        '<' => if paired {
            TokenType::SmallerEquals
        } else {
            TokenType::Smaller
        },
        '>' => if paired {
            TokenType::GreaterEquals
        } else {
            TokenType::Greater
        },
        _ => TokenType::InvalidToken,
    }
}

/// A lexer over a source text. It hands out one token per call and keeps no history.
pub struct Lexer {
    input: Vec<char>,
    position: usize,
    keywords: Vec<Keyword>,
    current_line: i32,
}

impl Lexer {
    /// The text that is lexed.
    pub closed spec fn source(&self) -> Seq<char> {
        self.input@
    }

    /// How many characters of the source have been consumed.
    pub closed spec fn offset(&self) -> int {
        self.position as int
    }

    /// The line that the lexer is on.
    pub closed spec fn line(&self) -> int {
        self.current_line as int
    }

    /// The state of a lexer is valid: it stands within its source, on the line that
    /// the characters consumed so far put it on, and its keyword table is intact.
    pub closed spec fn wf(&self) -> bool {
        &&& self.input@.len() < i32::MAX
        &&& self.position <= self.input@.len()
        &&& self.current_line == line_at(self.input@, self.position as int)
        &&& is_keyword_table(self.keywords@)
    }

    /// A lexer at the start of `input`, on line 1.
    pub fn new(input: String) -> (lexer: Lexer)
        requires
            input@.len() < i32::MAX,
        ensures
            lexer.wf(),
            lexer.source() == input@,
            lexer.offset() == 0,
            lexer.line() == 1,
    {
        let mut chars: Vec<char> = Vec::new();
        for c in it: input.as_str().chars()
            invariant
                it.seq() == input@,
                chars@ == input@.take(it.index() as int),
        {
            chars.push(c);
        }
        proof {
            assert(input@.take(input@.len() as int) =~= input@);
        }
        Lexer { input: chars, position: 0, keywords: initialize_keywords(), current_line: 1 }
    }

    /// The next token, and the end-of-input token once the source is exhausted,
    /// as often as it is asked for.
    pub fn next_token(&mut self) -> (token: Token)
        requires
            old(self).wf(),
        ensures
            final(self).wf(),
            final(self).source() == old(self).source(),
            token@ == token_at(old(self).source(), old(self).offset()),
            final(self).offset() == scan(old(self).source(), old(self).offset()).end,
            final(self).line() == token.line,
            old(self).line() <= token.line,
    {
        proof {
            scan_advances(self.input@, self.position as int);
            newlines_bounds(
                self.input@,
                self.position as int,
                scan(self.input@, self.position as int).end,
            );
        }
        self.advance_while(CharClass::Whitespace);
        proof {
            run_end_bounds(self.input@, old(self).position as int, CharClass::Whitespace);
        }
        match self.peek() {
            None => Token::new(TokenType::EOF, "EOF".to_owned(), self.current_line),
            Some(c) => {
                if is_digit(c) {
                    self.read_number()
                } else if is_alpha(c) {
                    self.read_identifier()
                } else if c == '"' {
                    self.read_string()
                } else {
                    let start = self.position;
                    self.advance();
                    let paired = (c == '=' || c == '!' || c == '<' || c == '>') && self.matches(
                        '=',
                    );
                    Token::new(
                        classify_symbol(c, paired),
                        self.extract_substring(start, self.position),
                        self.current_line,
                    )
                }
            },
        }
    }

    /// The next token, or `None` at the end of input.
    pub fn next(&mut self) -> (token: Option<Token>)
        requires
            old(self).wf(),
        ensures
            final(self).wf(),
            final(self).source() == old(self).source(),
            final(self).offset() == scan(old(self).source(), old(self).offset()).end,
            match token {
                Some(t) => t@ == token_at(old(self).source(), old(self).offset()) && t.token_type
                    != TokenType::EOF,
                None => scan(old(self).source(), old(self).offset()).kind == TokenType::EOF,
            },
    {
        let next_token = self.next_token();
        if next_token.token_type == TokenType::EOF {
            None
        } else {
            Some(next_token)
        }
    }

    /// Reads a string literal; the lexer stands on the opening quote.
    fn read_string(&mut self) -> (token: Token)
        requires
            old(self).wf(),
            old(self).position < old(self).input@.len(),
            old(self).input@[old(self).position as int] == '"',
        ensures
            final(self).wf(),
            final(self).input@ == old(self).input@,
            token.token_type == TokenType::StringLiteral,
            token.lexeme@ == old(self).input@.subrange(
                old(self).position + 1,
                run_end(old(self).input@, old(self).position + 1, CharClass::Quoted),
            ),
            token.line == final(self).current_line,
            final(self).position == ({
                let close = run_end(old(self).input@, old(self).position + 1, CharClass::Quoted);
                if close < old(self).input@.len() {
                    close + 1
                } else {
                    close
                }
            }),
    {
        // the opening quote
        self.advance();
        let start = self.position;
        self.advance_while(CharClass::Quoted);
        proof {
            run_end_bounds(self.input@, start as int, CharClass::Quoted);
        }
        let t = Token::new(
            TokenType::StringLiteral,
            self.extract_substring(start, self.position),
            self.current_line,
        );
        // the closing quote, if the string has one
        self.advance();
        t
    }

    /// Reads an integer literal; the lexer stands on its first digit.
    fn read_number(&mut self) -> (token: Token)
        requires
            old(self).wf(),
        ensures
            final(self).wf(),
            final(self).input@ == old(self).input@,
            token.token_type == TokenType::IntegerLiteral,
            token.lexeme@ == old(self).input@.subrange(
                old(self).position as int,
                final(self).position as int,
            ),
            token.line == final(self).current_line,
            final(self).position == run_end(
                old(self).input@,
                old(self).position as int,
                CharClass::Digit,
            ),
    {
        let start = self.position;
        self.advance_while(CharClass::Digit);
        proof {
            run_end_bounds(self.input@, start as int, CharClass::Digit);
        }
        Token::new(
            TokenType::IntegerLiteral,
            self.extract_substring(start, self.position),
            self.current_line,
        )
    }

    /// Reads a keyword or an identifier; the lexer stands on its first character.
    fn read_identifier(&mut self) -> (token: Token)
        requires
            old(self).wf(),
        ensures
            final(self).wf(),
            final(self).input@ == old(self).input@,
            token.lexeme@ == old(self).input@.subrange(
                old(self).position as int,
                final(self).position as int,
            ),
            token.token_type == word_kind(token.lexeme@),
            token.line == final(self).current_line,
            final(self).position == run_end(
                old(self).input@,
                old(self).position as int,
                CharClass::Word,
            ),
    {
        let start = self.position;
        self.advance_while(CharClass::Word);
        proof {
            run_end_bounds(self.input@, start as int, CharClass::Word);
        }
        let identifier = self.extract_substring(start, self.position);
        match self.find_keyword(&identifier) {
            Some(index) => Token::new(
                self.keywords[index].token_type,
                self.keywords[index].lexeme.to_owned(),
                self.current_line,
            ),
            None => Token::new(TokenType::Identifier, identifier, self.current_line),
        }
    }

    /// Where `text` stands in the keyword table, if it is a keyword.
    fn find_keyword(&self, text: &String) -> (found: Option<usize>)
        requires
            self.wf(),
        ensures
            match found {
                Some(index) => index < self.keywords@.len() && self.keywords@[index as int].lexeme@
                    == text@ && self.keywords@[index as int].token_type == word_kind(text@),
                None => word_kind(text@) == TokenType::Identifier,
            },
    {
        let mut index: usize = 0;
        while index < self.keywords.len()
            invariant
                self.wf(),
                index <= self.keywords@.len(),
                forall|i: int| 0 <= i < index ==> self.keywords@[i].lexeme@ != text@,
            decreases self.keywords@.len() - index,
        {
            if String::from_str(self.keywords[index].lexeme) == *text {
                proof {
                    reveal_strlit("if");
                    reveal_strlit("true");
                    reveal_strlit("false");
                }
                return Some(index);
            }
            index += 1;
        }
        None
    }

    /// Consumes the longest run of characters of `class` that starts where the lexer stands.
    fn advance_while(&mut self, class: CharClass)
        requires
            old(self).wf(),
        ensures
            final(self).wf(),
            final(self).input@ == old(self).input@,
            final(self).position == run_end(old(self).input@, old(self).position as int, class),
    {
        while self.position < self.input.len() && class.test(self.input[self.position])
            invariant
                self.wf(),
                self.input@ == old(self).input@,
                run_end(self.input@, self.position as int, class) == run_end(
                    old(self).input@,
                    old(self).position as int,
                    class,
                ),
            decreases self.input@.len() - self.position,
        {
            self.advance();
        }
    }

    /// Consumes one character, if any is left; a line feed starts a new line.
    fn advance(&mut self)
        requires
            old(self).wf(),
        ensures
            final(self).wf(),
            final(self).input@ == old(self).input@,
            final(self).position == if old(self).position < old(self).input@.len() {
                old(self).position + 1
            } else {
                old(self).position as int
            },
    {
        if self.position < self.input.len() {
            proof {
                newlines_bounds(self.input@, 0, self.position as int);
            }
            if self.input[self.position] == '\n' {
                self.current_line += 1;
            }
            self.position += 1;
        }
    }

    /// The character that the lexer stands on, if any is left.
    fn peek(&self) -> (c: Option<char>)
        requires
            self.wf(),
        ensures
            c == if self.position < self.input@.len() {
                Some(self.input@[self.position as int])
            } else {
                None
            },
    {
        if self.position < self.input.len() {
            Some(self.input[self.position])
        } else {
            None
        }
    }

    /// Consumes the next character if it is `expected`, and tells whether it did.
    fn matches(&mut self, expected: char) -> (matched: bool)
        requires
            old(self).wf(),
        ensures
            final(self).wf(),
            final(self).input@ == old(self).input@,
            matched == (old(self).position < old(self).input@.len() && old(self).input@[old(
                self,
            ).position as int] == expected),
            final(self).position == if matched {
                old(self).position + 1
            } else {
                old(self).position as int
            },
    {
        if self.peek() == Some(expected) {
            self.advance();
            return true;
        }
        false
    }

    /// The characters of the source from offset `from` up to offset `to`.
    fn extract_substring(&self, from: usize, to: usize) -> (text: String)
        requires
            from <= to <= self.input@.len(),
        ensures
            text@ == self.input@.subrange(from as int, to as int),
    {
        let mut text = String::new();
        let mut index = from;
        while index < to
            invariant
                from <= index <= to <= self.input@.len(),
                text@ == self.input@.subrange(from as int, index as int),
            decreases to - index,
        {
            text.push(self.input[index]);
            proof {
                assert(self.input@.subrange(from as int, index + 1) =~= self.input@.subrange(
                    from as int,
                    index as int,
                ).push(self.input@[index as int]));
            }
            index += 1;
        }
        text
    }
}

} // verus!
