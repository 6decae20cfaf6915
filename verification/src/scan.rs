use vstd::prelude::*;
use crate::error::{LoxError, LoxErrorKind};
use crate::number::{FloatUnit, NumberOp};
use crate::tokens::{token_views, LiteralModel, LiteralValue, Token, TokenModel, TokenType};

verus! {

/// `String::push` appends one character to the string.
pub assume_specification[ std::string::String::push ](text: &mut std::string::String, ch: char)
    ensures
        final(text)@ == old(text)@.push(ch),
;

pub open spec fn is_digit(c: char) -> bool {
    '0' <= c && c <= '9'
}

pub open spec fn is_alphabetic(c: char) -> bool {
    ('a' <= c && c <= 'z') || ('A' <= c && c <= 'Z')
}

pub open spec fn is_alphanumeric(c: char) -> bool {
    is_alphabetic(c) || is_digit(c)
}

/// The first position at or after `i` that holds no digit.
pub open spec fn digits_end(src: Seq<char>, i: int) -> int
    decreases src.len() - i,
{
    if 0 <= i < src.len() && is_digit(src[i]) {
        digits_end(src, i + 1)
    } else {
        i
    }
}

/// The first position at or after `i` that holds neither a letter nor a digit.
pub open spec fn word_end(src: Seq<char>, i: int) -> int
    decreases src.len() - i,
{
    if 0 <= i < src.len() && is_alphanumeric(src[i]) {
        word_end(src, i + 1)
    } else {
        i
    }
}

/// The position of the first line feed at or after `i`, or the end of the text.
pub open spec fn line_end(src: Seq<char>, i: int) -> int
    decreases src.len() - i,
{
    if 0 <= i < src.len() && src[i] != '\n' {
        line_end(src, i + 1)
    } else {
        i
    }
}

/// Where a numeral that starts at `i` ends: after its digits, and after a dot
/// and the digits behind it if at least one digit follows the dot.
pub open spec fn number_end(src: Seq<char>, i: int) -> int {
    let whole = digits_end(src, i);
    if whole + 1 < src.len() && src[whole] == '.' && is_digit(src[whole + 1]) {
        digits_end(src, whole + 2)
    } else {
        whole
    }
}

/// Looks for the quote that closes a string whose text starts at `i`, counting
/// lines on the way: the position after the quote and the line it stands on.
pub open spec fn string_close(src: Seq<char>, i: int, line: int) -> Option<(int, int)>
    decreases src.len() - i,
{
    if i < 0 || i >= src.len() {
        None
    } else if src[i] == '"' {
        Some((i + 1, line))
    } else {
        string_close(src, i + 1, if src[i] == '\n' { line + 1 } else { line })
    }
}

/// The kind of a word: that of the keyword it spells, or an identifier.
pub open spec fn word_kind(word: Seq<char>) -> TokenType {
    if word == "and"@ {
        TokenType::And
    } else if word == "class"@ {
        TokenType::Class
    } else if word == "else"@ {
        TokenType::Else
    } else if word == "false"@ {
        TokenType::False
    } else if word == "for"@ {
        TokenType::For
    } else if word == "fun"@ {
        TokenType::Fun
    } else if word == "if"@ {
        TokenType::If
    } else if word == "nil"@ {
        TokenType::Nil
    } else if word == "or"@ {
        TokenType::Or
    } else if word == "print"@ {
        TokenType::Print
    } else if word == "return"@ {
        TokenType::Return
    } else if word == "super"@ {
        TokenType::Super
    } else if word == "this"@ {
        TokenType::This
    } else if word == "true"@ {
        TokenType::True
    } else if word == "var"@ {
        TokenType::Var
    } else if word == "while"@ {
        TokenType::While
    } else {
        TokenType::Identifier
    }
}

/// The literal that a word carries: only `true`, `false` and `nil` have one.
pub open spec fn word_literal(kind: TokenType) -> Option<LiteralModel> {
    match kind {
        TokenType::False => Some(LiteralModel::Boolean(false)),
        TokenType::True => Some(LiteralModel::Boolean(true)),
        TokenType::Nil => Some(LiteralModel::Nil),
        _ => None,
    }
}

/// What the scanner makes of the text at one position.
pub enum Lexed {
    /// A token of this kind and payload; the text up to `end` is its lexeme,
    /// and `line` is the line that the scanner is on after it.
    Found { kind: TokenType, literal: Option<LiteralModel>, end: int, line: int },
    /// White space or a comment, up to `end`.
    Skipped { end: int, line: int },
    /// No token can be read here.
    Failed { message: &'static str },
}

/// A token of one character.
pub open spec fn one_character(kind: TokenType, start: int, line: int) -> Lexed {
    Lexed::Found { kind, literal: None, end: start + 1, line }
}

/// A token of one or two characters: `short` alone, or `long` if an `=` follows.
pub open spec fn one_or_two(src: Seq<char>, start: int, line: int, short: TokenType, long: TokenType) -> Lexed {
    if start + 1 < src.len() && src[start + 1] == '=' {
        Lexed::Found { kind: long, literal: None, end: start + 2, line }
    } else {
        Lexed::Found { kind: short, literal: None, end: start + 1, line }
    }
}

/// What the scanner reads at `start`, which lies inside the text.
pub open spec fn scan_at<P: Fn(String) -> Option<u64>, A: Fn(NumberOp, u64, u64) -> u64, R: Fn(u64) -> String>(
    unit: &FloatUnit<P, A, R>,
    src: Seq<char>,
    start: int,
    line: int,
) -> Lexed {
    let c = src[start];
    if c == '(' {
        one_character(TokenType::LeftParen, start, line)
    } else if c == ')' {
        one_character(TokenType::RightParen, start, line)
    } else if c == '{' {
        one_character(TokenType::LeftBrace, start, line)
    } else if c == '}' {
        one_character(TokenType::RightBrace, start, line)
    } else if c == ',' {
        one_character(TokenType::Comma, start, line)
    } else if c == '.' {
        one_character(TokenType::Dot, start, line)
    } else if c == '-' {
        one_character(TokenType::Minus, start, line)
    } else if c == '+' {
        one_character(TokenType::Plus, start, line)
    } else if c == ';' {
        one_character(TokenType::Semicolon, start, line)
    } else if c == '*' {
        one_character(TokenType::Star, start, line)
    } else if c == '!' {
        one_or_two(src, start, line, TokenType::Bang, TokenType::BangEqual)
    } else if c == '=' {
        one_or_two(src, start, line, TokenType::Equal, TokenType::EqualEqual)
    } else if c == '<' {
        one_or_two(src, start, line, TokenType::Less, TokenType::LessEqual)
    } else if c == '>' {
        one_or_two(src, start, line, TokenType::Greater, TokenType::GreaterEqual)
    } else if c == '/' {
        if start + 1 < src.len() && src[start + 1] == '/' {
            Lexed::Skipped { end: line_end(src, start + 2), line }
        } else {
            one_character(TokenType::Slash, start, line)
        }
    } else if c == ' ' || c == '\t' || c == '\r' {
        Lexed::Skipped { end: start + 1, line }
    } else if c == '\n' {
        Lexed::Skipped { end: start + 1, line: line + 1 }
    } else if c == '"' {
        match string_close(src, start + 1, line) {
            Some((end, last_line)) => Lexed::Found {
                kind: TokenType::String,
                literal: Some(LiteralModel::Text(src.subrange(start + 1, end - 1))),
                end,
                line: last_line,
            },
            None => Lexed::Failed { message: "unterminated string" },
        }
    } else if is_digit(c) {
        let end = number_end(src, start);
        match unit.parsed(src.subrange(start, end)) {
            Some(bits) => Lexed::Found {
                kind: TokenType::Number,
                literal: Some(LiteralModel::Number(bits)),
                end,
                line,
            },
            None => Lexed::Failed { message: "unable to parse float" },
        }
    } else if is_alphabetic(c) {
        let end = word_end(src, start + 1);
        let kind = word_kind(src.subrange(start, end));
        Lexed::Found { kind, literal: word_literal(kind), end, line }
    } else {
        Lexed::Failed { message: "unexpected character" }
    }
}

/// What a scan yields: the tokens read, and the error that stopped it, if any.
pub struct Scanned {
    pub tokens: Seq<TokenModel>,
    pub error: Option<LoxError>,
}

/// Scans the text from `start` on, where `tokens` have been read so far, the
/// scanner is on line `line` and the next token gets the id `id`.  A text read
/// to its end is closed by an `EOF` token with an empty lexeme.
pub open spec fn scan_from<P: Fn(String) -> Option<u64>, A: Fn(NumberOp, u64, u64) -> u64, R: Fn(u64) -> String>(
    unit: &FloatUnit<P, A, R>,
    src: Seq<char>,
    start: int,
    line: int,
    id: int,
    tokens: Seq<TokenModel>,
) -> Scanned
    decreases src.len() - start,
{
    if start < 0 || start >= src.len() {
        Scanned {
            tokens: tokens.push(
                TokenModel {
                    kind: TokenType::EOF,
                    lexeme: Seq::empty(),
                    literal: None,
                    line: line as i32,
                    id: id as u32,
                },
            ),
            error: None,
        }
    } else {
        proof {
            lemma_scan_at_advances(unit, src, start, line);
        }
        match scan_at(unit, src, start, line) {
            Lexed::Failed { message } => Scanned {
                tokens,
                error: Some(LoxError { message, kind: LoxErrorKind::ScannerError }),
            },
            Lexed::Skipped { end, line: next_line } => scan_from(unit, src, end, next_line, id, tokens),
            Lexed::Found { kind, literal, end, line: next_line } => scan_from(
                unit,
                src,
                end,
                next_line,
                id + 1,
                tokens.push(
                    TokenModel {
                        kind,
                        lexeme: src.subrange(start, end),
                        literal,
                        line: next_line as i32,
                        id: id as u32,
                    },
                ),
            ),
        }
    }
}

/// The scan of a whole text by a scanner whose next id is `id`.
pub open spec fn scan_text<P: Fn(String) -> Option<u64>, A: Fn(NumberOp, u64, u64) -> u64, R: Fn(u64) -> String>(
    unit: &FloatUnit<P, A, R>,
    src: Seq<char>,
    id: u32,
) -> Scanned {
    scan_from(unit, src, 0, 1, id as int, Seq::empty())
}

pub proof fn lemma_digits_end_bounds(src: Seq<char>, i: int)
    requires
        0 <= i <= src.len(),
    ensures
        i <= digits_end(src, i) <= src.len(),
    decreases src.len() - i,
{
    if i < src.len() && is_digit(src[i]) {
        lemma_digits_end_bounds(src, i + 1);
    }
}

pub proof fn lemma_word_end_bounds(src: Seq<char>, i: int)
    requires
        0 <= i <= src.len(),
    ensures
        i <= word_end(src, i) <= src.len(),
    decreases src.len() - i,
{
    if i < src.len() && is_alphanumeric(src[i]) {
        lemma_word_end_bounds(src, i + 1);
    }
}

pub proof fn lemma_line_end_bounds(src: Seq<char>, i: int)
    requires
        0 <= i <= src.len(),
    ensures
        i <= line_end(src, i) <= src.len(),
    decreases src.len() - i,
{
    if i < src.len() && src[i] != '\n' {
        lemma_line_end_bounds(src, i + 1);
    }
}

pub proof fn lemma_number_end_bounds(src: Seq<char>, i: int)
    requires
        0 <= i <= src.len(),
    ensures
        i <= number_end(src, i) <= src.len(),
{
    lemma_digits_end_bounds(src, i);
    let whole = digits_end(src, i);
    if whole + 1 < src.len() {
        lemma_digits_end_bounds(src, whole + 2);
    }
}

pub proof fn lemma_string_close_bounds(src: Seq<char>, i: int, line: int)
    requires
        0 <= i <= src.len(),
    ensures
        match string_close(src, i, line) {
            Some((end, last_line)) => i < end <= src.len() && line <= last_line && last_line - line
                <= end - i,
            None => true,
        },
    decreases src.len() - i,
{
    if i < src.len() && src[i] != '"' {
        lemma_string_close_bounds(src, i + 1, if src[i] == '\n' { line + 1 } else { line });
    }
}

/// Whatever is read at a position inside the text ends behind that position
/// and inside the text, and crosses no more lines than characters.
pub proof fn lemma_scan_at_advances<P: Fn(String) -> Option<u64>, A: Fn(NumberOp, u64, u64) -> u64, R: Fn(u64) -> String>(
    unit: &FloatUnit<P, A, R>,
    src: Seq<char>,
    start: int,
    line: int,
)
    requires
        0 <= start < src.len(),
    ensures
        match scan_at(unit, src, start, line) {
            Lexed::Found { end, line: next_line, .. } => start < end <= src.len() && line <= next_line
                && next_line - line <= end - start,
            Lexed::Skipped { end, line: next_line } => start < end <= src.len() && line <= next_line
                && next_line - line <= end - start,
            Lexed::Failed { .. } => true,
        },
{
    lemma_line_end_bounds(src, start + 1);
    if start + 2 <= src.len() {
        lemma_line_end_bounds(src, start + 2);
    }
    lemma_string_close_bounds(src, start + 1, line);
    lemma_number_end_bounds(src, start);
    lemma_digits_end_bounds(src, start + 1);
    if digits_end(src, start) + 2 <= src.len() {
        lemma_digits_end_bounds(src, digits_end(src, start) + 2);
    }
    lemma_word_end_bounds(src, start + 1);
}


/// The sequence is closed by an `EOF` token and holds no other.
pub open spec fn closed_by_one_eof(tokens: Seq<TokenModel>) -> bool {
    &&& tokens.len() > 0
    &&& tokens.last().kind == TokenType::EOF
    &&& forall|i: int| 0 <= i < tokens.len() - 1 ==> (#[trigger] tokens[i]).kind != TokenType::EOF
}

/// The ids count up by one from `first`.
pub open spec fn numbered_from(tokens: Seq<TokenModel>, first: int) -> bool {
    forall|i: int| 0 <= i < tokens.len() ==> (#[trigger] tokens[i]).id == first + i
}

proof fn lemma_scan_from_shape<P: Fn(String) -> Option<u64>, A: Fn(NumberOp, u64, u64) -> u64, R: Fn(u64) -> String>(
    unit: &FloatUnit<P, A, R>,
    src: Seq<char>,
    start: int,
    line: int,
    id: int,
    tokens: Seq<TokenModel>,
)
    requires
        0 <= start <= src.len(),
        0 <= id,
        id + (src.len() - start) <= u32::MAX,
        forall|i: int| 0 <= i < tokens.len() ==> (#[trigger] tokens[i]).kind != TokenType::EOF,
        numbered_from(tokens, id - tokens.len()),
    ensures
        numbered_from(scan_from(unit, src, start, line, id, tokens).tokens, id - tokens.len()),
        scan_from(unit, src, start, line, id, tokens).error is None ==> closed_by_one_eof(
            scan_from(unit, src, start, line, id, tokens).tokens,
        ),
    decreases src.len() - start,
{
    if start < src.len() {
        lemma_scan_at_advances(unit, src, start, line);
        match scan_at(unit, src, start, line) {
            Lexed::Failed { .. } => {},
            Lexed::Skipped { end, line: next_line } => {
                lemma_scan_from_shape(unit, src, end, next_line, id, tokens);
            },
            Lexed::Found { kind, literal, end, line: next_line } => {
                let token = TokenModel {
                    kind,
                    lexeme: src.subrange(start, end),
                    literal,
                    line: next_line as i32,
                    id: id as u32,
                };
                lemma_scan_from_shape(unit, src, end, next_line, id + 1, tokens.push(token));
            },
        }
    }
}

/// A text that is scanned without an error gives tokens that end with
/// exactly one `EOF`.
pub proof fn scan_ends_with_one_eof<P: Fn(String) -> Option<u64>, A: Fn(NumberOp, u64, u64) -> u64, R: Fn(u64) -> String>(
    unit: &FloatUnit<P, A, R>,
    src: Seq<char>,
    id: u32,
)
    requires
        id + src.len() <= u32::MAX,
    ensures
        scan_text(unit, src, id).error is None ==> closed_by_one_eof(scan_text(unit, src, id).tokens),
{
    lemma_scan_from_shape(unit, src, 0, 1, id as int, Seq::empty());
}

/// The tokens of one scan carry consecutive ids, starting with the
/// scanner's next id: no two tokens share an id.
pub proof fn scan_numbers_its_tokens<P: Fn(String) -> Option<u64>, A: Fn(NumberOp, u64, u64) -> u64, R: Fn(u64) -> String>(
    unit: &FloatUnit<P, A, R>,
    src: Seq<char>,
    id: u32,
)
    requires
        id + src.len() <= u32::MAX,
    ensures
        numbered_from(scan_text(unit, src, id).tokens, id as int),
{
    lemma_scan_from_shape(unit, src, 0, 1, id as int, Seq::empty());
}

pub open spec fn scanner_error(message: &'static str) -> LoxError {
    LoxError { message, kind: LoxErrorKind::ScannerError }
}

/// The characters of a string, in order.
pub fn characters(text: &str) -> (chars: Vec<char>)
    ensures
        chars@ == text@,
{
    let mut chars: Vec<char> = Vec::new();
    for c in it: text.chars()
        invariant
            it.seq() == text@,
            chars@ == it.seq().take(it.index() as int),
    {
        chars.push(c);
    }
    chars
}

/// The string made of the characters from `from` up to `to`.
pub fn text_between(chars: &Vec<char>, from: usize, to: usize) -> (text: String)
    requires
        from <= to <= chars.len(),
    ensures
        text@ == chars@.subrange(from as int, to as int),
{
    let mut text = String::new();
    let mut i: usize = from;
    while i < to
        invariant
            from <= i <= to <= chars.len(),
            text@ == chars@.subrange(from as int, i as int),
        decreases to - i,
    {
        text.push(chars[i]);
        i = i + 1;
        assert(chars@.subrange(from as int, i as int) == chars@.subrange(from as int, i - 1).push(
            chars@[i - 1],
        ));
    }
    text
}

/// Whether a string spells the given word.
pub fn spells(text: &String, word: &str) -> (answer: bool)
    ensures
        answer == (text@ == word@),
{
    let other = word.to_owned();
    *text == other
}

pub fn digit(c: char) -> (answer: bool)
    ensures
        answer == is_digit(c),
{
    '0' <= c && c <= '9'
}

pub fn alphabetic(c: char) -> (answer: bool)
    ensures
        answer == is_alphabetic(c),
{
    ('a' <= c && c <= 'z') || ('A' <= c && c <= 'Z')
}

pub fn alphanumeric(c: char) -> (answer: bool)
    ensures
        answer == is_alphanumeric(c),
{
    alphabetic(c) || digit(c)
}

/// The kind of a word: that of the keyword it spells, or an identifier.
pub fn kind_of_word(word: &String) -> (kind: TokenType)
    ensures
        kind == word_kind(word@),
{
    if spells(word, "and") {
        TokenType::And
    } else if spells(word, "class") {
        TokenType::Class
    } else if spells(word, "else") {
        TokenType::Else
    } else if spells(word, "false") {
        TokenType::False
    } else if spells(word, "for") {
        TokenType::For
    } else if spells(word, "fun") {
        TokenType::Fun
    } else if spells(word, "if") {
        TokenType::If
    } else if spells(word, "nil") {
        TokenType::Nil
    } else if spells(word, "or") {
        TokenType::Or
    } else if spells(word, "print") {
        TokenType::Print
    } else if spells(word, "return") {
        TokenType::Return
    } else if spells(word, "super") {
        TokenType::Super
    } else if spells(word, "this") {
        TokenType::This
    } else if spells(word, "true") {
        TokenType::True
    } else if spells(word, "var") {
        TokenType::Var
    } else if spells(word, "while") {
        TokenType::While
    } else {
        TokenType::Identifier
    }
}

/// Turns source text into tokens.  A scanner can be used again and again; the
/// ids of its tokens go on counting over all its scans.
pub struct Scanner {
    pub tokens: Vec<Token>,
    pub start: usize,
    pub current: usize,
    pub line: i32,
    pub next_id: u32,
}

impl Scanner {
    /// The id that the next token will get.
    pub open spec fn upcoming_id(&self) -> u32 {
        self.next_id
    }

    /// The models of the tokens read by the last scan.
    pub open spec fn read(&self) -> Seq<TokenModel> {
        token_views(self.tokens@)
    }

    /// The scanner is inside `chars` with room left for the lines and ids
    /// that the rest of the text may take.
    pub open spec fn within(&self, chars: Seq<char>) -> bool {
        &&& self.start <= self.current <= chars.len()
        &&& self.line + (chars.len() - self.start) <= i32::MAX
        &&& self.next_id + (chars.len() - self.start) < u32::MAX
    }

    /// The scanner has read what `scan_at` finds at its start.
    pub open spec fn took(&self, before: &Scanner, chars: Seq<char>, lexed: Lexed) -> bool {
        match lexed {
            Lexed::Failed { .. } => false,
            Lexed::Skipped { end, line } => {
                &&& self.current == end
                &&& self.line == line
                &&& self.start == before.start
                &&& self.next_id == before.next_id
                &&& self.read() == before.read()
            },
            Lexed::Found { kind, literal, end, line } => {
                &&& self.current == end
                &&& self.line == line
                &&& self.start == before.start
                &&& self.next_id == before.next_id + 1
                &&& self.read() == before.read().push(
                    TokenModel {
                        kind,
                        lexeme: chars.subrange(before.start as int, end),
                        literal,
                        line: line as i32,
                        id: before.next_id,
                    },
                )
            },
        }
    }

    pub fn new() -> (scanner: Scanner)
        ensures
            scanner.upcoming_id() == 0,
            scanner.tokens@.len() == 0,
    {
        Scanner { tokens: Vec::<Token>::new(), start: 0, current: 0, line: 1, next_id: 0 }
    }

    /// Scans `source` from its start.  The tokens are those of `scan_text`,
    /// closed by one `EOF` if the text was read to its end; the first
    /// malformed token ends the scan with a `ScannerError`.  The text must be
    /// short enough for its lines to be counted and its tokens to get ids.
    pub fn scan<P: Fn(String) -> Option<u64>, A: Fn(NumberOp, u64, u64) -> u64, R: Fn(u64) -> String>(
        &mut self,
        source: &String,
        unit: &FloatUnit<P, A, R>,
    ) -> (res: Result<(), LoxError>)
        requires
            unit.dependable(),
            source@.len() < i32::MAX,
            old(self).upcoming_id() + source@.len() < u32::MAX,
        ensures
            final(self).read() == scan_text(unit, source@, old(self).upcoming_id()).tokens,
            res == match scan_text(unit, source@, old(self).upcoming_id()).error {
                Some(e) => Err::<(), LoxError>(e),
                None => Ok(()),
            },
            final(self).upcoming_id() == old(self).upcoming_id() + final(self).tokens@.len(),
            res is Ok ==> closed_by_one_eof(final(self).read()),
            numbered_from(final(self).read(), old(self).upcoming_id() as int),
    {
        proof {
            scan_ends_with_one_eof(unit, source@, self.next_id);
            scan_numbers_its_tokens(unit, source@, self.next_id);
        }
        self.tokens = Vec::new();
        self.start = 0;
        self.current = 0;
        self.line = 1;
        let chars = characters(source.as_str());
        let ghost first_id = self.next_id;
        assert(self.read() =~= Seq::<TokenModel>::empty());
        while self.current < chars.len()
            invariant
                unit.dependable(),
                chars@ == source@,
                first_id == old(self).next_id,
                numbered_from(scan_text(unit, source@, first_id).tokens, first_id as int),
                self.start == self.current,
                self.within(chars@),
                self.next_id == first_id + self.tokens@.len(),
                scan_from(unit, chars@, self.start as int, self.line as int, self.next_id as int, self.read())
                    == scan_text(unit, source@, first_id),
            decreases chars.len() - self.current,
        {
            proof {
                lemma_scan_at_advances(unit, chars@, self.start as int, self.line as int);
            }
            let ghost before = *self;
            match self.scan_token(&chars, unit) {
                Ok(()) => {},
                Err(e) => {
                    proof {
                        assert(self.read().len() == self.tokens@.len());
                        assert(before.read().len() == before.tokens@.len());
                    }
                    return Err(e);
                },
            }
            proof {
                assert(self.read().len() == self.tokens@.len());
                assert(before.read().len() == before.tokens@.len());
            }
            self.start = self.current;
        }
        self.add_token(TokenType::EOF, String::new(), None);
        Ok(())
    }

    /// Reads one token, a comment or a stretch of white space at `start`.
    fn scan_token<P: Fn(String) -> Option<u64>, A: Fn(NumberOp, u64, u64) -> u64, R: Fn(u64) -> String>(
        &mut self,
        chars: &Vec<char>,
        unit: &FloatUnit<P, A, R>,
    ) -> (res: Result<(), LoxError>)
        requires
            unit.dependable(),
            old(self).within(chars@),
            old(self).start == old(self).current < chars.len(),
        ensures
            match scan_at(unit, chars@, old(self).start as int, old(self).line as int) {
                Lexed::Failed { message } => res == Err::<(), LoxError>(scanner_error(message))
                    && final(self).read() == old(self).read() && final(self).next_id == old(self).next_id,
                lexed => res is Ok && final(self).took(old(self), chars@, lexed),
            },
    {
        proof {
            lemma_scan_at_advances(unit, chars@, self.start as int, self.line as int);
        }
        let c = chars[self.current];
        self.current = self.current + 1;
        if c == '(' {
            self.add_simple_token(TokenType::LeftParen, chars);
        } else if c == ')' {
            self.add_simple_token(TokenType::RightParen, chars);
        } else if c == '{' {
            self.add_simple_token(TokenType::LeftBrace, chars);
        } else if c == '}' {
            self.add_simple_token(TokenType::RightBrace, chars);
        } else if c == ',' {
            self.add_simple_token(TokenType::Comma, chars);
        } else if c == '.' {
            self.add_simple_token(TokenType::Dot, chars);
        } else if c == '-' {
            self.add_simple_token(TokenType::Minus, chars);
        } else if c == '+' {
            self.add_simple_token(TokenType::Plus, chars);
        } else if c == ';' {
            self.add_simple_token(TokenType::Semicolon, chars);
        } else if c == '*' {
            self.add_simple_token(TokenType::Star, chars);
        } else if c == '!' {
            let kind = if self.match_next('=', chars) {
                TokenType::BangEqual
            } else {
                TokenType::Bang
            };
            self.add_simple_token(kind, chars);
        } else if c == '=' {
            let kind = if self.match_next('=', chars) {
                TokenType::EqualEqual
            } else {
                TokenType::Equal
            };
            self.add_simple_token(kind, chars);
        } else if c == '<' {
            let kind = if self.match_next('=', chars) {
                TokenType::LessEqual
            } else {
                TokenType::Less
            };
            self.add_simple_token(kind, chars);
        } else if c == '>' {
            let kind = if self.match_next('=', chars) {
                TokenType::GreaterEqual
            } else {
                TokenType::Greater
            };
            self.add_simple_token(kind, chars);
        } else if c == '/' {
            if self.match_next('/', chars) {
                proof {
                    lemma_line_end_bounds(chars@, self.current as int);
                }
                while self.current < chars.len() && chars[self.current] != '\n'
                    invariant
                        old(self).start + 2 <= self.current <= chars.len(),
                        self.start == old(self).start,
                        self.line == old(self).line,
                        self.next_id == old(self).next_id,
                        self.tokens == old(self).tokens,
                        line_end(chars@, self.current as int) == line_end(chars@, old(self).start + 2),
                    decreases chars.len() - self.current,
                {
                    self.current = self.current + 1;
                }
            } else {
                self.add_simple_token(TokenType::Slash, chars);
            }
        } else if c == ' ' || c == '\t' || c == '\r' {
        } else if c == '\n' {
            self.line = self.line + 1;
        } else if c == '"' {
            return self.scan_string(chars);
        } else if digit(c) {
            return self.scan_number(chars, unit);
        } else if alphabetic(c) {
            return self.scan_alphabetic(chars);
        } else {
            return Err(LoxError { kind: LoxErrorKind::ScannerError, message: "unexpected character" });
        }
        Ok(())
    }

    /// Consumes the next character if it is the expected one.
    fn match_next(&mut self, expected: char, chars: &Vec<char>) -> (matched: bool)
        requires
            old(self).current <= chars.len(),
        ensures
            matched == (old(self).current < chars.len() && chars@[old(self).current as int] == expected),
            final(self).current == old(self).current + if matched { 1int } else { 0int },
            final(self).start == old(self).start,
            final(self).line == old(self).line,
            final(self).next_id == old(self).next_id,
            final(self).tokens == old(self).tokens,
    {
        if self.current < chars.len() && chars[self.current] == expected {
            self.current = self.current + 1;
            true
        } else {
            false
        }
    }

    /// Adds a token without a literal whose lexeme is the text from `start`
    /// to `current`.
    fn add_simple_token(&mut self, token_type: TokenType, chars: &Vec<char>)
        requires
            old(self).start <= old(self).current <= chars.len(),
            old(self).next_id < u32::MAX,
        ensures
            final(self).took(
                old(self),
                chars@,
                Lexed::Found {
                    kind: token_type,
                    literal: None,
                    end: old(self).current as int,
                    line: old(self).line as int,
                },
            ),
    {
        let lexeme = text_between(chars, self.start, self.current);
        self.add_token(token_type, lexeme, None);
    }

    /// Adds a token on the current line, with the next id.
    fn add_token(&mut self, token_type: TokenType, lexeme: String, literal: Option<LiteralValue>)
        requires
            old(self).next_id < u32::MAX,
        ensures
            final(self).start == old(self).start,
            final(self).current == old(self).current,
            final(self).line == old(self).line,
            final(self).next_id == old(self).next_id + 1,
            final(self).tokens@.len() == old(self).tokens@.len() + 1,
            final(self).read() == old(self).read().push(
                TokenModel {
                    kind: token_type,
                    lexeme: lexeme@,
                    literal: crate::tokens::literal_view(literal),
                    line: old(self).line,
                    id: old(self).next_id,
                },
            ),
    {
        let t = Token { token_type, lexeme, literal, line: self.line, id: self.next_id };
        self.next_id = self.next_id + 1;
        self.tokens.push(t);
        assert(self.read() =~= old(self).read().push(t@));
    }

    /// Reads a string literal whose opening quote has been consumed.
    fn scan_string(&mut self, chars: &Vec<char>) -> (res: Result<(), LoxError>)
        requires
            old(self).within(chars@),
            old(self).current == old(self).start + 1,
        ensures
            match string_close(chars@, old(self).start + 1, old(self).line as int) {
                None => res == Err::<(), LoxError>(scanner_error("unterminated string")) && final(self).read() == old(self).read() && final(self).next_id == old(self).next_id,
                Some((end, last_line)) => res is Ok && final(self).took(
                    old(self),
                    chars@,
                    Lexed::Found {
                        kind: TokenType::String,
                        literal: Some(
                            LiteralModel::Text(chars@.subrange(old(self).start + 1, end - 1)),
                        ),
                        end,
                        line: last_line,
                    },
                ),
            },
    {
        proof {
            lemma_string_close_bounds(chars@, self.current as int, self.line as int);
        }
        while self.current < chars.len() && chars[self.current] != '"'
            invariant
                old(self).within(chars@),
                old(self).start + 1 <= self.current <= chars.len(),
                self.start == old(self).start,
                self.next_id == old(self).next_id,
                self.tokens == old(self).tokens,
                old(self).line <= self.line,
                self.line - old(self).line <= self.current - (old(self).start + 1),
                string_close(chars@, self.current as int, self.line as int) == string_close(
                    chars@,
                    old(self).start + 1,
                    old(self).line as int,
                ),
            decreases chars.len() - self.current,
        {
            if chars[self.current] == '\n' {
                self.line = self.line + 1;
            }
            self.current = self.current + 1;
        }
        if self.current >= chars.len() {
            return Err(LoxError { kind: LoxErrorKind::ScannerError, message: "unterminated string" });
        }
        self.current = self.current + 1;
        let lexeme = text_between(chars, self.start, self.current);
        let literal = text_between(chars, self.start + 1, self.current - 1);
        self.add_token(TokenType::String, lexeme, Some(LiteralValue::StringValue(literal)));
        Ok(())
    }

    /// Consumes digits from `current` on.
    fn skip_digits(&mut self, chars: &Vec<char>)
        requires
            old(self).current <= chars.len(),
        ensures
            final(self).current == digits_end(chars@, old(self).current as int),
            old(self).current <= final(self).current <= chars.len(),
            final(self).start == old(self).start,
            final(self).line == old(self).line,
            final(self).next_id == old(self).next_id,
            final(self).tokens == old(self).tokens,
    {
        while self.current < chars.len() && digit(chars[self.current])
            invariant
                old(self).current <= self.current <= chars.len(),
                self.start == old(self).start,
                self.line == old(self).line,
                self.next_id == old(self).next_id,
                self.tokens == old(self).tokens,
                digits_end(chars@, self.current as int) == digits_end(chars@, old(self).current as int),
            decreases chars.len() - self.current,
        {
            self.current = self.current + 1;
        }
    }

    /// Reads a number whose first digit has been consumed.
    fn scan_number<P: Fn(String) -> Option<u64>, A: Fn(NumberOp, u64, u64) -> u64, R: Fn(u64) -> String>(
        &mut self,
        chars: &Vec<char>,
        unit: &FloatUnit<P, A, R>,
    ) -> (res: Result<(), LoxError>)
        requires
            unit.dependable(),
            old(self).within(chars@),
            old(self).current == old(self).start + 1,
            is_digit(chars@[old(self).start as int]),
        ensures
            match unit.parsed(
                chars@.subrange(old(self).start as int, number_end(chars@, old(self).start as int)),
            ) {
                None => res == Err::<(), LoxError>(scanner_error("unable to parse float")) && final(self).read() == old(self).read() && final(self).next_id == old(self).next_id,
                Some(bits) => res is Ok && final(self).took(
                    old(self),
                    chars@,
                    Lexed::Found {
                        kind: TokenType::Number,
                        literal: Some(LiteralModel::Number(bits)),
                        end: number_end(chars@, old(self).start as int),
                        line: old(self).line as int,
                    },
                ),
            },
    {
        self.skip_digits(chars);
        if self.current < chars.len() - 1 && chars[self.current] == '.' && digit(chars[self.current + 1]) {
            self.current = self.current + 2;
            self.skip_digits(chars);
        }
        let lexeme = text_between(chars, self.start, self.current);
        match unit.read(lexeme.clone()) {
            Some(number) => {
                self.add_token(TokenType::Number, lexeme, Some(LiteralValue::NumberValue(number)));
                Ok(())
            },
            None => Err(LoxError { kind: LoxErrorKind::ScannerError, message: "unable to parse float" }),
        }
    }

    /// Reads an identifier or keyword whose first letter has been consumed.
    fn scan_alphabetic(&mut self, chars: &Vec<char>) -> (res: Result<(), LoxError>)
        requires
            old(self).within(chars@),
            old(self).current == old(self).start + 1,
        ensures
            res is Ok,
            ({
                let end = word_end(chars@, old(self).start + 1);
                let kind = word_kind(chars@.subrange(old(self).start as int, end));
                final(self).took(
                    old(self),
                    chars@,
                    Lexed::Found { kind, literal: word_literal(kind), end, line: old(self).line as int },
                )
            }),
    {
        while self.current < chars.len() && alphanumeric(chars[self.current])
            invariant
                old(self).current <= self.current <= chars.len(),
                self.start == old(self).start,
                self.line == old(self).line,
                self.next_id == old(self).next_id,
                self.tokens == old(self).tokens,
                word_end(chars@, self.current as int) == word_end(chars@, old(self).current as int),
            decreases chars.len() - self.current,
        {
            self.current = self.current + 1;
        }
        let lexeme = text_between(chars, self.start, self.current);
        let token_type = kind_of_word(&lexeme);
        let literal = match token_type {
            TokenType::False => Some(LiteralValue::BooleanValue(false)),
            TokenType::True => Some(LiteralValue::BooleanValue(true)),
            TokenType::Nil => Some(LiteralValue::NilValue),
            _ => None,
        };
        self.add_token(token_type, lexeme, literal);
        Ok(())
    }
}

} // verus!
