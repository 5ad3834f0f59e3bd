//! The tokenizer: a state machine driven one character at a time.
//!
//! The machine is either `Looking` for the start of a token or holds a pending
//! token whose lexeme it accumulates in a buffer. A character that cannot
//! continue the pending token ends it, and is then read again as if it had
//! arrived while `Looking`. When the input ends, a pending lexeme is emitted
//! under the pending kind as it stands: `=` alone at the end of the input is
//! an `EqEq` token with the lexeme `=`, a word at the end is an identifier
//! even where it spells a keyword, and a string literal that is never closed
//! is a string token without its closing quote.

use crate::literal::{all_digits, float_literal, is_point_of};
use crate::text::{chars_of, is_blank, is_digit, is_letter};
use crate::token::{keyword_kind, Operator, Token, TokenKind, TokenView};
use vstd::prelude::*;

verus! {

/// What the tokenizer holds between two characters.
#[derive(Clone, Copy, Debug, PartialEq, Eq, Structural)]
pub enum State {
    /// A token of a tentative kind is being accumulated.
    Token(TokenKind),
    /// No token is pending.
    Looking,
}

/// A character for which the state machine has no transition, and its index in
/// the input, counted in characters from zero.
#[derive(Clone, Copy, Debug, PartialEq, Eq, Structural)]
pub struct LexError {
    pub character: char,
    pub position: usize,
}

/// How a character is read while no token is pending.
#[derive(Clone, Copy, PartialEq, Eq, Structural)]
pub enum Start {
    /// The character is a whole token of this kind.
    Single(TokenKind),
    /// The character opens a pending token of this tentative kind.
    Open(TokenKind),
    /// Whitespace: skipped.
    Blank,
    /// No token starts with this character.
    Unknown,
}

/// What a pending token does with the next character.
#[derive(Clone, Copy, PartialEq, Eq, Structural)]
pub enum Move {
    /// The character joins the lexeme, which stays pending under this kind.
    Extend(TokenKind),
    /// The character joins the lexeme, which is emitted as this kind.
    Close(TokenKind),
    /// The lexeme is emitted as this kind without the character, which is then
    /// read again as the start of a token.
    Cut(TokenKind),
    /// As `Cut`, for a word: the kind is that of the word.
    CutWord,
    /// The state holds a kind that is never pending.
    Stuck,
}

/// The reading of a character that arrives while no token is pending.
pub open spec fn classify(c: char) -> Start {
    if c == ',' {
        Start::Single(TokenKind::Comma)
    } else if c == ':' {
        Start::Single(TokenKind::Colon)
    } else if c == '+' {
        Start::Single(TokenKind::Op(Operator::Add))
    } else if c == '*' {
        Start::Single(TokenKind::Op(Operator::Mul))
    } else if c == '/' {
        Start::Single(TokenKind::Op(Operator::Div))
    } else if c == '[' {
        Start::Single(TokenKind::LeftBracket)
    } else if c == ']' {
        Start::Single(TokenKind::RightBracket)
    } else if c == '{' {
        Start::Single(TokenKind::LeftCurlyBracket)
    } else if c == '}' {
        Start::Single(TokenKind::RightCurlyBracket)
    } else if c == '(' {
        Start::Single(TokenKind::LeftBrace)
    } else if c == ')' {
        Start::Single(TokenKind::RightBrace)
    } else if c == '=' {
        Start::Open(TokenKind::Op(Operator::EqEq))
    } else if c == '>' {
        Start::Open(TokenKind::Op(Operator::MoreEq))
    } else if c == '<' {
        Start::Open(TokenKind::Op(Operator::LessEq))
    } else if c == '"' {
        Start::Open(TokenKind::String)
    } else if c == '-' {
        Start::Open(TokenKind::Op(Operator::Sub))
    } else if is_digit(c) {
        Start::Open(TokenKind::Int)
    } else if is_letter(c) {
        Start::Open(TokenKind::Ident)
    } else if is_blank(c) {
        Start::Blank
    } else {
        Start::Unknown
    }
}

/// The transition of a pending token of tentative kind `kind` on `c`.
pub open spec fn pending_move(kind: TokenKind, c: char) -> Move {
    match kind {
        TokenKind::Op(Operator::EqEq) => if c == '=' {
            Move::Close(TokenKind::Op(Operator::EqEq))
        } else {
            Move::Cut(TokenKind::Eq)
        },
        TokenKind::Op(Operator::MoreEq) => if c == '=' {
            Move::Close(TokenKind::Op(Operator::MoreEq))
        } else {
            Move::Cut(TokenKind::Op(Operator::More))
        },
        TokenKind::Op(Operator::LessEq) => if c == '=' {
            Move::Close(TokenKind::Op(Operator::LessEq))
        } else {
            Move::Cut(TokenKind::Op(Operator::Less))
        },
        TokenKind::Op(Operator::Sub) => if c == '>' {
            Move::Close(TokenKind::RightArrow)
        } else if c == '<' {
            Move::Close(TokenKind::LeftArrow)
        } else {
            Move::Cut(TokenKind::Op(Operator::Sub))
        },
        TokenKind::String => if c == '"' {
            Move::Close(TokenKind::String)
        } else {
            Move::Extend(TokenKind::String)
        },
        TokenKind::Int => if is_digit(c) {
            Move::Extend(TokenKind::Int)
        } else if c == '.' {
            Move::Extend(TokenKind::Float)
        } else {
            Move::Cut(TokenKind::Int)
        },
        TokenKind::Float => if is_digit(c) {
            Move::Extend(TokenKind::Float)
        } else {
            Move::Cut(TokenKind::Float)
        },
        TokenKind::Ident => if is_letter(c) || is_digit(c) {
            Move::Extend(TokenKind::Ident)
        } else {
            Move::CutWord
        },
        _ => Move::Stuck,
    }
}

/// The state machine as a mathematical value.
pub struct Machine {
    pub state: State,
    /// The lexeme accumulated so far.
    pub buffer: Seq<char>,
    /// The tokens emitted so far, oldest first.
    pub tokens: Seq<TokenView>,
}

impl Machine {
    /// The machine before the first character.
    pub open spec fn start() -> Machine {
        Machine { state: State::Looking, buffer: Seq::empty(), tokens: Seq::empty() }
    }

    /// The machine after it has emitted a token: nothing is pending.
    pub open spec fn emit(self, kind: TokenKind, text: Seq<char>) -> Machine {
        Machine {
            state: State::Looking,
            buffer: Seq::empty(),
            tokens: self.tokens.push(TokenView { kind, text }),
        }
    }

    /// The machine with `c` added to the pending lexeme, of tentative kind `kind`.
    pub open spec fn extend(self, kind: TokenKind, c: char) -> Machine {
        Machine { state: State::Token(kind), buffer: self.buffer.push(c), tokens: self.tokens }
    }

    /// The transition on `c` of a machine that is not accumulating a token, or
    /// `None` where `c` starts no token.
    pub open spec fn look(self, c: char) -> Option<Machine> {
        match classify(c) {
            Start::Single(kind) => Some(self.emit(kind, self.buffer.push(c))),
            Start::Open(kind) => Some(self.extend(kind, c)),
            Start::Blank => Some(self),
            Start::Unknown => None,
        }
    }

    /// The transition on `c`, or `None` where there is none.
    pub open spec fn step(self, c: char) -> Option<Machine> {
        match self.state {
            State::Looking => self.look(c),
            State::Token(kind) => match pending_move(kind, c) {
                Move::Extend(next) => Some(self.extend(next, c)),
                Move::Close(done) => Some(self.emit(done, self.buffer.push(c))),
                Move::Cut(done) => self.emit(done, self.buffer).look(c),
                Move::CutWord => self.emit(keyword_kind(self.buffer), self.buffer).look(c),
                Move::Stuck => None,
            },
        }
    }

    /// The tokens once the input has ended: a pending lexeme becomes the last
    /// token, under the pending kind and as it stands, a string that was never
    /// closed included.
    pub open spec fn finish(self) -> Seq<TokenView> {
        match self.state {
            State::Looking => self.tokens,
            State::Token(kind) => self.tokens.push(TokenView { kind, text: self.buffer }),
        }
    }

    /// The machine after the characters of `text` from index `from` on, or the
    /// first character without a transition.
    pub open spec fn run(self, text: Seq<char>, from: nat) -> Result<Machine, LexError>
        decreases text.len() - from,
    {
        if from >= text.len() {
            Ok(self)
        } else {
            match self.step(text[from as int]) {
                Some(next) => next.run(text, from + 1),
                None => Err(LexError { character: text[from as int], position: from as usize }),
            }
        }
    }
}

/// The tokens of `text`, or the first character that cannot be read and its
/// index.
pub open spec fn tokenize(text: Seq<char>) -> Result<Seq<TokenView>, LexError> {
    match Machine::start().run(text, 0) {
        Ok(machine) => Ok(machine.finish()),
        Err(error) => Err(error),
    }
}

/// Every character of `text` is a blank.
pub open spec fn all_blank(text: Seq<char>) -> bool {
    forall|i: int| 0 <= i < text.len() ==> is_blank(#[trigger] text[i])
}

/// A letter followed by letters and digits.
pub open spec fn is_word(text: Seq<char>) -> bool {
    &&& text.len() > 0
    &&& is_letter(text[0])
    &&& forall|i: int| 0 <= i < text.len() ==> is_letter(#[trigger] text[i]) || is_digit(text[i])
}

/// The kinds of the words: identifiers and keywords.
pub open spec fn is_word_kind(kind: TokenKind) -> bool {
    kind == TokenKind::Ident || kind == TokenKind::Let || kind == TokenKind::If || kind
        == TokenKind::Else || kind == TokenKind::For || kind == TokenKind::While || kind
        == TokenKind::Match
}

/// The kinds under which a lexeme can be pending.
pub open spec fn can_pend(kind: TokenKind) -> bool {
    kind == TokenKind::Op(Operator::EqEq) || kind == TokenKind::Op(Operator::MoreEq) || kind
        == TokenKind::Op(Operator::LessEq) || kind == TokenKind::Op(Operator::Sub) || kind
        == TokenKind::String || kind == TokenKind::Int || kind == TokenKind::Float || kind
        == TokenKind::Ident
}

/// What the kind of a token says of its lexeme: no lexeme is empty, an
/// integer is decimal digits, a decimal has the shape of one, an identifier
/// or a keyword is a word, a string begins with a quote.
pub open spec fn fits(token: TokenView) -> bool {
    &&& token.text.len() > 0
    &&& token.kind == TokenKind::Int ==> all_digits(token.text)
    &&& token.kind == TokenKind::Float ==> float_literal(token.text)
    &&& is_word_kind(token.kind) ==> is_word(token.text)
    &&& token.kind == TokenKind::String ==> token.text[0] == '"'
}

/// The lexeme of every token of `tokens` fits its kind.
pub open spec fn all_fit(tokens: Seq<TokenView>) -> bool {
    forall|i: int| 0 <= i < tokens.len() ==> fits(#[trigger] tokens[i])
}

impl Machine {
    /// What holds of the machine between any two characters of any input:
    /// the emitted lexemes fit their kinds, nothing is buffered while no token
    /// is pending, and a pending lexeme fits its tentative kind, which is one
    /// of those that can be pending.
    pub open spec fn sound(self) -> bool {
        &&& all_fit(self.tokens)
        &&& match self.state {
            State::Looking => self.buffer.len() == 0,
            State::Token(kind) => can_pend(kind) && fits(
                TokenView { kind, text: self.buffer },
            ),
        }
    }

    /// Emitting a lexeme that fits its kind keeps the machine sound.
    proof fn lemma_emit_sound(self, kind: TokenKind, text: Seq<char>)
        requires
            all_fit(self.tokens),
            fits(TokenView { kind, text }),
        ensures
            self.emit(kind, text).sound(),
    {
    }

    /// A sound machine with nothing buffered stays sound when it reads a
    /// character as the start of a token, and it can read every character
    /// that starts one.
    proof fn lemma_look_sound(self, c: char)
        requires
            all_fit(self.tokens),
            self.state == State::Looking,
            self.buffer.len() == 0,
        ensures
            match self.look(c) {
                Some(next) => next.sound(),
                None => classify(c) == Start::Unknown,
            },
    {
        if let Start::Single(kind) = classify(c) {
            self.lemma_emit_sound(kind, self.buffer.push(c));
        }
    }

    /// A step keeps a sound machine sound, and a sound machine has a step on
    /// every character that can start a token.
    pub proof fn lemma_step_sound(self, c: char)
        requires
            self.sound(),
        ensures
            match self.step(c) {
                Some(next) => next.sound(),
                None => classify(c) == Start::Unknown,
            },
    {
        match self.state {
            State::Looking => {
                self.lemma_look_sound(c);
            },
            State::Token(kind) => {
                let longer = self.buffer.push(c);
                match pending_move(kind, c) {
                    Move::Extend(next) => {
                        if next == TokenKind::Float {
                            if kind == TokenKind::Int {
                                assert(is_point_of(longer, self.buffer.len() as int));
                            } else {
                                let dot = choose|dot: int| is_point_of(self.buffer, dot);
                                assert(is_point_of(longer, dot));
                            }
                        }
                    },
                    Move::Close(done) => {
                        self.lemma_emit_sound(done, longer);
                    },
                    Move::Cut(done) => {
                        self.lemma_emit_sound(done, self.buffer);
                        self.emit(done, self.buffer).lemma_look_sound(c);
                    },
                    Move::CutWord => {
                        self.lemma_emit_sound(keyword_kind(self.buffer), self.buffer);
                        self.emit(keyword_kind(self.buffer), self.buffer).lemma_look_sound(c);
                    },
                    Move::Stuck => {},
                }
            },
        }
    }

    /// Reading on from a sound machine ends in a sound machine, or at a
    /// character of the text that starts no token.
    pub proof fn lemma_run_sound(self, text: Seq<char>, from: nat)
        requires
            self.sound(),
        ensures
            match self.run(text, from) {
                Ok(end) => end.sound(),
                Err(error) => text.len() <= usize::MAX ==> {
                    &&& from <= error.position < text.len()
                    &&& error.character == text[error.position as int]
                    &&& classify(error.character) == Start::Unknown
                },
            },
        decreases text.len() - from,
    {
        if from < text.len() {
            self.lemma_step_sound(text[from as int]);
            if let Some(next) = self.step(text[from as int]) {
                next.lemma_run_sound(text, from + 1);
            }
        }
    }

    /// Blanks leave the machine that is looking for a token as it is.
    proof fn lemma_run_blank(self, text: Seq<char>, from: nat)
        requires
            all_blank(text),
            self.state == State::Looking,
        ensures
            self.run(text, from) == Ok::<Machine, LexError>(self),
        decreases text.len() - from,
    {
        if from < text.len() {
            self.lemma_run_blank(text, from + 1);
        }
    }
}

/// A text of blanks, the empty text among them, has no tokens.
pub proof fn lemma_blank_text_has_no_tokens(text: Seq<char>)
    requires
        all_blank(text),
    ensures
        tokenize(text) == Ok::<Seq<TokenView>, LexError>(Seq::empty()),
{
    Machine::start().lemma_run_blank(text, 0);
}

/// Every character of `text` is a blank or can start a token.
pub open spec fn all_known(text: Seq<char>) -> bool {
    forall|i: int| 0 <= i < text.len() ==> classify(#[trigger] text[i]) != Start::Unknown
}

impl Machine {
    /// A sound machine reads to the end a text whose characters are all
    /// blanks or starts of tokens.
    proof fn lemma_run_known(self, text: Seq<char>, from: nat)
        requires
            self.sound(),
            all_known(text),
        ensures
            self.run(text, from) is Ok,
        decreases text.len() - from,
    {
        if from < text.len() {
            self.lemma_step_sound(text[from as int]);
            self.step(text[from as int])->Some_0.lemma_run_known(text, from + 1);
        }
    }
}

/// A text has tokens if each of its characters is a blank or can start a
/// token. (It need not be so: the point of `1.5` starts no token.)
pub proof fn lemma_known_characters_are_read(text: Seq<char>)
    requires
        all_known(text),
    ensures
        tokenize(text) is Ok,
{
    Machine::start().lemma_run_known(text, 0);
}

/// A text is refused only at a character that starts no token: the error
/// names a character of the text and its index, and that character is none
/// of those that the tokenizer reads while no token is pending.
pub proof fn lemma_error_names_an_unknown_character(text: Seq<char>)
    requires
        text.len() <= usize::MAX,
    ensures
        tokenize(text) matches Err(error) ==> {
            &&& error.position < text.len()
            &&& error.character == text[error.position as int]
            &&& classify(error.character) == Start::Unknown
        },
{
    Machine::start().lemma_run_sound(text, 0);
}

/// The lexemes of the tokens of a text fit their kinds.
pub proof fn lemma_lexemes_fit_their_kinds(text: Seq<char>)
    ensures
        tokenize(text) matches Ok(tokens) ==> all_fit(tokens),
{
    Machine::start().lemma_run_sound(text, 0);
}


/// The lexemes of `tokens`, one after the other.
pub open spec fn spell(tokens: Seq<TokenView>) -> Seq<char>
    decreases tokens.len(),
{
    if tokens.len() == 0 {
        Seq::empty()
    } else {
        spell(tokens.drop_last()) + tokens.last().text
    }
}

/// `text` without its blanks.
pub open spec fn unblank(text: Seq<char>) -> Seq<char>
    decreases text.len(),
{
    if text.len() == 0 {
        Seq::empty()
    } else if is_blank(text.last()) {
        unblank(text.drop_last())
    } else {
        unblank(text.drop_last()).push(text.last())
    }
}

impl Machine {
    /// All that the machine holds of the text: the lexemes that it has
    /// emitted and the one that it is accumulating.
    pub open spec fn held(self) -> Seq<char> {
        spell(self.tokens) + self.buffer
    }

    /// A machine that emits `text`, of which it has buffered all but what it
    /// is given last, holds what it held and what it is given.
    proof fn lemma_emit_holds(self, kind: TokenKind, text: Seq<char>)
        ensures
            self.emit(kind, text).held() == spell(self.tokens) + text,
    {
        let after = self.emit(kind, text);
        assert(after.tokens.drop_last() =~= self.tokens);
    }

    /// While no token is pending, a character is held as it is read, unless it
    /// is a blank, which is dropped.
    proof fn lemma_look_holds(self, c: char)
        requires
            self.state == State::Looking,
        ensures
            self.look(c) matches Some(next) ==> next.held() == if is_blank(c) {
                self.held()
            } else {
                self.held().push(c)
            },
    {
        self.lemma_emit_holds(classify(c)->Single_0, self.buffer.push(c));
    }

    /// A step holds the character that it reads, unless the character is a
    /// blank between two tokens, which is dropped.
    proof fn lemma_step_holds(self, c: char)
        ensures
            self.step(c) matches Some(next) ==> next.held() == self.held().push(c) || (is_blank(c)
                && next.held() == self.held()),
    {
        match self.state {
            State::Looking => {
                self.lemma_look_holds(c);
            },
            State::Token(kind) => {
                match pending_move(kind, c) {
                    Move::Close(done) => {
                        self.lemma_emit_holds(done, self.buffer.push(c));
                    },
                    Move::Cut(done) => {
                        self.lemma_emit_holds(done, self.buffer);
                        self.emit(done, self.buffer).lemma_look_holds(c);
                    },
                    Move::CutWord => {
                        let word = keyword_kind(self.buffer);
                        self.lemma_emit_holds(word, self.buffer);
                        self.emit(word, self.buffer).lemma_look_holds(c);
                    },
                    _ => {},
                }
            },
        }
    }

    /// Reading on from index `from` keeps, blanks apart, what the machine
    /// held and adds, blanks apart, what it reads.
    proof fn lemma_run_holds(self, text: Seq<char>, from: nat)
        requires
            from <= text.len(),
            unblank(self.held()) == unblank(text.take(from as int)),
        ensures
            self.run(text, from) matches Ok(end) ==> unblank(end.held()) == unblank(text),
        decreases text.len() - from,
    {
        if from < text.len() {
            let c = text[from as int];
            self.lemma_step_holds(c);
            if let Some(next) = self.step(c) {
                assert(text.take(from + 1 as int).drop_last() =~= text.take(from as int));
                assert(self.held().push(c).drop_last() =~= self.held());
                next.lemma_run_holds(text, from + 1);
            }
        } else {
            assert(text.take(from as int) =~= text);
        }
    }
}

/// Tokenizing loses nothing but blanks, adds nothing and keeps the order:
/// blanks apart, the lexemes of the tokens, one after the other, are the
/// text.
pub proof fn lemma_only_blanks_are_lost(text: Seq<char>)
    ensures
        tokenize(text) matches Ok(tokens) ==> unblank(spell(tokens)) == unblank(text),
{
    let start = Machine::start();
    start.lemma_run_holds(text, 0);
    start.lemma_run_sound(text, 0);
    if let Ok(end) = start.run(text, 0) {
        if end.state is Token {
            assert(end.finish().drop_last() =~= end.tokens);
        }
    }
}


impl Machine {
    /// A pending lexeme that every character from `from` on extends under the
    /// same kind grows to the whole text.
    proof fn lemma_run_extends(self, text: Seq<char>, from: nat, kind: TokenKind)
        requires
            from <= text.len(),
            self.state == State::Token(kind),
            self.buffer == text.take(from as int),
            forall|i: int|
                from <= i < text.len() ==> pending_move(kind, #[trigger] text[i]) == Move::Extend(
                    kind,
                ),
        ensures
            self.run(text, from) == Ok::<Machine, LexError>(
                Machine { state: State::Token(kind), buffer: text, tokens: self.tokens },
            ),
        decreases text.len() - from,
    {
        if from < text.len() {
            let next = self.extend(kind, text[from as int]);
            assert(next.buffer =~= text.take(from + 1 as int));
            next.lemma_run_extends(text, from + 1, kind);
        } else {
            assert(text.take(from as int) =~= text);
        }
    }

    /// A pending number whose digits and point are those of a decimal lexeme
    /// grows to the whole lexeme: it is an integer up to the point and a
    /// decimal from the point on.
    proof fn lemma_run_decimal(self, text: Seq<char>, from: nat, dot: int)
        requires
            is_point_of(text, dot),
            0 < from <= text.len(),
            self.buffer == text.take(from as int),
            self.state == State::Token(
                if from <= dot {
                    TokenKind::Int
                } else {
                    TokenKind::Float
                },
            ),
        ensures
            self.run(text, from) == Ok::<Machine, LexError>(
                Machine { state: State::Token(TokenKind::Float), buffer: text, tokens: self.tokens },
            ),
        decreases text.len() - from,
    {
        if from < text.len() {
            let c = text[from as int];
            let kind = if from < dot {
                TokenKind::Int
            } else {
                TokenKind::Float
            };
            assert(from != dot ==> is_digit(c));
            let next = self.extend(kind, c);
            assert(next.buffer =~= text.take(from + 1 as int));
            next.lemma_run_decimal(text, from + 1, dot);
        } else {
            assert(text.take(from as int) =~= text);
        }
    }
}

/// A text of decimal digits is one integer token.
pub proof fn lemma_digits_are_one_integer(text: Seq<char>)
    requires
        text.len() > 0,
        all_digits(text),
    ensures
        tokenize(text) == Ok::<Seq<TokenView>, LexError>(
            seq![TokenView { kind: TokenKind::Int, text }],
        ),
{
    let first = Machine::start().extend(TokenKind::Int, text[0]);
    assert(first.buffer =~= text.take(1));
    first.lemma_run_extends(text, 1, TokenKind::Int);
    assert(Seq::<TokenView>::empty().push(TokenView { kind: TokenKind::Int, text }) =~= seq![
        TokenView { kind: TokenKind::Int, text },
    ]);
}

/// A text of decimal digits with one point, which is not its first
/// character, is one decimal token.
pub proof fn lemma_decimal_is_one_token(text: Seq<char>)
    requires
        float_literal(text),
    ensures
        tokenize(text) == Ok::<Seq<TokenView>, LexError>(
            seq![TokenView { kind: TokenKind::Float, text }],
        ),
{
    let dot = choose|dot: int| is_point_of(text, dot);
    assert(is_digit(text[0]));
    let first = Machine::start().extend(TokenKind::Int, text[0]);
    assert(first.buffer =~= text.take(1));
    first.lemma_run_decimal(text, 1, dot);
    assert(Seq::<TokenView>::empty().push(TokenView { kind: TokenKind::Float, text }) =~= seq![
        TokenView { kind: TokenKind::Float, text },
    ]);
}

/// A text that is a word, a letter followed by letters and digits, is one
/// identifier token: a digit does not split a word. (At the end of the text
/// the word is an identifier even where it spells a keyword.)
pub proof fn lemma_word_is_one_identifier(text: Seq<char>)
    requires
        is_word(text),
    ensures
        tokenize(text) == Ok::<Seq<TokenView>, LexError>(
            seq![TokenView { kind: TokenKind::Ident, text }],
        ),
{
    let first = Machine::start().extend(TokenKind::Ident, text[0]);
    assert(first.buffer =~= text.take(1));
    first.lemma_run_extends(text, 1, TokenKind::Ident);
    assert(Seq::<TokenView>::empty().push(TokenView { kind: TokenKind::Ident, text }) =~= seq![
        TokenView { kind: TokenKind::Ident, text },
    ]);
}


/// A tokenizer over one input text.
pub struct Lexer {
    buffer: String,
    input: Vec<char>,
    state: State,
    token: Vec<Token>,
    cursor: usize,
}

/// A tokenizer as a mathematical value.
pub struct LexerView {
    /// The whole input.
    pub input: Seq<char>,
    /// How many characters of the input have been read.
    pub cursor: nat,
    pub machine: Machine,
}

impl LexerView {
    /// What reading the rest of the input gives.
    pub open spec fn outcome(self) -> Result<Seq<TokenView>, LexError> {
        match self.machine.run(self.input, self.cursor) {
            Ok(machine) => Ok(machine.finish()),
            Err(error) => Err(error),
        }
    }
}

impl View for Lexer {
    type V = LexerView;

    closed spec fn view(&self) -> LexerView {
        LexerView {
            input: self.input@,
            cursor: self.cursor as nat,
            machine: Machine {
                state: self.state,
                buffer: self.buffer@,
                tokens: self.token.deep_view(),
            },
        }
    }
}

/// The result of a run as a mathematical value.
pub open spec fn lexed(r: Result<Vec<Token>, LexError>) -> Result<Seq<TokenView>, LexError> {
    match r {
        Ok(tokens) => Ok(tokens.deep_view()),
        Err(error) => Err(error),
    }
}

/// How `c` is read while no token is pending.
fn start_of(c: char) -> (start: Start)
    ensures
        start == classify(c),
{
    match c {
        ',' => Start::Single(TokenKind::Comma),
        ':' => Start::Single(TokenKind::Colon),
        '+' => Start::Single(TokenKind::Op(Operator::Add)),
        '*' => Start::Single(TokenKind::Op(Operator::Mul)),
        '/' => Start::Single(TokenKind::Op(Operator::Div)),
        '[' => Start::Single(TokenKind::LeftBracket),
        ']' => Start::Single(TokenKind::RightBracket),
        '{' => Start::Single(TokenKind::LeftCurlyBracket),
        '}' => Start::Single(TokenKind::RightCurlyBracket),
        '(' => Start::Single(TokenKind::LeftBrace),
        ')' => Start::Single(TokenKind::RightBrace),
        '=' => Start::Open(TokenKind::Op(Operator::EqEq)),
        '>' => Start::Open(TokenKind::Op(Operator::MoreEq)),
        '<' => Start::Open(TokenKind::Op(Operator::LessEq)),
        '"' => Start::Open(TokenKind::String),
        '-' => Start::Open(TokenKind::Op(Operator::Sub)),
        '0'..='9' => Start::Open(TokenKind::Int),
        'a'..='z' | 'A'..='Z' => Start::Open(TokenKind::Ident),
        ' ' | '\n' | '\t' => Start::Blank,
        _ => Start::Unknown,
    }
}

/// What a pending token of tentative kind `kind` does with `c`.
fn move_of(kind: TokenKind, c: char) -> (step: Move)
    ensures
        step == pending_move(kind, c),
{
    match (kind, c) {
        (TokenKind::Op(Operator::EqEq), '=') => Move::Close(TokenKind::Op(Operator::EqEq)),
        (TokenKind::Op(Operator::EqEq), _) => Move::Cut(TokenKind::Eq),
        (TokenKind::Op(Operator::MoreEq), '=') => Move::Close(TokenKind::Op(Operator::MoreEq)),
        (TokenKind::Op(Operator::MoreEq), _) => Move::Cut(TokenKind::Op(Operator::More)),
        (TokenKind::Op(Operator::LessEq), '=') => Move::Close(TokenKind::Op(Operator::LessEq)),
        (TokenKind::Op(Operator::LessEq), _) => Move::Cut(TokenKind::Op(Operator::Less)),
        (TokenKind::Op(Operator::Sub), '>') => Move::Close(TokenKind::RightArrow),
        (TokenKind::Op(Operator::Sub), '<') => Move::Close(TokenKind::LeftArrow),
        (TokenKind::Op(Operator::Sub), _) => Move::Cut(TokenKind::Op(Operator::Sub)),
        (TokenKind::String, '"') => Move::Close(TokenKind::String),
        (TokenKind::String, _) => Move::Extend(TokenKind::String),
        (TokenKind::Int, '0'..='9') => Move::Extend(TokenKind::Int),
        (TokenKind::Int, '.') => Move::Extend(TokenKind::Float),
        (TokenKind::Int, _) => Move::Cut(TokenKind::Int),
        (TokenKind::Float, '0'..='9') => Move::Extend(TokenKind::Float),
        (TokenKind::Float, _) => Move::Cut(TokenKind::Float),
        (TokenKind::Ident, 'a'..='z' | 'A'..='Z' | '0'..='9') => Move::Extend(TokenKind::Ident),
        (TokenKind::Ident, _) => Move::CutWord,
        _ => Move::Stuck,
    }
}

impl Lexer {
    /// A tokenizer at the start of `input`.
    pub fn new(input: String) -> (lexer: Self)
        ensures
            lexer@ == (LexerView { input: input@, cursor: 0, machine: Machine::start() }),
            lexer@.outcome() == tokenize(input@),
    {
        let lexer = Self {
            buffer: String::new(),
            input: chars_of(input.as_str()),
            state: State::Looking,
            token: Vec::new(),
            cursor: 0,
        };
        assert(lexer.token.deep_view() =~= Seq::empty());
        lexer
    }

    /// Puts `token` after the tokens emitted so far.
    fn add_token(&mut self, token: Token)
        ensures
            final(self)@ == (LexerView {
                machine: Machine {
                    tokens: old(self)@.machine.tokens.push(token.deep_view()),
                    ..old(self)@.machine
                },
                ..old(self)@
            }),
    {
        let ghost before = self.token.deep_view();
        let ghost added = token.deep_view();
        self.token.push(token);
        assert(self.token.deep_view() =~= before.push(added));
    }

    /// Takes the buffered lexeme and leaves the buffer empty.
    fn clear_buffer(&mut self) -> (buffer: String)
        ensures
            buffer@ == old(self)@.machine.buffer,
            final(self)@ == (LexerView {
                machine: Machine { buffer: Seq::empty(), ..old(self)@.machine },
                ..old(self)@
            }),
    {
        let mut buffer = String::new();
        std::mem::swap(&mut self.buffer, &mut buffer);
        buffer
    }

    /// Emits the buffer as a token of kind `kind` and returns to `Looking`.
    fn emit(&mut self, kind: TokenKind)
        ensures
            final(self)@ == (LexerView {
                machine: old(self)@.machine.emit(kind, old(self)@.machine.buffer),
                ..old(self)@
            }),
    {
        let buffer = self.clear_buffer();
        self.add_token(Token::new(kind, buffer));
        self.state = State::Looking;
    }

    /// Reads `c` as the start of a token; `read` says how `c` starts one.
    fn look(&mut self, c: char, read: Start)
        requires
            read == classify(c),
            read != Start::Unknown,
        ensures
            Some(final(self)@.machine) == old(self)@.machine.look(c),
            final(self)@.input == old(self)@.input,
            final(self)@.cursor == old(self)@.cursor,
    {
        match read {
            Start::Single(kind) => {
                self.buffer.push(c);
                self.emit(kind);
            },
            Start::Open(kind) => {
                self.buffer.push(c);
                self.state = State::Token(kind);
            },
            _ => {},
        }
    }

    /// One transition of the state machine, on the character `input` that
    /// stands at the cursor. Where there is no transition the tokenizer is left
    /// as it was, and the error names the character and the cursor.
    fn next_state(&mut self, input: char) -> (r: Result<(), LexError>)
        ensures
            final(self)@.input == old(self)@.input,
            final(self)@.cursor == old(self)@.cursor,
            match old(self)@.machine.step(input) {
                Some(next) => r is Ok && final(self)@.machine == next,
                None => r == Err::<(), LexError>(
                    LexError { character: input, position: old(self)@.cursor as usize },
                ) && final(self)@ == old(self)@,
            },
    {
        let read = start_of(input);
        let stuck = LexError { character: input, position: self.cursor };
        match self.state {
            State::Looking => {
                if read == Start::Unknown {
                    return Err(stuck);
                }
                self.look(input, read);
            },
            State::Token(kind) => {
                match move_of(kind, input) {
                    Move::Extend(next) => {
                        self.buffer.push(input);
                        self.state = State::Token(next);
                    },
                    Move::Close(done) => {
                        self.buffer.push(input);
                        self.emit(done);
                    },
                    Move::Cut(done) => {
                        if read == Start::Unknown {
                            return Err(stuck);
                        }
                        self.emit(done);
                        self.look(input, read);
                    },
                    Move::CutWord => {
                        if read == Start::Unknown {
                            return Err(stuck);
                        }
                        let buffer = self.clear_buffer();
                        self.add_token(Token::kw_or_ident(buffer));
                        self.state = State::Looking;
                        self.look(input, read);
                    },
                    Move::Stuck => {
                        return Err(stuck);
                    },
                }
            },
        }
        Ok(())
    }

    /// Reads the rest of the input and returns the tokens in the order of their
    /// lexemes, or the first character without a transition.
    pub fn lex(self) -> (r: Result<Vec<Token>, LexError>)
        ensures
            lexed(r) == self@.outcome(),
    {
        let mut lexer = self;
        let n: usize = lexer.input.len();
        while lexer.cursor < n
            invariant
                n == lexer.input@.len(),
                lexer@.outcome() == self@.outcome(),
            decreases n - lexer.cursor,
        {
            let c: char = lexer.input[lexer.cursor];
            match lexer.next_state(c) {
                Err(error) => {
                    return Err(error);
                },
                Ok(_) => {},
            }
            lexer.cursor = lexer.cursor + 1;
        }
        if let State::Token(kind) = lexer.state {
            let buffer = lexer.clear_buffer();
            lexer.add_token(Token::new(kind, buffer));
        }
        Ok(lexer.token)
    }
}

} // verus!
