//! The plain-text configuration language: a lexer and a recursive-descent
//! parser for statements of the form `Set <variable> <value>` and
//! `Do <action> on <key-combination>`, with `*` starting a comment that
//! runs to the end of the line.

use vstd::prelude::*;

verus! {

/// An action name of the configuration language.
#[derive(Debug, Clone, Copy, PartialEq, Eq, Structural)]
pub enum Action {
    FocusLeft,
    FocusRight,
    MoveLeft,
    MoveRight,
    Launcher,
    Terminal,
    CloseWindow,
    NextWs,
    PrevWs,
}

/// A modifier name of the configuration language.
#[derive(Debug, Clone, Copy, PartialEq, Eq, Structural)]
pub enum SpecialKey {
    Shift,
    Control,
    Alt,
    Super,
    Space,
}

/// A base key of a key combination.
#[derive(Debug, Clone, Copy, PartialEq, Eq, Structural)]
pub enum Key {
    Char(char),
    Space,
    Return,
    Tab,
    Escape,
}

/// A settable variable.
#[derive(Debug, Clone, Copy, PartialEq, Eq, Structural)]
pub enum Variable {
    Gap,
    MasterKey,
    Terminal,
    Launcher,
}

/// The abstract value of a key combination.
#[verifier::ext_equal]
pub struct KeyComboView {
    pub prefixes: Seq<SpecialKey>,
    pub key: Key,
}

/// A key combination: modifier prefixes and one base key.
#[derive(Debug, Clone)]
pub struct KeyCombo {
    pub prefixes: Vec<SpecialKey>,
    pub key: Key,
}

impl View for KeyCombo {
    type V = KeyComboView;

    open spec fn view(&self) -> KeyComboView {
        KeyComboView { prefixes: self.prefixes@, key: self.key }
    }
}

/// The abstract value of a settable value.
#[verifier::ext_equal]
pub enum ValueView {
    Num(usize),
    Key(SpecialKey),
    Str(Seq<char>),
}

/// A value on the right of a `Set` statement.
#[derive(Debug, Clone)]
pub enum Value {
    Num(usize),
    Key(SpecialKey),
    String(String),
}

impl View for Value {
    type V = ValueView;

    open spec fn view(&self) -> ValueView {
        match self {
            Value::Num(n) => ValueView::Num(*n),
            Value::Key(k) => ValueView::Key(*k),
            Value::String(s) => ValueView::Str(s@),
        }
    }
}

/// The abstract value of a statement.
#[verifier::ext_equal]
pub enum StatementView {
    SetVar { var: Variable, value: ValueView },
    Do { action: Action, on: KeyComboView },
}

/// One configuration statement.
#[derive(Debug, Clone)]
pub enum Statement {
    SetVar { var: Variable, value: Value },
    Do { action: Action, on: KeyCombo },
}

impl View for Statement {
    type V = StatementView;

    open spec fn view(&self) -> StatementView {
        match self {
            Statement::SetVar { var, value } => StatementView::SetVar { var: *var, value: value@ },
            Statement::Do { action, on } => StatementView::Do { action: *action, on: on@ },
        }
    }
}

/// The abstract value of a token.
pub enum TokenView {
    Char(char),
    Number(usize),
    Word(Seq<char>),
    Do,
    SetKw,
    On,
    MasterKey,
    Gap,
    Shift,
    Super,
    Space,
    Control,
    Alt,
    Return,
    Tab,
    Escape,
    FocusLeft,
    FocusRight,
    MoveLeft,
    MoveRight,
    Launcher,
    Terminal,
    CloseWindow,
    NextWs,
    PrevWs,
    Hyphen,
}

/// A lexical token: a keyword, a single character key, a number, a stray
/// word, or a hyphen.
#[derive(Debug, PartialEq, Eq)]
pub enum Token {
    Char(char),
    Number(usize),
    Word(String),
    Do,
    SetKw,
    On,
    MasterKey,
    Gap,
    Shift,
    Super,
    Space,
    Control,
    Alt,
    Return,
    Tab,
    Escape,
    FocusLeft,
    FocusRight,
    MoveLeft,
    MoveRight,
    Launcher,
    Terminal,
    CloseWindow,
    NextWs,
    PrevWs,
    Hyphen,
}

impl View for Token {
    type V = TokenView;

    open spec fn view(&self) -> TokenView {
        match self {
            Token::Char(c) => TokenView::Char(*c),
            Token::Number(n) => TokenView::Number(*n),
            Token::Word(w) => TokenView::Word(w@),
            Token::Do => TokenView::Do,
            Token::SetKw => TokenView::SetKw,
            Token::On => TokenView::On,
            Token::MasterKey => TokenView::MasterKey,
            Token::Gap => TokenView::Gap,
            Token::Shift => TokenView::Shift,
            Token::Super => TokenView::Super,
            Token::Space => TokenView::Space,
            Token::Control => TokenView::Control,
            Token::Alt => TokenView::Alt,
            Token::Return => TokenView::Return,
            Token::Tab => TokenView::Tab,
            Token::Escape => TokenView::Escape,
            Token::FocusLeft => TokenView::FocusLeft,
            Token::FocusRight => TokenView::FocusRight,
            Token::MoveLeft => TokenView::MoveLeft,
            Token::MoveRight => TokenView::MoveRight,
            Token::Launcher => TokenView::Launcher,
            Token::Terminal => TokenView::Terminal,
            Token::CloseWindow => TokenView::CloseWindow,
            Token::NextWs => TokenView::NextWs,
            Token::PrevWs => TokenView::PrevWs,
            Token::Hyphen => TokenView::Hyphen,
        }
    }
}

/// Whether `c` counts as white space: the Unicode white-space characters.
pub open spec fn spec_is_space(c: char) -> bool {
    c == ' ' || c == '\t' || c == '\n' || c == '\r' || c == '\u{b}' || c == '\u{c}' || c
        == '\u{85}' || c == '\u{a0}' || c == '\u{1680}' || ('\u{2000}' <= c && c <= '\u{200a}')
        || c == '\u{2028}' || c == '\u{2029}' || c == '\u{202f}' || c == '\u{205f}' || c
        == '\u{3000}'
}

/// Whether `c` is an ASCII letter.
pub open spec fn spec_is_alpha(c: char) -> bool {
    ('a' <= c && c <= 'z') || ('A' <= c && c <= 'Z')
}

/// Whether `c` is an ASCII decimal digit.
pub open spec fn spec_is_digit(c: char) -> bool {
    '0' <= c && c <= '9'
}

/// Whether `c` is an ASCII lower-case letter.
pub open spec fn spec_is_lower(c: char) -> bool {
    'a' <= c && c <= 'z'
}

/// The end of the word starting at `pos`, or nothing when the word runs
/// to the very end of the text (a word must be closed by some following
/// character).
pub open spec fn spec_word_end(s: Seq<char>, pos: int) -> Option<int>
    decreases s.len() - pos,
{
    if pos < 0 || pos >= s.len() {
        None
    } else if spec_is_alpha(s[pos]) || s[pos] == '_' {
        spec_word_end(s, pos + 1)
    } else {
        Some(pos)
    }
}

/// The end of the digit run starting at `pos`.
pub open spec fn spec_num_end(s: Seq<char>, pos: int) -> int
    decreases s.len() - pos,
{
    if pos < 0 || pos >= s.len() {
        s.len() as int
    } else if spec_is_digit(s[pos]) {
        spec_num_end(s, pos + 1)
    } else {
        pos
    }
}

/// The index of the first newline at or after `pos`, or the length.
pub open spec fn spec_newline_at(s: Seq<char>, pos: int) -> int
    decreases s.len() - pos,
{
    if pos < 0 || pos >= s.len() {
        s.len() as int
    } else if s[pos] == '\n' {
        pos
    } else {
        spec_newline_at(s, pos + 1)
    }
}

/// The value of a digit run read in base ten.
pub open spec fn spec_digits_val(s: Seq<char>) -> int
    decreases s.len(),
{
    if s.len() == 0 {
        0
    } else {
        spec_digits_val(s.drop_last()) * 10 + (s.last() as int - '0' as int)
    }
}

/// The token a completed word denotes: a keyword, a single lower-case
/// letter or digit as a character key, or a stray word.
pub open spec fn spec_word_token(w: Seq<char>) -> TokenView {
    if w == seq!['D', 'o'] {
        TokenView::Do
    } else if w == seq!['S', 'e', 't'] {
        TokenView::SetKw
    } else if w == seq!['o', 'n'] {
        TokenView::On
    } else if w == seq!['M', 'a', 's', 't', 'e', 'r', 'K', 'e', 'y'] {
        TokenView::MasterKey
    } else if w == seq!['G', 'a', 'p'] {
        TokenView::Gap
    } else if w == seq!['A', 'l', 't'] {
        TokenView::Alt
    } else if w == seq!['C', 'o', 'n', 't', 'r', 'o', 'l'] {
        TokenView::Control
    } else if w == seq!['S', 'h', 'i', 'f', 't'] {
        TokenView::Shift
    } else if w == seq!['S', 'p', 'a', 'c', 'e'] {
        TokenView::Space
    } else if w == seq!['R', 'e', 't', 'u', 'r', 'n'] {
        TokenView::Return
    } else if w == seq!['E', 's', 'c', 'a', 'p', 'e'] {
        TokenView::Escape
    } else if w == seq!['S', 'u', 'p', 'e', 'r'] {
        TokenView::Super
    } else if w == seq!['T', 'a', 'b'] {
        TokenView::Tab
    } else if w == seq!['F', 'o', 'c', 'u', 's', 'L', 'e', 'f', 't'] {
        TokenView::FocusLeft
    } else if w == seq!['F', 'o', 'c', 'u', 's', 'R', 'i', 'g', 'h', 't'] {
        TokenView::FocusRight
    } else if w == seq!['M', 'o', 'v', 'e', 'L', 'e', 'f', 't'] {
        TokenView::MoveLeft
    } else if w == seq!['M', 'o', 'v', 'e', 'R', 'i', 'g', 'h', 't'] {
        TokenView::MoveRight
    } else if w == seq!['L', 'a', 'u', 'n', 'c', 'h', 'e', 'r'] {
        TokenView::Launcher
    } else if w == seq!['T', 'e', 'r', 'm', 'i', 'n', 'a', 'l'] {
        TokenView::Terminal
    } else if w == seq!['C', 'l', 'o', 's', 'e', 'W', 'i', 'n', 'd', 'o', 'w'] {
        TokenView::CloseWindow
    } else if w == seq!['P', 'r', 'e', 'v', 'W', 's'] {
        TokenView::PrevWs
    } else if w == seq!['N', 'e', 'x', 't', 'W', 's'] {
        TokenView::NextWs
    } else if w.len() == 1 && (spec_is_lower(w[0]) || spec_is_digit(w[0])) {
        TokenView::Char(w[0])
    } else {
        TokenView::Word(w)
    }
}

/// The tokens of the text from position `pos` on, or nothing where the
/// scan would fail: a word running to the very end of the text, a number
/// too large for the machine, or a character outside the language.
pub open spec fn spec_lex_from(s: Seq<char>, pos: int) -> Option<Seq<TokenView>>
    decreases s.len() - pos,
    via spec_lex_from_dec
{
    if pos < 0 {
        None
    } else if pos >= s.len() {
        Some(Seq::empty())
    } else {
        let c = s[pos];
        if spec_is_space(c) {
            spec_lex_from(s, pos + 1)
        } else if spec_is_alpha(c) || c == '_' {
            match spec_word_end(s, pos) {
                None => None,
                Some(e) => match spec_lex_from(s, e) {
                    None => None,
                    Some(rest) => Some(seq![spec_word_token(s.subrange(pos, e))] + rest),
                },
            }
        } else if spec_is_digit(c) {
            let e = spec_num_end(s, pos);
            if spec_digits_val(s.subrange(pos, e)) > usize::MAX {
                None
            } else {
                match spec_lex_from(s, e) {
                    None => None,
                    Some(rest) => Some(
                        seq![
                            TokenView::Number(spec_digits_val(s.subrange(pos, e)) as usize),
                        ] + rest,
                    ),
                }
            }
        } else if c == '-' {
            match spec_lex_from(s, pos + 1) {
                None => None,
                Some(rest) => Some(seq![TokenView::Hyphen] + rest),
            }
        } else if c == '*' {
            let e = spec_newline_at(s, pos);
            if e + 1 >= s.len() {
                Some(Seq::empty())
            } else {
                spec_lex_from(s, e + 1)
            }
        } else {
            None
        }
    }
}

/// The word scan never stops before its start, and stays within the text.
pub proof fn lemma_word_end_bounds(s: Seq<char>, pos: int)
    requires
        0 <= pos <= s.len(),
    ensures
        spec_word_end(s, pos) matches Some(e) ==> pos <= e <= s.len(),
    decreases s.len() - pos,
{
    if pos < s.len() {
        if spec_is_alpha(s[pos]) || s[pos] == '_' {
            lemma_word_end_bounds(s, pos + 1);
        }
    }
}

/// The number scan never stops before its start, and stays within the
/// text.
pub proof fn lemma_num_end_bounds(s: Seq<char>, pos: int)
    requires
        0 <= pos <= s.len(),
    ensures
        pos <= spec_num_end(s, pos) <= s.len(),
        pos < s.len() && spec_is_digit(s[pos]) ==> pos < spec_num_end(s, pos),
    decreases s.len() - pos,
{
    if pos < s.len() && spec_is_digit(s[pos]) {
        lemma_num_end_bounds(s, pos + 1);
    }
}

/// Every character before the end of a digit run is a digit.
pub proof fn lemma_num_end_digits(s: Seq<char>, pos: int)
    requires
        0 <= pos <= s.len(),
    ensures
        forall|k: int| pos <= k < spec_num_end(s, pos) ==> spec_is_digit(#[trigger] s[k]),
    decreases s.len() - pos,
{
    if pos < s.len() && spec_is_digit(s[pos]) {
        lemma_num_end_digits(s, pos + 1);
        lemma_num_end_bounds(s, pos + 1);
    }
}

/// The newline scan stays within the text and never moves backwards.
pub proof fn lemma_newline_at_bounds(s: Seq<char>, pos: int)
    requires
        0 <= pos <= s.len(),
    ensures
        pos <= spec_newline_at(s, pos) <= s.len(),
    decreases s.len() - pos,
{
    if pos < s.len() && s[pos] != '\n' {
        lemma_newline_at_bounds(s, pos + 1);
    }
}

#[via_fn]
proof fn spec_lex_from_dec(s: Seq<char>, pos: int) {
    if 0 <= pos && pos < s.len() {
        if spec_is_alpha(s[pos]) || s[pos] == '_' {
            lemma_word_end_bounds(s, pos + 1);
        }
        lemma_num_end_bounds(s, pos);
        lemma_newline_at_bounds(s, pos);
    }
}

/// Relies on String::push: appends one character at the end.
#[verifier::external_body]
fn push_char(s: &mut String, c: char)
    ensures
        final(s)@ == old(s)@.push(c),
{
    s.push(c);
}

/// A digit run never has a negative value.
proof fn lemma_digits_val_nonneg(s: Seq<char>)
    requires
        forall|i: int| 0 <= i < s.len() ==> spec_is_digit(#[trigger] s[i]),
    ensures
        spec_digits_val(s) >= 0,
    decreases s.len(),
{
    if s.len() > 0 {
        lemma_digits_val_nonneg(s.drop_last());
    }
}

/// Reading more digits never shrinks the value.
proof fn lemma_digits_prefix_le(s: Seq<char>, p: int, i: int, e: int)
    requires
        0 <= p <= i <= e <= s.len(),
        forall|k: int| p <= k < e ==> spec_is_digit(#[trigger] s[k]),
    ensures
        spec_digits_val(s.subrange(p, i)) <= spec_digits_val(s.subrange(p, e)),
    decreases e - i,
{
    if i < e {
        lemma_digits_prefix_le(s, p, i + 1, e);
        assert(s.subrange(p, i + 1).drop_last() =~= s.subrange(p, i));
        assert(forall|k: int|
            0 <= k < i + 1 - p ==> spec_is_digit(#[trigger] s.subrange(p, i + 1)[k]));
        lemma_digits_val_nonneg(s.subrange(p, i));
    }
}

/// Whether `c` is an ASCII white-space character (the only white space an
/// ASCII text can hold).
fn is_space_char(c: char) -> (r: bool)
    requires
        c <= '\u{7f}',
    ensures
        r == spec_is_space(c),
{
    c == ' ' || c == '\t' || c == '\n' || c == '\r' || c == '\u{b}' || c == '\u{c}'
}

/// Reads a word token: the keyword it matches, a single lower-case letter
/// or digit as a character key, or the stray word itself.
fn word_token(chars: &Vec<char>, start: usize, end: usize) -> (r: Token)
    requires
        start <= end <= chars@.len(),
    ensures
        r@ == spec_word_token(chars@.subrange(start as int, end as int)),
{
    let ghost part = chars@.subrange(start as int, end as int);
    let mut w = String::new();
    let mut i: usize = start;
    while i < end
        invariant
            start <= i <= end <= chars@.len(),
            w@ == chars@.subrange(start as int, i as int),
        decreases end - i,
    {
        push_char(&mut w, chars[i]);
        proof {
            assert(chars@.subrange(start as int, i + 1) =~= chars@.subrange(
                start as int,
                i as int,
            ).push(chars@[i as int]));
        }
        i += 1;
    }
    assert(w@ == part);
    proof {
        reveal_strlit("Do");
        reveal_strlit("Set");
        reveal_strlit("on");
        reveal_strlit("MasterKey");
        reveal_strlit("Gap");
        reveal_strlit("Alt");
        reveal_strlit("Control");
        reveal_strlit("Shift");
        reveal_strlit("Space");
        reveal_strlit("Return");
        reveal_strlit("Escape");
        reveal_strlit("Super");
        reveal_strlit("Tab");
        reveal_strlit("FocusLeft");
        reveal_strlit("FocusRight");
        reveal_strlit("MoveLeft");
        reveal_strlit("MoveRight");
        reveal_strlit("Launcher");
        reveal_strlit("Terminal");
        reveal_strlit("CloseWindow");
        reveal_strlit("PrevWs");
        reveal_strlit("NextWs");
        assert("Do"@ =~= seq!['D', 'o']);
        assert("Set"@ =~= seq!['S', 'e', 't']);
        assert("on"@ =~= seq!['o', 'n']);
        assert("MasterKey"@ =~= seq!['M', 'a', 's', 't', 'e', 'r', 'K', 'e', 'y']);
        assert("Gap"@ =~= seq!['G', 'a', 'p']);
        assert("Alt"@ =~= seq!['A', 'l', 't']);
        assert("Control"@ =~= seq!['C', 'o', 'n', 't', 'r', 'o', 'l']);
        assert("Shift"@ =~= seq!['S', 'h', 'i', 'f', 't']);
        assert("Space"@ =~= seq!['S', 'p', 'a', 'c', 'e']);
        assert("Return"@ =~= seq!['R', 'e', 't', 'u', 'r', 'n']);
        assert("Escape"@ =~= seq!['E', 's', 'c', 'a', 'p', 'e']);
        assert("Super"@ =~= seq!['S', 'u', 'p', 'e', 'r']);
        assert("Tab"@ =~= seq!['T', 'a', 'b']);
        assert("FocusLeft"@ =~= seq!['F', 'o', 'c', 'u', 's', 'L', 'e', 'f', 't']);
        assert("FocusRight"@ =~= seq!['F', 'o', 'c', 'u', 's', 'R', 'i', 'g', 'h', 't']);
        assert("MoveLeft"@ =~= seq!['M', 'o', 'v', 'e', 'L', 'e', 'f', 't']);
        assert("MoveRight"@ =~= seq!['M', 'o', 'v', 'e', 'R', 'i', 'g', 'h', 't']);
        assert("Launcher"@ =~= seq!['L', 'a', 'u', 'n', 'c', 'h', 'e', 'r']);
        assert("Terminal"@ =~= seq!['T', 'e', 'r', 'm', 'i', 'n', 'a', 'l']);
        assert("CloseWindow"@ =~= seq!['C', 'l', 'o', 's', 'e', 'W', 'i', 'n', 'd', 'o', 'w']);
        assert("PrevWs"@ =~= seq!['P', 'r', 'e', 'v', 'W', 's']);
        assert("NextWs"@ =~= seq!['N', 'e', 'x', 't', 'W', 's']);
    }
    if w == String::from_str("Do") {
        Token::Do
    } else if w == String::from_str("Set") {
        Token::SetKw
    } else if w == String::from_str("on") {
        Token::On
    } else if w == String::from_str("MasterKey") {
        Token::MasterKey
    } else if w == String::from_str("Gap") {
        Token::Gap
    } else if w == String::from_str("Alt") {
        Token::Alt
    } else if w == String::from_str("Control") {
        Token::Control
    } else if w == String::from_str("Shift") {
        Token::Shift
    } else if w == String::from_str("Space") {
        Token::Space
    } else if w == String::from_str("Return") {
        Token::Return
    } else if w == String::from_str("Escape") {
        Token::Escape
    } else if w == String::from_str("Super") {
        Token::Super
    } else if w == String::from_str("Tab") {
        Token::Tab
    } else if w == String::from_str("FocusLeft") {
        Token::FocusLeft
    } else if w == String::from_str("FocusRight") {
        Token::FocusRight
    } else if w == String::from_str("MoveLeft") {
        Token::MoveLeft
    } else if w == String::from_str("MoveRight") {
        Token::MoveRight
    } else if w == String::from_str("Launcher") {
        Token::Launcher
    } else if w == String::from_str("Terminal") {
        Token::Terminal
    } else if w == String::from_str("CloseWindow") {
        Token::CloseWindow
    } else if w == String::from_str("PrevWs") {
        Token::PrevWs
    } else if w == String::from_str("NextWs") {
        Token::NextWs
    } else if end - start == 1 && {
        let c = chars[start];
        ('a' <= c && c <= 'z') || ('0' <= c && c <= '9')
    } {
        Token::Char(chars[start])
    } else {
        Token::Word(w)
    }
}

/// Whether the character at `i` may continue a word.
fn is_word_char_at(chars: &Vec<char>, i: usize) -> (r: bool)
    requires
        i < chars@.len(),
    ensures
        r == (spec_is_alpha(chars@[i as int]) || chars@[i as int] == '_'),
{
    let d = chars[i];
    ('a' <= d && d <= 'z') || ('A' <= d && d <= 'Z') || d == '_'
}

/// Whether the character at `i` is a decimal digit.
fn is_digit_at(chars: &Vec<char>, i: usize) -> (r: bool)
    requires
        i < chars@.len(),
    ensures
        r == spec_is_digit(chars@[i as int]),
{
    let d = chars[i];
    '0' <= d && d <= '9'
}

/// The lexer: a cursor over the input text.
#[derive(Debug, Clone)]
pub struct Lexer {
    input: String,
    pos: usize,
}

impl Lexer {
    /// A lexer at the start of `s`.
    pub fn new(s: String) -> (r: Lexer)
        ensures
            r.spec_input() == s@,
            r.spec_pos() == 0,
    {
        Lexer { input: s, pos: 0 }
    }

    /// The text being scanned.
    pub closed spec fn spec_input(&self) -> Seq<char> {
        self.input@
    }

    /// The cursor position, in characters.
    pub closed spec fn spec_pos(&self) -> int {
        self.pos as int
    }

    /// Whether the cursor is at or past the end of the text.
    pub fn done(&self) -> (r: bool)
        ensures
            r == (self.spec_pos() >= self.spec_input().len()),
    {
        self.input.unicode_len() <= self.pos
    }

    /// The character under the cursor, if the cursor is inside the text.
    pub fn peek(&self) -> (r: Option<char>)
        ensures
            r == if self.spec_pos() < self.spec_input().len() {
                Some(self.spec_input()[self.spec_pos()])
            } else {
                None::<char>
            },
    {
        if self.pos < self.input.unicode_len() {
            Some(self.input.as_str().get_char(self.pos))
        } else {
            None
        }
    }

    /// Reads the character under the cursor and advances past it.
    pub fn eat(&mut self) -> (r: Option<char>)
        requires
            old(self).spec_pos() < usize::MAX,
        ensures
            final(self).spec_input() == old(self).spec_input(),
            final(self).spec_pos() == old(self).spec_pos() + 1,
            r == if old(self).spec_pos() < old(self).spec_input().len() {
                Some(old(self).spec_input()[old(self).spec_pos()])
            } else {
                None::<char>
            },
    {
        let r = self.peek();
        self.pos = self.pos + 1;
        r
    }

    /// Scans the whole text into tokens. The text must be ASCII and inside
    /// the language: a word may not run to the very end of the text, a
    /// number must fit the machine, and every character must open a word,
    /// a number, a comment, a hyphen or white space.
    pub fn run(self) -> (r: Vec<Token>)
        requires
            vstd::utf8::is_ascii_chars(self.spec_input()),
            spec_lex_from(self.spec_input(), self.spec_pos()) is Some,
        ensures
            r@.map_values(|t: Token| t@) == spec_lex_from(
                self.spec_input(),
                self.spec_pos(),
            )->Some_0,
    {
        let ghost s = self.input@;
        let chars = crate::cfg::chars_of(self.input.as_str());
        let n = chars.len();
        let mut ts: Vec<Token> = Vec::new();
        let mut pos: usize = self.pos;
        let ghost target = spec_lex_from(s, self.pos as int)->Some_0;
        if pos > n {
            proof {
                assert(ts@.map_values(|t: Token| t@) =~= target);
            }
            return ts;
        }
        while pos < n
            invariant
                pos <= n,
                n == chars@.len(),
                chars@ == s,
                s == self.spec_input(),
                spec_lex_from(s, self.spec_pos()) is Some,
                target == spec_lex_from(s, self.spec_pos())->Some_0,
                forall|k: int| 0 <= k < s.len() ==> (#[trigger] s[k]) <= '\u{7f}',
                spec_lex_from(s, pos as int) is Some,
                target =~= ts@.map_values(|t: Token| t@) + spec_lex_from(s, pos as int)->Some_0,
            decreases n - pos,
        {
            let c = chars[pos];
            assert(c <= '\u{7f}');
            if is_space_char(c) {
                pos += 1;
            } else if ('a' <= c && c <= 'z') || ('A' <= c && c <= 'Z') || c == '_' {
                // A word: scan to its end, which must lie inside the text.
                let mut e: usize = pos;
                while e < n && is_word_char_at(&chars, e)
                    invariant
                        pos <= e <= n,
                        n == chars@.len(),
                        chars@ == s,
                        spec_word_end(s, pos as int) == spec_word_end(s, e as int),
                    decreases n - e,
                {
                    e += 1;
                }
                if e >= n {
                    proof {
                        assert(spec_word_end(s, pos as int) is None);
                        assert(false);
                    }
                    return ts;
                }
                assert(spec_word_end(s, pos as int) == Some(e as int));
                let ghost before = ts@.map_values(|t: Token| t@);
                let tok = word_token(&chars, pos, e);
                ts.push(tok);
                proof {
                    assert(ts@.map_values(|t: Token| t@) =~= before.push(tok@));
                    assert(target =~= ts@.map_values(|t: Token| t@) + spec_lex_from(
                        s,
                        e as int,
                    )->Some_0);
                }
                pos = e;
            } else if '0' <= c && c <= '9' {
                // A number: scan the digit run and accumulate its value.
                let ghost ge = spec_num_end(s, pos as int);
                proof {
                    lemma_num_end_bounds(s, pos as int);
                    lemma_num_end_digits(s, pos as int);
                    assert(spec_digits_val(s.subrange(pos as int, ge)) <= usize::MAX);
                }
                let mut e: usize = pos;
                let mut val: usize = 0;
                while e < n && is_digit_at(&chars, e)
                    invariant
                        pos <= e <= n,
                        n == chars@.len(),
                        chars@ == s,
                        ge == spec_num_end(s, pos as int),
                        spec_num_end(s, e as int) == ge,
                        e <= ge <= n,
                        forall|k: int| pos <= k < e ==> spec_is_digit(#[trigger] s[k]),
                        forall|k: int| pos <= k < ge ==> spec_is_digit(#[trigger] s[k]),
                        spec_digits_val(s.subrange(pos as int, ge)) <= usize::MAX,
                        val == spec_digits_val(s.subrange(pos as int, e as int)),
                    decreases n - e,
                {
                    let d = chars[e];
                    proof {
                        lemma_num_end_bounds(s, e + 1);
                        assert(spec_num_end(s, e as int) == spec_num_end(s, e + 1));
                        lemma_digits_val_nonneg(s.subrange(pos as int, e as int));
                        lemma_digits_prefix_le(s, pos as int, e + 1, ge);
                        assert(s.subrange(pos as int, e + 1).drop_last() =~= s.subrange(
                            pos as int,
                            e as int,
                        ));
                    }
                    val = val * 10 + (d as u32 - '0' as u32) as usize;
                    e += 1;
                }
                proof {
                    assert(e as int == ge);
                    assert(s.subrange(pos as int, e as int) =~= s.subrange(pos as int, ge));
                }
                let ghost before = ts@.map_values(|t: Token| t@);
                ts.push(Token::Number(val));
                proof {
                    assert(ts@.map_values(|t: Token| t@) =~= before.push(TokenView::Number(val)));
                    assert(target =~= ts@.map_values(|t: Token| t@) + spec_lex_from(
                        s,
                        e as int,
                    )->Some_0);
                }
                pos = e;
            } else if c == '-' {
                let ghost before = ts@.map_values(|t: Token| t@);
                ts.push(Token::Hyphen);
                proof {
                    assert(ts@.map_values(|t: Token| t@) =~= before.push(TokenView::Hyphen));
                    assert(target =~= ts@.map_values(|t: Token| t@) + spec_lex_from(
                        s,
                        pos + 1,
                    )->Some_0);
                }
                pos += 1;
            } else if c == '*' {
                // A comment: skip to the end of the line.
                let mut e: usize = pos;
                while e < n && chars[e] != '\n'
                    invariant
                        pos <= e <= n,
                        n == chars@.len(),
                        chars@ == s,
                        spec_newline_at(s, pos as int) == spec_newline_at(s, e as int),
                    decreases n - e,
                {
                    e += 1;
                }
                assert(spec_newline_at(s, pos as int) == e as int);
                if e >= n - 1 {
                    proof {
                        assert(spec_lex_from(s, pos as int)->Some_0 =~= Seq::<
                            TokenView,
                        >::empty());
                        assert(target =~= ts@.map_values(|t: Token| t@));
                    }
                    return ts;
                }
                pos = e + 1;
            } else {
                proof {
                    assert(spec_lex_from(s, pos as int) is None);
                    assert(false);
                }
                return ts;
            }
        }
        proof {
            assert(spec_lex_from(s, pos as int)->Some_0 =~= Seq::<TokenView>::empty());
            assert(target =~= ts@.map_values(|t: Token| t@));
        }
        ts
    }
}

/// What parsing a statement list comes to: a list, a syntax error, or a
/// value in a position the parser cannot handle (where it would abort the
/// process).
pub enum StmtsOutcome {
    Stmts(Seq<StatementView>),
    Failed,
    Panics,
}

/// What parsing one statement comes to.
pub enum StmtOutcome {
    Stmt(StatementView, int),
    Failed,
    Panics,
}

/// What reading one settable value comes to; the parser aborts on a token
/// that cannot start a value.
pub enum ValueOutcome {
    Val(ValueView, int),
    Panics,
}

/// The action named by the token at `pos`, with the next position.
pub open spec fn spec_expect_action(ts: Seq<TokenView>, pos: int) -> Option<(Action, int)> {
    if 0 <= pos < ts.len() {
        match ts[pos] {
            TokenView::FocusLeft => Some((Action::FocusLeft, pos + 1)),
            TokenView::FocusRight => Some((Action::FocusRight, pos + 1)),
            TokenView::MoveLeft => Some((Action::MoveLeft, pos + 1)),
            TokenView::MoveRight => Some((Action::MoveRight, pos + 1)),
            TokenView::Launcher => Some((Action::Launcher, pos + 1)),
            TokenView::Terminal => Some((Action::Terminal, pos + 1)),
            TokenView::CloseWindow => Some((Action::CloseWindow, pos + 1)),
            TokenView::NextWs => Some((Action::NextWs, pos + 1)),
            TokenView::PrevWs => Some((Action::PrevWs, pos + 1)),
            _ => None,
        }
    } else {
        None
    }
}

/// The position after the `on` keyword at `pos`, if it is there.
pub open spec fn spec_expect_on(ts: Seq<TokenView>, pos: int) -> Option<int> {
    if 0 <= pos < ts.len() && ts[pos] == TokenView::On {
        Some(pos + 1)
    } else {
        None
    }
}

/// The variable named by the token at `pos`, with the next position.
pub open spec fn spec_expect_var(ts: Seq<TokenView>, pos: int) -> Option<(Variable, int)> {
    if 0 <= pos < ts.len() {
        match ts[pos] {
            TokenView::Gap => Some((Variable::Gap, pos + 1)),
            TokenView::MasterKey => Some((Variable::MasterKey, pos + 1)),
            TokenView::Launcher => Some((Variable::Launcher, pos + 1)),
            TokenView::Terminal => Some((Variable::Terminal, pos + 1)),
            _ => None,
        }
    } else {
        None
    }
}

/// The modifier named by the token at `pos`, if it is one; not a failure
/// when absent (the modifier list just ends).
pub open spec fn spec_expect_mod(ts: Seq<TokenView>, pos: int) -> Option<(SpecialKey, int)> {
    if 0 <= pos < ts.len() {
        match ts[pos] {
            TokenView::Alt => Some((SpecialKey::Alt, pos + 1)),
            TokenView::Super => Some((SpecialKey::Super, pos + 1)),
            TokenView::Shift => Some((SpecialKey::Shift, pos + 1)),
            TokenView::Control => Some((SpecialKey::Control, pos + 1)),
            _ => None,
        }
    } else {
        None
    }
}

/// The position after the hyphen at `pos`, if it is there.
pub open spec fn spec_expect_dash(ts: Seq<TokenView>, pos: int) -> Option<int> {
    if 0 <= pos < ts.len() && ts[pos] == TokenView::Hyphen {
        Some(pos + 1)
    } else {
        None
    }
}

/// The character of a decimal digit value.
pub open spec fn spec_digit_char(d: int) -> char {
    if d == 0 {
        '0'
    } else if d == 1 {
        '1'
    } else if d == 2 {
        '2'
    } else if d == 3 {
        '3'
    } else if d == 4 {
        '4'
    } else if d == 5 {
        '5'
    } else if d == 6 {
        '6'
    } else if d == 7 {
        '7'
    } else if d == 8 {
        '8'
    } else {
        '9'
    }
}

/// The first decimal digit of a number.
pub open spec fn spec_first_dec(n: int) -> int
    decreases n,
{
    if n < 10 {
        n
    } else {
        spec_first_dec(n / 10)
    }
}

/// The base key named by the token at `pos`: a named key, an ASCII
/// character (one whose text is a single byte), or a number standing for
/// its first digit when it fits an unsigned 32-bit parse.
pub open spec fn spec_expect_key(ts: Seq<TokenView>, pos: int) -> Option<(Key, int)> {
    if 0 <= pos < ts.len() {
        match ts[pos] {
            TokenView::Char(c) => if c <= '\u{7f}' {
                Some((Key::Char(c), pos + 1))
            } else {
                None
            },
            TokenView::Space => Some((Key::Space, pos + 1)),
            TokenView::Escape => Some((Key::Escape, pos + 1)),
            TokenView::Return => Some((Key::Return, pos + 1)),
            TokenView::Number(n) => if n <= u32::MAX {
                Some((Key::Char(spec_digit_char(spec_first_dec(n as int))), pos + 1))
            } else {
                None
            },
            _ => None,
        }
    } else {
        None
    }
}

/// The key combination read from `pos` on: modifiers each followed by a
/// hyphen, then a base key.
pub open spec fn spec_expect_combo(ts: Seq<TokenView>, pos: int) -> Option<(KeyComboView, int)>
    decreases ts.len() - pos,
{
    match spec_expect_mod(ts, pos) {
        None => match spec_expect_key(ts, pos) {
            Some((k, p)) => Some((KeyComboView { prefixes: Seq::empty(), key: k }, p)),
            None => None,
        },
        Some((m, p1)) => match spec_expect_dash(ts, p1) {
            None => None,
            Some(p2) => if p2 <= pos || p2 > ts.len() {
                None
            } else {
                match spec_expect_combo(ts, p2) {
                    Some((cb, p3)) => Some(
                        (KeyComboView { prefixes: seq![m] + cb.prefixes, key: cb.key }, p3),
                    ),
                    None => None,
                }
            },
        },
    }
}

/// The settable value read at `pos`; a token that cannot start a value
/// aborts the parser.
pub open spec fn spec_expect_value(ts: Seq<TokenView>, pos: int) -> ValueOutcome {
    if 0 <= pos < ts.len() {
        match ts[pos] {
            TokenView::Number(n) => ValueOutcome::Val(ValueView::Num(n), pos + 1),
            TokenView::Shift => ValueOutcome::Val(ValueView::Key(SpecialKey::Shift), pos + 1),
            TokenView::Super => ValueOutcome::Val(ValueView::Key(SpecialKey::Super), pos + 1),
            TokenView::Alt => ValueOutcome::Val(ValueView::Key(SpecialKey::Alt), pos + 1),
            TokenView::Control => ValueOutcome::Val(
                ValueView::Key(SpecialKey::Control),
                pos + 1,
            ),
            TokenView::Word(w) => ValueOutcome::Val(ValueView::Str(w), pos + 1),
            _ => ValueOutcome::Panics,
        }
    } else {
        ValueOutcome::Panics
    }
}

/// The statement read at `pos`: `Do <action> on <combo>` or
/// `Set <variable> <value>`.
pub open spec fn spec_parse_stmt(ts: Seq<TokenView>, pos: int) -> StmtOutcome {
    if 0 <= pos < ts.len() {
        match ts[pos] {
            TokenView::Do => match spec_expect_action(ts, pos + 1) {
                None => StmtOutcome::Failed,
                Some((a, p1)) => match spec_expect_on(ts, p1) {
                    None => StmtOutcome::Failed,
                    Some(p2) => match spec_expect_combo(ts, p2) {
                        None => StmtOutcome::Failed,
                        Some((cb, p3)) => StmtOutcome::Stmt(
                            StatementView::Do { action: a, on: cb },
                            p3,
                        ),
                    },
                },
            },
            TokenView::SetKw => match spec_expect_var(ts, pos + 1) {
                None => StmtOutcome::Failed,
                Some((v, p1)) => match spec_expect_value(ts, p1) {
                    ValueOutcome::Panics => StmtOutcome::Panics,
                    ValueOutcome::Val(val, p2) => StmtOutcome::Stmt(
                        StatementView::SetVar { var: v, value: val },
                        p2,
                    ),
                },
            },
            _ => StmtOutcome::Failed,
        }
    } else {
        StmtOutcome::Failed
    }
}

/// A successfully read combination always moves forward and stays within
/// the tokens.
pub proof fn lemma_combo_advances(ts: Seq<TokenView>, pos: int)
    requires
        0 <= pos,
    ensures
        spec_expect_combo(ts, pos) matches Some((cb, p)) ==> pos < p <= ts.len(),
    decreases ts.len() - pos,
{
    match spec_expect_mod(ts, pos) {
        None => {},
        Some((m, p1)) => {
            match spec_expect_dash(ts, p1) {
                None => {},
                Some(p2) => {
                    if pos < p2 <= ts.len() {
                        lemma_combo_advances(ts, p2);
                    }
                },
            }
        },
    }
}

/// A successfully read statement always moves forward and stays within
/// the tokens.
pub proof fn lemma_stmt_advances(ts: Seq<TokenView>, pos: int)
    requires
        0 <= pos,
    ensures
        spec_parse_stmt(ts, pos) matches StmtOutcome::Stmt(st, p) ==> pos < p <= ts.len(),
{
    if 0 <= pos && pos < ts.len() {
        match ts[pos] {
            TokenView::Do => {
                match spec_expect_action(ts, pos + 1) {
                    None => {},
                    Some((a, p1)) => {
                        match spec_expect_on(ts, p1) {
                            None => {},
                            Some(p2) => {
                                lemma_combo_advances(ts, p2);
                            },
                        }
                    },
                }
            },
            _ => {},
        }
    }
}

/// The statement list read from `pos` to the end of the tokens.
pub open spec fn spec_parse_stmts(ts: Seq<TokenView>, pos: int) -> StmtsOutcome
    decreases ts.len() - pos,
    via spec_parse_stmts_dec
{
    if pos < 0 {
        StmtsOutcome::Failed
    } else if pos >= ts.len() {
        StmtsOutcome::Stmts(Seq::empty())
    } else {
        match spec_parse_stmt(ts, pos) {
            StmtOutcome::Failed => StmtsOutcome::Failed,
            StmtOutcome::Panics => StmtsOutcome::Panics,
            StmtOutcome::Stmt(st, p) => match spec_parse_stmts(ts, p) {
                StmtsOutcome::Stmts(rest) => StmtsOutcome::Stmts(seq![st] + rest),
                StmtsOutcome::Failed => StmtsOutcome::Failed,
                StmtsOutcome::Panics => StmtsOutcome::Panics,
            },
        }
    }
}

#[via_fn]
proof fn spec_parse_stmts_dec(ts: Seq<TokenView>, pos: int) {
    if 0 <= pos && pos < ts.len() {
        lemma_stmt_advances(ts, pos);
    }
}

impl Clone for Token {
    /// An identical token.
    fn clone(&self) -> (r: Token)
        ensures
            r == *self,
    {
        match self {
            Token::Char(c) => Token::Char(*c),
            Token::Number(n) => Token::Number(*n),
            Token::Word(w) => Token::Word(w.clone()),
            Token::Do => Token::Do,
            Token::SetKw => Token::SetKw,
            Token::On => Token::On,
            Token::MasterKey => Token::MasterKey,
            Token::Gap => Token::Gap,
            Token::Shift => Token::Shift,
            Token::Super => Token::Super,
            Token::Space => Token::Space,
            Token::Control => Token::Control,
            Token::Alt => Token::Alt,
            Token::Return => Token::Return,
            Token::Tab => Token::Tab,
            Token::Escape => Token::Escape,
            Token::FocusLeft => Token::FocusLeft,
            Token::FocusRight => Token::FocusRight,
            Token::MoveLeft => Token::MoveLeft,
            Token::MoveRight => Token::MoveRight,
            Token::Launcher => Token::Launcher,
            Token::Terminal => Token::Terminal,
            Token::CloseWindow => Token::CloseWindow,
            Token::NextWs => Token::NextWs,
            Token::PrevWs => Token::PrevWs,
            Token::Hyphen => Token::Hyphen,
        }
    }
}

/// The character of a decimal digit.
fn digit_char(d: usize) -> (r: char)
    requires
        d < 10,
    ensures
        r == spec_digit_char(d as int),
{
    if d == 0 {
        '0'
    } else if d == 1 {
        '1'
    } else if d == 2 {
        '2'
    } else if d == 3 {
        '3'
    } else if d == 4 {
        '4'
    } else if d == 5 {
        '5'
    } else if d == 6 {
        '6'
    } else if d == 7 {
        '7'
    } else if d == 8 {
        '8'
    } else {
        '9'
    }
}

/// The recursive-descent parser: a cursor over the token list.
#[derive(Debug)]
pub struct Parser {
    input: Vec<Token>,
    pos: usize,
}

impl Parser {
    /// The tokens being parsed.
    pub closed spec fn spec_tokens(&self) -> Seq<TokenView> {
        self.input@.map_values(|t: Token| t@)
    }

    /// The cursor position.
    pub closed spec fn spec_pos(&self) -> int {
        self.pos as int
    }

    /// A parser at the start of the tokens.
    pub fn new(input: Vec<Token>) -> (r: Parser)
        ensures
            r.spec_tokens() == input@.map_values(|t: Token| t@),
            r.spec_pos() == 0,
    {
        Parser { input, pos: 0 }
    }

    /// Whether all tokens have been consumed.
    pub fn done(&self) -> (r: bool)
        ensures
            r == (self.spec_pos() >= self.spec_tokens().len()),
    {
        self.pos >= self.input.len()
    }

    /// The token `offset` places ahead of the cursor, if there is one.
    pub fn peek(&self, offset: usize) -> (r: Option<&Token>)
        requires
            self.spec_pos() + offset <= usize::MAX,
        ensures
            match r {
                Some(t) => self.spec_pos() + offset < self.spec_tokens().len() && t@
                    == self.spec_tokens()[self.spec_pos() + offset],
                None => self.spec_pos() + offset >= self.spec_tokens().len(),
            },
    {
        let idx = self.pos + offset;
        if idx < self.input.len() {
            Some(&self.input[idx])
        } else {
            None
        }
    }

    /// Reads the token under the cursor and advances past it; at the end
    /// of the tokens, reads nothing and stays put.
    pub fn eat(&mut self) -> (r: Option<Token>)
        ensures
            final(self).spec_tokens() == old(self).spec_tokens(),
            match r {
                Some(t) => old(self).spec_pos() < old(self).spec_tokens().len() && t@
                    == old(self).spec_tokens()[old(self).spec_pos()] && final(self).spec_pos()
                    == old(self).spec_pos() + 1,
                None => old(self).spec_pos() >= old(self).spec_tokens().len() && final(self).spec_pos() == old(self).spec_pos(),
            },
    {
        if self.pos >= self.input.len() {
            return None;
        }
        let t = self.input[self.pos].clone();
        self.pos = self.pos + 1;
        Some(t)
    }

    /// Reads an action name.
    fn expect_action(&mut self) -> (r: Option<Action>)
        ensures
            final(self).spec_tokens() == old(self).spec_tokens(),
            match spec_expect_action(old(self).spec_tokens(), old(self).spec_pos()) {
                Some((a, p)) => r == Some(a) && final(self).spec_pos() == p,
                None => r is None,
            },
    {
        match self.eat() {
            Some(Token::FocusLeft) => Some(Action::FocusLeft),
            Some(Token::FocusRight) => Some(Action::FocusRight),
            Some(Token::MoveLeft) => Some(Action::MoveLeft),
            Some(Token::MoveRight) => Some(Action::MoveRight),
            Some(Token::Launcher) => Some(Action::Launcher),
            Some(Token::Terminal) => Some(Action::Terminal),
            Some(Token::CloseWindow) => Some(Action::CloseWindow),
            Some(Token::NextWs) => Some(Action::NextWs),
            Some(Token::PrevWs) => Some(Action::PrevWs),
            _ => None,
        }
    }

    /// Reads the `on` keyword.
    fn expect_on(&mut self) -> (r: Option<()>)
        ensures
            final(self).spec_tokens() == old(self).spec_tokens(),
            match spec_expect_on(old(self).spec_tokens(), old(self).spec_pos()) {
                Some(p) => r is Some && final(self).spec_pos() == p,
                None => r is None,
            },
    {
        match self.eat() {
            Some(Token::On) => Some(()),
            _ => None,
        }
    }

    /// Reads a variable name.
    fn expect_var(&mut self) -> (r: Option<Variable>)
        ensures
            final(self).spec_tokens() == old(self).spec_tokens(),
            match spec_expect_var(old(self).spec_tokens(), old(self).spec_pos()) {
                Some((v, p)) => r == Some(v) && final(self).spec_pos() == p,
                None => r is None,
            },
    {
        match self.eat() {
            Some(Token::Gap) => Some(Variable::Gap),
            Some(Token::MasterKey) => Some(Variable::MasterKey),
            Some(Token::Launcher) => Some(Variable::Launcher),
            Some(Token::Terminal) => Some(Variable::Terminal),
            _ => None,
        }
    }

    /// Reads a settable value. The token under the cursor must be able to
    /// start a value; any other token there is outside the language, not a
    /// recoverable syntax error, so such positions are excluded.
    fn expect_value(&mut self) -> (r: Option<Value>)
        requires
            !(spec_expect_value(old(self).spec_tokens(), old(self).spec_pos())
                is Panics),
        ensures
            final(self).spec_tokens() == old(self).spec_tokens(),
            match spec_expect_value(old(self).spec_tokens(), old(self).spec_pos()) {
                ValueOutcome::Val(vv, p) => r matches Some(v) && v@ == vv && final(self).spec_pos() == p,
                ValueOutcome::Panics => false,
            },
    {
        match self.eat() {
            Some(Token::Number(n)) => Some(Value::Num(n)),
            Some(Token::Shift) => Some(Value::Key(SpecialKey::Shift)),
            Some(Token::Super) => Some(Value::Key(SpecialKey::Super)),
            Some(Token::Alt) => Some(Value::Key(SpecialKey::Alt)),
            Some(Token::Control) => Some(Value::Key(SpecialKey::Control)),
            Some(Token::Word(w)) => Some(Value::String(w)),
            _ => {
                proof {
                    assert(false);
                }
                None
            },
        }
    }

    /// Reads a modifier, or nothing (without moving) when the cursor is
    /// not on one.
    fn expect_mod(&mut self) -> (r: Option<SpecialKey>)
        ensures
            final(self).spec_tokens() == old(self).spec_tokens(),
            match spec_expect_mod(old(self).spec_tokens(), old(self).spec_pos()) {
                Some((m, p)) => r == Some(m) && final(self).spec_pos() == p,
                None => r is None && final(self).spec_pos() == old(self).spec_pos(),
            },
    {
        if self.pos >= self.input.len() {
            return None;
        }
        let m = match &self.input[self.pos] {
            Token::Alt => Some(SpecialKey::Alt),
            Token::Super => Some(SpecialKey::Super),
            Token::Shift => Some(SpecialKey::Shift),
            Token::Control => Some(SpecialKey::Control),
            _ => None,
        };
        if m.is_some() {
            self.pos = self.pos + 1;
        }
        m
    }

    /// Reads the hyphen that must follow a modifier.
    fn expect_dash(&mut self) -> (r: Option<()>)
        ensures
            final(self).spec_tokens() == old(self).spec_tokens(),
            match spec_expect_dash(old(self).spec_tokens(), old(self).spec_pos()) {
                Some(p) => r is Some && final(self).spec_pos() == p,
                None => r is None,
            },
    {
        match self.eat() {
            Some(Token::Hyphen) => Some(()),
            _ => None,
        }
    }

    /// Reads a base key.
    fn expect_key(&mut self) -> (r: Option<Key>)
        ensures
            final(self).spec_tokens() == old(self).spec_tokens(),
            match spec_expect_key(old(self).spec_tokens(), old(self).spec_pos()) {
                Some((k, p)) => r == Some(k) && final(self).spec_pos() == p,
                None => r is None,
            },
    {
        match self.eat() {
            Some(Token::Char(c)) => {
                if c <= '\u{7f}' {
                    Some(Key::Char(c))
                } else {
                    None
                }
            },
            Some(Token::Space) => Some(Key::Space),
            Some(Token::Escape) => Some(Key::Escape),
            Some(Token::Return) => Some(Key::Return),
            Some(Token::Number(n)) => {
                if n <= u32::MAX as usize {
                    let ghost n0 = n;
                    let mut v = n;
                    while v >= 10
                        invariant
                            spec_first_dec(n0 as int) == spec_first_dec(v as int),
                        decreases v,
                    {
                        v = v / 10;
                    }
                    Some(Key::Char(digit_char(v)))
                } else {
                    None
                }
            },
            _ => None,
        }
    }

    /// Reads a key combination: modifiers each followed by a hyphen, then
    /// a base key.
    fn expect_keycombo(&mut self) -> (r: Option<KeyCombo>)
        ensures
            final(self).spec_tokens() == old(self).spec_tokens(),
            match spec_expect_combo(old(self).spec_tokens(), old(self).spec_pos()) {
                Some((cb, p)) => r matches Some(c) && c@.prefixes =~= cb.prefixes && c@.key
                    == cb.key && final(self).spec_pos() == p,
                None => r is None,
            },
    {
        let ghost ts = self.spec_tokens();
        let ghost pos0 = self.spec_pos();
        let mut mods: Vec<SpecialKey> = Vec::new();
        loop
            invariant_except_break
                ts == old(self).spec_tokens(),
                pos0 == old(self).spec_pos(),
                ts == self.spec_tokens(),
                0 <= pos0 <= self.spec_pos() <= ts.len() || pos0 == self.spec_pos(),
                0 <= self.spec_pos(),
                match spec_expect_combo(ts, pos0) {
                    Some((cb, p)) => spec_expect_combo(ts, self.spec_pos()) matches Some(
                        (cb2, p2),
                    ) && p2 == p && cb.key == cb2.key && cb.prefixes =~= mods@ + cb2.prefixes,
                    None => spec_expect_combo(ts, self.spec_pos()) is None,
                },
            ensures
                ts == old(self).spec_tokens(),
                pos0 == old(self).spec_pos(),
                ts == self.spec_tokens(),
                0 <= self.spec_pos(),
                spec_expect_mod(ts, self.spec_pos()) is None,
                match spec_expect_combo(ts, pos0) {
                    Some((cb, p)) => spec_expect_combo(ts, self.spec_pos()) matches Some(
                        (cb2, p2),
                    ) && p2 == p && cb.key == cb2.key && cb.prefixes =~= mods@ + cb2.prefixes,
                    None => spec_expect_combo(ts, self.spec_pos()) is None,
                },
            decreases ts.len() - self.spec_pos() + 1,
        {
            let ghost pos_here = self.spec_pos();
            let ghost mods_before = mods@;
            let m = match self.expect_mod() {
                None => {
                    break ;
                },
                Some(t) => t,
            };
            mods.push(m);
            match self.expect_dash() {
                Some(_) => {
                    proof {
                        let p2 = self.spec_pos();
                        assert(p2 == pos_here + 2);
                        match spec_expect_combo(ts, p2) {
                            Some((cb3, p3)) => {
                                assert(spec_expect_combo(ts, pos_here) matches Some(
                                    (cb2, q),
                                ) && q == p3 && cb2.key == cb3.key && cb2.prefixes =~= seq![m]
                                    + cb3.prefixes);
                                assert(mods_before + (seq![m] + cb3.prefixes) =~= mods@
                                    + cb3.prefixes);
                            },
                            None => {
                                assert(spec_expect_combo(ts, pos_here) is None);
                            },
                        }
                    }
                },
                None => {
                    return None;
                },
            }
        }
        let key = match self.expect_key() {
            Some(k) => k,
            None => {
                return None;
            },
        };
        let combo = KeyCombo { prefixes: mods, key };
        Some(combo)
    }

    /// Reads one statement: the `Do` or `Set` keyword and its body.
    fn parse_stmt(&mut self) -> (r: Option<Statement>)
        requires
            !(spec_parse_stmt(old(self).spec_tokens(), old(self).spec_pos())
                is Panics),
        ensures
            final(self).spec_tokens() == old(self).spec_tokens(),
            match spec_parse_stmt(old(self).spec_tokens(), old(self).spec_pos()) {
                StmtOutcome::Stmt(sv, p) => r matches Some(st) && st@ == sv && final(self).spec_pos() == p,
                StmtOutcome::Failed => r is None,
                StmtOutcome::Panics => false,
            },
    {
        match self.eat() {
            Some(Token::Do) => self.parse_do(),
            Some(Token::SetKw) => self.parse_set(),
            _ => None,
        }
    }

    /// Reads the body of a `Do` statement.
    fn parse_do(&mut self) -> (r: Option<Statement>)
        ensures
            final(self).spec_tokens() == old(self).spec_tokens(),
            ({
                let out = match spec_expect_action(old(self).spec_tokens(), old(self).spec_pos()) {
                    None => StmtOutcome::Failed,
                    Some((a, p1)) => match spec_expect_on(old(self).spec_tokens(), p1) {
                        None => StmtOutcome::Failed,
                        Some(p2) => match spec_expect_combo(old(self).spec_tokens(), p2) {
                            None => StmtOutcome::Failed,
                            Some((cb, p3)) => StmtOutcome::Stmt(
                                StatementView::Do { action: a, on: cb },
                                p3,
                            ),
                        },
                    },
                };
                match out {
                    StmtOutcome::Stmt(sv, p) => r matches Some(st) && st@ == sv && final(self).spec_pos() == p,
                    StmtOutcome::Failed => r is None,
                    StmtOutcome::Panics => false,
                }
            }),
    {
        let action = match self.expect_action() {
            Some(a) => a,
            None => {
                return None;
            },
        };
        match self.expect_on() {
            Some(_) => {},
            None => {
                return None;
            },
        }
        let on = match self.expect_keycombo() {
            Some(c) => c,
            None => {
                return None;
            },
        };
        Some(Statement::Do { action, on })
    }

    /// Reads the body of a `Set` statement.
    fn parse_set(&mut self) -> (r: Option<Statement>)
        requires
            match spec_expect_var(old(self).spec_tokens(), old(self).spec_pos()) {
                Some((v, p1)) => !(spec_expect_value(old(self).spec_tokens(), p1)
                    is Panics),
                None => true,
            },
        ensures
            final(self).spec_tokens() == old(self).spec_tokens(),
            ({
                let out = match spec_expect_var(old(self).spec_tokens(), old(self).spec_pos()) {
                    None => StmtOutcome::Failed,
                    Some((v, p1)) => match spec_expect_value(old(self).spec_tokens(), p1) {
                        ValueOutcome::Panics => StmtOutcome::Panics,
                        ValueOutcome::Val(val, p2) => StmtOutcome::Stmt(
                            StatementView::SetVar { var: v, value: val },
                            p2,
                        ),
                    },
                };
                match out {
                    StmtOutcome::Stmt(sv, p) => r matches Some(st) && st@ == sv && final(self).spec_pos() == p,
                    StmtOutcome::Failed => r is None,
                    StmtOutcome::Panics => false,
                }
            }),
    {
        let var = match self.expect_var() {
            Some(v) => v,
            None => {
                return None;
            },
        };
        let value = match self.expect_value() {
            Some(v) => v,
            None => {
                return None;
            },
        };
        Some(Statement::SetVar { var, value })
    }

    /// Parses the whole token list into statements, or nothing on the
    /// first syntax error.
    pub fn parse(self) -> (r: Option<Vec<Statement>>)
        requires
            !(spec_parse_stmts(self.spec_tokens(), self.spec_pos())
                is Panics),
        ensures
            match spec_parse_stmts(self.spec_tokens(), self.spec_pos()) {
                StmtsOutcome::Stmts(svs) => r matches Some(ss) && ss@.map_values(
                    |st: Statement| st@,
                ) == svs,
                StmtsOutcome::Failed => r is None,
                StmtsOutcome::Panics => false,
            },
    {
        let mut this = self;
        this.parse_inner()
    }

    /// The working loop behind `parse`.
    fn parse_inner(&mut self) -> (r: Option<Vec<Statement>>)
        requires
            !(spec_parse_stmts(old(self).spec_tokens(), old(self).spec_pos())
                is Panics),
        ensures
            match spec_parse_stmts(old(self).spec_tokens(), old(self).spec_pos()) {
                StmtsOutcome::Stmts(svs) => r matches Some(ss) && ss@.map_values(
                    |st: Statement| st@,
                ) == svs,
                StmtsOutcome::Failed => r is None,
                StmtsOutcome::Panics => false,
            },
    {
        let ghost ts = self.spec_tokens();
        let ghost pos0 = self.spec_pos();
        let mut ss: Vec<Statement> = Vec::new();
        while !self.done()
            invariant_except_break
                ts == old(self).spec_tokens(),
                pos0 == old(self).spec_pos(),
                ts == self.spec_tokens(),
                0 <= self.spec_pos(),
                !(spec_parse_stmts(ts, pos0) is Panics),
                spec_parse_stmts(ts, pos0) == (match spec_parse_stmts(ts, self.spec_pos()) {
                    StmtsOutcome::Stmts(rest) => StmtsOutcome::Stmts(
                        ss@.map_values(|st: Statement| st@) + rest,
                    ),
                    StmtsOutcome::Failed => StmtsOutcome::Failed,
                    StmtsOutcome::Panics => StmtsOutcome::Panics,
                }),
            ensures
                ts == old(self).spec_tokens(),
                pos0 == old(self).spec_pos(),
                ts == self.spec_tokens(),
                match spec_parse_stmts(ts, pos0) {
                    StmtsOutcome::Stmts(svs) => self.spec_pos() >= ts.len() && svs
                        =~= ss@.map_values(|st: Statement| st@),
                    StmtsOutcome::Failed => false,
                    StmtsOutcome::Panics => false,
                },
            decreases ts.len() - self.spec_pos(),
        {
            let ghost pos_here = self.spec_pos();
            proof {
                lemma_stmt_advances(ts, pos_here);
                if spec_parse_stmt(ts, pos_here) is Panics {
                    assert(spec_parse_stmts(ts, pos_here) is Panics);
                    assert(false);
                }
            }
            let ghost before = ss@.map_values(|st: Statement| st@);
            match self.parse_stmt() {
                Some(st) => {
                    ss.push(st);
                    proof {
                        assert(ss@.map_values(|s2: Statement| s2@) =~= before.push(st@));
                        match spec_parse_stmt(ts, pos_here) {
                            StmtOutcome::Stmt(sv, p) => {
                                match spec_parse_stmts(ts, p) {
                                    StmtsOutcome::Stmts(r2) => {
                                        assert(before + (seq![sv] + r2) =~= before.push(sv)
                                            + r2);
                                    },
                                    _ => {},
                                }
                            },
                            _ => {
                                assert(false);
                            },
                        }
                    }
                },
                None => {
                    proof {
                        assert(spec_parse_stmts(ts, pos_here) is Failed);
                        assert(spec_parse_stmts(ts, pos0) is Failed);
                    }
                    return None;
                },
            }
        }
        proof {
            assert(spec_parse_stmts(ts, pos0) matches StmtsOutcome::Stmts(svs) ==> svs
                =~= ss@.map_values(|st: Statement| st@));
        }
        Some(ss)
    }
}

/// The built-in statements used when no configuration file exists: the
/// master key, the gap, the terminal and launcher commands, and the stock
/// bindings.
pub open spec fn spec_default_config() -> Seq<StatementView> {
    seq![
        StatementView::SetVar { var: Variable::MasterKey, value: ValueView::Key(SpecialKey::Alt) },
        StatementView::SetVar { var: Variable::Gap, value: ValueView::Num(8) },
        StatementView::SetVar { var: Variable::Terminal, value: ValueView::Str("alacritty"@) },
        StatementView::SetVar { var: Variable::Launcher, value: ValueView::Str("dmenu_run"@) },
        StatementView::Do {
            action: Action::FocusLeft,
            on: KeyComboView { prefixes: seq![SpecialKey::Alt], key: Key::Char('h') },
        },
        StatementView::Do {
            action: Action::FocusRight,
            on: KeyComboView { prefixes: seq![SpecialKey::Alt], key: Key::Char('l') },
        },
        StatementView::Do {
            action: Action::MoveLeft,
            on: KeyComboView {
                prefixes: seq![SpecialKey::Alt, SpecialKey::Shift],
                key: Key::Char('h'),
            },
        },
        StatementView::Do {
            action: Action::MoveRight,
            on: KeyComboView {
                prefixes: seq![SpecialKey::Alt, SpecialKey::Shift],
                key: Key::Char('l'),
            },
        },
        StatementView::Do {
            action: Action::Launcher,
            on: KeyComboView { prefixes: seq![SpecialKey::Alt], key: Key::Space },
        },
        StatementView::Do {
            action: Action::Terminal,
            on: KeyComboView { prefixes: seq![SpecialKey::Alt], key: Key::Return },
        },
        StatementView::Do {
            action: Action::CloseWindow,
            on: KeyComboView { prefixes: seq![SpecialKey::Alt], key: Key::Char('w') },
        },
        StatementView::Do {
            action: Action::NextWs,
            on: KeyComboView { prefixes: seq![SpecialKey::Alt], key: Key::Char('2') },
        },
        StatementView::Do {
            action: Action::PrevWs,
            on: KeyComboView { prefixes: seq![SpecialKey::Alt], key: Key::Char('1') },
        },
    ]
}

/// A one-modifier prefix list.
fn one_mod(k: SpecialKey) -> (r: Vec<SpecialKey>)
    ensures
        r@ =~= seq![k],
{
    let mut v: Vec<SpecialKey> = Vec::new();
    v.push(k);
    v
}

/// A two-modifier prefix list.
fn two_mods(a: SpecialKey, b: SpecialKey) -> (r: Vec<SpecialKey>)
    ensures
        r@ =~= seq![a, b],
{
    let mut v: Vec<SpecialKey> = Vec::new();
    v.push(a);
    v.push(b);
    v
}

/// A parsed configuration: the statement list.
#[derive(Debug, Clone)]
pub struct Config(pub Vec<Statement>);

impl Config {
    /// Lexes and parses a configuration text. The text must be ASCII, must
    /// lex (see `Lexer::run`) and must not put a value-starting token out
    /// of place (see `Parser::parse`); a mere syntax error returns
    /// nothing.
    pub fn parse(input: String) -> (r: Option<Config>)
        requires
            vstd::utf8::is_ascii_chars(input@),
            spec_lex_from(input@, 0) is Some,
            !(spec_parse_stmts(spec_lex_from(input@, 0)->Some_0, 0)
                is Panics),
        ensures
            match spec_parse_stmts(spec_lex_from(input@, 0)->Some_0, 0) {
                StmtsOutcome::Stmts(svs) => r matches Some(c) && c.0@.map_values(
                    |st: Statement| st@,
                ) == svs,
                StmtsOutcome::Failed => r is None,
                StmtsOutcome::Panics => false,
            },
    {
        let tokens = Lexer::new(input).run();
        match Parser::new(tokens).parse() {
            Some(ss) => Some(Config(ss)),
            None => None,
        }
    }

    /// The built-in configuration.
    pub fn default() -> (r: Config)
        ensures
            r.0@.map_values(|st: Statement| st@) =~= spec_default_config(),
    {
        let mut ss: Vec<Statement> = Vec::new();
        ss.push(
            Statement::SetVar { var: Variable::MasterKey, value: Value::Key(SpecialKey::Alt) },
        );
        ss.push(Statement::SetVar { var: Variable::Gap, value: Value::Num(8) });
        ss.push(
            Statement::SetVar {
                var: Variable::Terminal,
                value: Value::String(String::from_str("alacritty")),
            },
        );
        ss.push(
            Statement::SetVar {
                var: Variable::Launcher,
                value: Value::String(String::from_str("dmenu_run")),
            },
        );
        ss.push(
            Statement::Do {
                action: Action::FocusLeft,
                on: KeyCombo { prefixes: one_mod(SpecialKey::Alt), key: Key::Char('h') },
            },
        );
        ss.push(
            Statement::Do {
                action: Action::FocusRight,
                on: KeyCombo { prefixes: one_mod(SpecialKey::Alt), key: Key::Char('l') },
            },
        );
        ss.push(
            Statement::Do {
                action: Action::MoveLeft,
                on: KeyCombo {
                    prefixes: two_mods(SpecialKey::Alt, SpecialKey::Shift),
                    key: Key::Char('h'),
                },
            },
        );
        ss.push(
            Statement::Do {
                action: Action::MoveRight,
                on: KeyCombo {
                    prefixes: two_mods(SpecialKey::Alt, SpecialKey::Shift),
                    key: Key::Char('l'),
                },
            },
        );
        ss.push(
            Statement::Do {
                action: Action::Launcher,
                on: KeyCombo { prefixes: one_mod(SpecialKey::Alt), key: Key::Space },
            },
        );
        ss.push(
            Statement::Do {
                action: Action::Terminal,
                on: KeyCombo { prefixes: one_mod(SpecialKey::Alt), key: Key::Return },
            },
        );
        ss.push(
            Statement::Do {
                action: Action::CloseWindow,
                on: KeyCombo { prefixes: one_mod(SpecialKey::Alt), key: Key::Char('w') },
            },
        );
        ss.push(
            Statement::Do {
                action: Action::NextWs,
                on: KeyCombo { prefixes: one_mod(SpecialKey::Alt), key: Key::Char('2') },
            },
        );
        ss.push(
            Statement::Do {
                action: Action::PrevWs,
                on: KeyCombo { prefixes: one_mod(SpecialKey::Alt), key: Key::Char('1') },
            },
        );
        let r = Config(ss);
        proof {
            assert(r.0@.map_values(|st: Statement| st@) =~~= spec_default_config());
        }
        r
    }
}

/// The text of an action name, with its separating space.
pub open spec fn spec_action_text(a: Action) -> Seq<char> {
    match a {
        Action::FocusLeft => "FocusLeft "@,
        Action::FocusRight => "FocusRight "@,
        Action::MoveLeft => "MoveLeft "@,
        Action::MoveRight => "MoveRight "@,
        Action::Launcher => "Launcher "@,
        Action::Terminal => "Terminal "@,
        Action::CloseWindow => "CloseWindow "@,
        Action::NextWs => "NextWs "@,
        Action::PrevWs => "PrevWs "@,
    }
}

/// The text of a variable name, with its separating space.
pub open spec fn spec_var_text(v: Variable) -> Seq<char> {
    match v {
        Variable::MasterKey => "MasterKey "@,
        Variable::Gap => "Gap "@,
        Variable::Terminal => "Terminal "@,
        Variable::Launcher => "Launcher "@,
    }
}

/// The text of a modifier name.
pub open spec fn spec_mod_text(k: SpecialKey) -> Seq<char> {
    match k {
        SpecialKey::Alt => "Alt"@,
        SpecialKey::Shift => "Shift"@,
        SpecialKey::Control => "Control"@,
        SpecialKey::Super => "Super"@,
        SpecialKey::Space => "Space"@,
    }
}

/// The text of a base key.
pub open spec fn spec_key_text(k: Key) -> Seq<char> {
    match k {
        Key::Char(c) => seq![c],
        Key::Space => "Space"@,
        Key::Return => "Return"@,
        Key::Tab => "Tab"@,
        Key::Escape => "Escape"@,
    }
}

/// The decimal text of a number.
pub open spec fn spec_num_text(n: int) -> Seq<char>
    decreases n,
{
    if n < 10 {
        seq![spec_digit_char(n)]
    } else {
        spec_num_text(n / 10).push(spec_digit_char(n % 10))
    }
}

/// The text of a settable value.
pub open spec fn spec_value_text(v: ValueView) -> Seq<char> {
    match v {
        ValueView::Key(s) => spec_mod_text(s),
        ValueView::Num(n) => spec_num_text(n as int),
        ValueView::Str(w) => w,
    }
}

/// The text of the modifier prefixes after the first: each name followed
/// by a hyphen, in order. (The first prefix is understood to be the master
/// modifier and is not written back.)
pub open spec fn spec_prefixes_text(ps: Seq<SpecialKey>, upto: int) -> Seq<char>
    decreases upto,
{
    if upto <= 1 {
        Seq::empty()
    } else {
        spec_prefixes_text(ps, upto - 1) + spec_mod_text(ps[upto - 1]) + "-"@
    }
}

/// The text of one statement, ending in a newline.
pub open spec fn spec_stmt_text(st: StatementView) -> Seq<char> {
    match st {
        StatementView::Do { action, on } => "Do "@ + spec_action_text(action) + "on "@
            + spec_prefixes_text(on.prefixes, on.prefixes.len() as int) + spec_key_text(on.key)
            + "\n"@,
        StatementView::SetVar { var, value } => "Set "@ + spec_var_text(var) + spec_value_text(
            value,
        ) + "\n"@,
    }
}

/// The text of a whole configuration: its statements in order.
pub open spec fn spec_config_text(sts: Seq<StatementView>) -> Seq<char>
    decreases sts.len(),
{
    if sts.len() == 0 {
        Seq::empty()
    } else {
        spec_config_text(sts.drop_last()) + spec_stmt_text(sts.last())
    }
}

/// Appends the decimal text of `n`.
fn push_num(o: &mut String, n: usize)
    ensures
        final(o)@ == old(o)@ + spec_num_text(n as int),
    decreases n,
{
    if n < 10 {
        push_char(o, digit_char(n));
        proof {
            assert(o@ =~= old(o)@ + spec_num_text(n as int));
        }
    } else {
        push_num(o, n / 10);
        push_char(o, digit_char(n % 10));
        proof {
            assert(o@ =~= old(o)@ + spec_num_text(n as int));
        }
    }
}

impl Config {
    /// Writes the configuration back as text, one statement per line. A
    /// binding's first modifier prefix is not written (it is the master
    /// modifier the loader re-inserts).
    #[verifier::rlimit(60)]
    pub fn to_text(&self) -> (r: String)
        ensures
            r@ == spec_config_text(self.0@.map_values(|st: Statement| st@)),
    {
        let ghost views = self.0@.map_values(|st: Statement| st@);
        let mut o = String::new();
        let n = self.0.len();
        let mut i: usize = 0;
        while i < n
            invariant
                i <= n,
                n == self.0@.len(),
                views == self.0@.map_values(|st: Statement| st@),
                o@ == spec_config_text(views.take(i as int)),
            decreases n - i,
        {
            match &self.0[i] {
                Statement::Do { action, on } => {
                    o.append("Do ");
                    match action {
                        Action::FocusLeft => o.append("FocusLeft "),
                        Action::FocusRight => o.append("FocusRight "),
                        Action::MoveLeft => o.append("MoveLeft "),
                        Action::MoveRight => o.append("MoveRight "),
                        Action::Launcher => o.append("Launcher "),
                        Action::Terminal => o.append("Terminal "),
                        Action::CloseWindow => o.append("CloseWindow "),
                        Action::NextWs => o.append("NextWs "),
                        Action::PrevWs => o.append("PrevWs "),
                    }
                    o.append("on ");
                    let ghost base = o@;
                    let m = on.prefixes.len();
                    proof {
                        assert(o@ =~= base + spec_prefixes_text(on.prefixes@, 1));
                    }
                    let mut j: usize = 1;
                    while j < m
                        invariant
                            1 <= j <= m || (m == 0 && j == 1),
                            m == on.prefixes@.len(),
                            o@ == base + spec_prefixes_text(on.prefixes@, j as int),
                        decreases m - j,
                    {
                        match on.prefixes[j] {
                            SpecialKey::Alt => o.append("Alt"),
                            SpecialKey::Shift => o.append("Shift"),
                            SpecialKey::Control => o.append("Control"),
                            SpecialKey::Super => o.append("Super"),
                            SpecialKey::Space => o.append("Space"),
                        }
                        o.append("-");
                        proof {
                            assert(o@ =~= base + spec_prefixes_text(on.prefixes@, j + 1));
                        }
                        j += 1;
                    }
                    proof {
                        if m == 0 {
                            assert(spec_prefixes_text(on.prefixes@, 0) =~= Seq::<char>::empty());
                            assert(o@ =~= base + spec_prefixes_text(on.prefixes@, m as int));
                        }
                    }
                    match on.key {
                        Key::Char(c) => push_char(&mut o, c),
                        Key::Space => o.append("Space"),
                        Key::Return => o.append("Return"),
                        Key::Tab => o.append("Tab"),
                        Key::Escape => o.append("Escape"),
                    }
                    o.append("\n");
                },
                Statement::SetVar { var, value } => {
                    o.append("Set ");
                    match var {
                        Variable::MasterKey => o.append("MasterKey "),
                        Variable::Gap => o.append("Gap "),
                        Variable::Terminal => o.append("Terminal "),
                        Variable::Launcher => o.append("Launcher "),
                    }
                    match value {
                        Value::Key(s) => match s {
                            SpecialKey::Alt => o.append("Alt"),
                            SpecialKey::Shift => o.append("Shift"),
                            SpecialKey::Control => o.append("Control"),
                            SpecialKey::Super => o.append("Super"),
                            SpecialKey::Space => o.append("Space"),
                        },
                        Value::Num(v) => push_num(&mut o, *v),
                        Value::String(w) => o.append(w.as_str()),
                    }
                    o.append("\n");
                },
            }
            proof {
                assert(views.take(i + 1).drop_last() =~= views.take(i as int));
                assert(views.take(i + 1).last() == views[i as int]);
                assert(o@ =~= spec_config_text(views.take(i + 1)));
            }
            i += 1;
        }
        proof {
            assert(views.take(n as int) =~= views);
        }
        o
    }
}

} // verus!
