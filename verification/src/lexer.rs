use vstd::prelude::*;
use crate::diag::{DiagKind, DiagS, Diagnostic, Phase};
use crate::token::{toks_view, Tok, Token};

verus! {

// ---------------------------------------------------------------------------
// The ASCII bytes the scanner distinguishes
// ---------------------------------------------------------------------------

/// `\t`
pub const C_TAB: u8 = 9;
/// `\n`
pub const C_NL: u8 = 10;
/// `\r`
pub const C_CR: u8 = 13;
/// ` `
pub const C_SP: u8 = 32;
/// `!`
pub const C_BANG: u8 = 33;
/// `"`
pub const C_QUOTE: u8 = 34;
/// `&`
pub const C_AMP: u8 = 38;
/// `(`
pub const C_LP: u8 = 40;
/// `)`
pub const C_RP: u8 = 41;
/// `*`
pub const C_STAR: u8 = 42;
/// `+`
pub const C_PLUS: u8 = 43;
/// `-`
pub const C_MINUS: u8 = 45;
/// `.`
pub const C_DOT: u8 = 46;
/// `/`
pub const C_SLASH: u8 = 47;
/// `0`
pub const C_D0: u8 = 48;
/// `9`
pub const C_D9: u8 = 57;
/// `;`
pub const C_SEMI: u8 = 59;
/// `<`
pub const C_LT: u8 = 60;
/// `=`
pub const C_EQ: u8 = 61;
/// `>`
pub const C_GT: u8 = 62;
/// `A`
pub const C_UA: u8 = 65;
/// `Z`
pub const C_UZ: u8 = 90;
/// `_`
pub const C_US: u8 = 95;
/// `a`
pub const C_LA: u8 = 97;
/// `z`
pub const C_LZ: u8 = 122;
/// `{`
pub const C_LBR: u8 = 123;
/// `|`
pub const C_PIPE: u8 = 124;
/// `}`
pub const C_RBR: u8 = 125;

/// The bytes of `var`.
pub open spec fn kw_var() -> Seq<u8> {
    seq![118, 97, 114]
}

/// The bytes of `if`.
pub open spec fn kw_if() -> Seq<u8> {
    seq![105, 102]
}

/// The bytes of `else`.
pub open spec fn kw_else() -> Seq<u8> {
    seq![101, 108, 115, 101]
}

/// The bytes of `while`.
pub open spec fn kw_while() -> Seq<u8> {
    seq![119, 104, 105, 108, 101]
}

/// The bytes of `print`.
pub open spec fn kw_print() -> Seq<u8> {
    seq![112, 114, 105, 110, 116]
}

/// The bytes of `true`.
pub open spec fn kw_true() -> Seq<u8> {
    seq![116, 114, 117, 101]
}

/// The bytes of `false`.
pub open spec fn kw_false() -> Seq<u8> {
    seq![102, 97, 108, 115, 101]
}

// ---------------------------------------------------------------------------
// Character classes
// ---------------------------------------------------------------------------

/// Whitespace: space, tab, carriage return, newline.
pub open spec fn is_ws(c: u8) -> bool {
    c == C_SP || c == C_TAB || c == C_CR || c == C_NL
}

pub open spec fn is_digit(c: u8) -> bool {
    C_D0 <= c && c <= C_D9
}

/// An identifier starts with an ASCII letter or underscore.
pub open spec fn is_ident_start(c: u8) -> bool {
    (C_LA <= c && c <= C_LZ) || (C_UA <= c && c <= C_UZ) || c == C_US
}

/// Identifier continuation characters also admit digits.
pub open spec fn is_ident_cont(c: u8) -> bool {
    is_ident_start(c) || is_digit(c)
}

// ---------------------------------------------------------------------------
// Skipping whitespace and line comments
// ---------------------------------------------------------------------------

/// Cursor and line counter after skipping whitespace and `//` comments,
/// counting each newline passed.
pub open spec fn skip_trivia(s: Seq<u8>, pos: int, line: int) -> (int, int)
    decreases s.len() - pos, 0int,
{
    if pos < 0 || pos >= s.len() {
        (pos, line)
    } else if s[pos] == C_NL {
        skip_trivia(s, pos + 1, line + 1)
    } else if is_ws(s[pos]) {
        skip_trivia(s, pos + 1, line)
    } else if s[pos] == C_SLASH && pos + 1 < s.len() && s[pos + 1] == C_SLASH {
        skip_comment(s, pos + 2, line)
    } else {
        (pos, line)
    }
}

/// Inside a `//` comment: consume up to the terminating newline, which the
/// trivia skipper then counts, or to the end of input.
pub open spec fn skip_comment(s: Seq<u8>, pos: int, line: int) -> (int, int)
    decreases s.len() - pos, 1int,
{
    if pos < 0 || pos >= s.len() {
        (pos, line)
    } else if s[pos] == C_NL {
        skip_trivia(s, pos, line)
    } else {
        skip_comment(s, pos + 1, line)
    }
}

// ---------------------------------------------------------------------------
// Maximal runs
// ---------------------------------------------------------------------------

/// First position at or after `i` that does not continue an identifier.
pub open spec fn ident_end(s: Seq<u8>, i: int) -> int
    decreases s.len() - i,
{
    if 0 <= i && i < s.len() && is_ident_cont(s[i]) {
        ident_end(s, i + 1)
    } else {
        i
    }
}

/// First position at or after `i` that is not a digit.
pub open spec fn digits_end(s: Seq<u8>, i: int) -> int
    decreases s.len() - i,
{
    if 0 <= i && i < s.len() && is_digit(s[i]) {
        digits_end(s, i + 1)
    } else {
        i
    }
}

/// First position at or after `i` holding a closing quote or a newline, or
/// the end of input.
pub open spec fn str_end(s: Seq<u8>, i: int) -> int
    decreases s.len() - i,
{
    if 0 <= i && i < s.len() && s[i] != C_QUOTE && s[i] != C_NL {
        str_end(s, i + 1)
    } else {
        i
    }
}

/// Decimal value of the digit run `s[i..j)`.
pub open spec fn digits_val(s: Seq<u8>, i: int, j: int) -> int
    decreases j - i,
{
    if i >= j {
        0
    } else {
        digits_val(s, i, j - 1) * 10 + (s[j - 1] - C_D0)
    }
}

pub open spec fn pow10(n: nat) -> int
    decreases n,
{
    if n == 0 {
        1
    } else {
        10 * pow10((n - 1) as nat)
    }
}

// ---------------------------------------------------------------------------
// One scanning step
// ---------------------------------------------------------------------------

/// Outcome of recognizing one token: the token with the line it began on and
/// the cursor and line counter after it, or the first lexical failure.
/// `Tok::End` is produced exactly at exhausted input, with the cursor parked
/// at the end.
pub enum LexStep {
    Token { t: Tok, tline: int, pos: int, line: int },
    Fail { kind: DiagKind, line: int },
}

/// Keyword table: a maximal identifier run is a reserved word, a boolean
/// literal, or an identifier carrying its name.
pub open spec fn classify_word(w: Seq<u8>) -> Tok {
    if w == kw_var() {
        Tok::Var
    } else if w == kw_if() {
        Tok::If
    } else if w == kw_else() {
        Tok::Else
    } else if w == kw_while() {
        Tok::While
    } else if w == kw_print() {
        Tok::Print
    } else if w == kw_true() {
        Tok::BoolLit(true)
    } else if w == kw_false() {
        Tok::BoolLit(false)
    } else {
        Tok::Ident(w)
    }
}

/// A numeric literal: a digit run, optionally one `.` followed by a digit
/// run. A further decimal point, or a run of more than 19 digits (whose
/// value could exceed the carried 64-bit range), is malformed.
pub open spec fn number_step(s: Seq<u8>, pos: int, line: int) -> LexStep {
    let j = digits_end(s, pos);
    if j - pos > 19 {
        LexStep::Fail { kind: DiagKind::MalformedNumber, line }
    } else if j < s.len() && s[j] == C_DOT && j + 1 < s.len() && is_digit(s[j + 1]) {
        let k = digits_end(s, j + 1);
        if k - (j + 1) > 19 {
            LexStep::Fail { kind: DiagKind::MalformedNumber, line }
        } else if k < s.len() && s[k] == C_DOT {
            LexStep::Fail { kind: DiagKind::MalformedNumber, line }
        } else {
            LexStep::Token {
                t: Tok::FloatLit(
                    digits_val(s, pos, j) as u64,
                    digits_val(s, j + 1, k) as u64,
                    (k - (j + 1)) as u64,
                ),
                tline: line,
                pos: k,
                line,
            }
        }
    } else {
        LexStep::Token { t: Tok::IntLit(digits_val(s, pos, j) as u64), tline: line, pos: j, line }
    }
}

/// A string literal: from the opening quote to the closing quote on the same
/// line; reaching a newline or the end of input first is a failure at the
/// line the literal opened.
pub open spec fn string_step(s: Seq<u8>, pos: int, line: int) -> LexStep {
    let j = str_end(s, pos + 1);
    if j >= s.len() || s[j] == C_NL {
        LexStep::Fail { kind: DiagKind::UnterminatedString, line }
    } else {
        LexStep::Token { t: Tok::StrLit(s.subrange(pos + 1, j)), tline: line, pos: j + 1, line }
    }
}

/// Operators and punctuation, longest match first: a two-character operator
/// is preferred over its one-character prefix.
pub open spec fn op_step(s: Seq<u8>, pos: int, line: int) -> LexStep {
    let c = s[pos];
    let two = pos + 1 < s.len();
    if two && c == C_EQ && s[pos + 1] == C_EQ {
        LexStep::Token { t: Tok::EqEq, tline: line, pos: pos + 2, line }
    } else if two && c == C_BANG && s[pos + 1] == C_EQ {
        LexStep::Token { t: Tok::NotEq, tline: line, pos: pos + 2, line }
    } else if two && c == C_LT && s[pos + 1] == C_EQ {
        LexStep::Token { t: Tok::Le, tline: line, pos: pos + 2, line }
    } else if two && c == C_GT && s[pos + 1] == C_EQ {
        LexStep::Token { t: Tok::Ge, tline: line, pos: pos + 2, line }
    } else if two && c == C_AMP && s[pos + 1] == C_AMP {
        LexStep::Token { t: Tok::AndAnd, tline: line, pos: pos + 2, line }
    } else if two && c == C_PIPE && s[pos + 1] == C_PIPE {
        LexStep::Token { t: Tok::OrOr, tline: line, pos: pos + 2, line }
    } else if c == C_EQ {
        LexStep::Token { t: Tok::Assign, tline: line, pos: pos + 1, line }
    } else if c == C_BANG {
        LexStep::Token { t: Tok::Not, tline: line, pos: pos + 1, line }
    } else if c == C_LT {
        LexStep::Token { t: Tok::Lt, tline: line, pos: pos + 1, line }
    } else if c == C_GT {
        LexStep::Token { t: Tok::Gt, tline: line, pos: pos + 1, line }
    } else if c == C_PLUS {
        LexStep::Token { t: Tok::Plus, tline: line, pos: pos + 1, line }
    } else if c == C_MINUS {
        LexStep::Token { t: Tok::Minus, tline: line, pos: pos + 1, line }
    } else if c == C_STAR {
        LexStep::Token { t: Tok::Star, tline: line, pos: pos + 1, line }
    } else if c == C_SLASH {
        LexStep::Token { t: Tok::Slash, tline: line, pos: pos + 1, line }
    } else if c == C_LP {
        LexStep::Token { t: Tok::LParen, tline: line, pos: pos + 1, line }
    } else if c == C_RP {
        LexStep::Token { t: Tok::RParen, tline: line, pos: pos + 1, line }
    } else if c == C_LBR {
        LexStep::Token { t: Tok::LBrace, tline: line, pos: pos + 1, line }
    } else if c == C_RBR {
        LexStep::Token { t: Tok::RBrace, tline: line, pos: pos + 1, line }
    } else if c == C_SEMI {
        LexStep::Token { t: Tok::Semi, tline: line, pos: pos + 1, line }
    } else {
        LexStep::Fail { kind: DiagKind::UnrecognizedChar(c), line }
    }
}

/// One step of the lexer from cursor `pos0` on line `line0`: skip trivia,
/// then recognize the token that starts there.
pub open spec fn next_step(s: Seq<u8>, pos0: int, line0: int) -> LexStep {
    let (pos, line) = skip_trivia(s, pos0, line0);
    if pos >= s.len() {
        LexStep::Token { t: Tok::End, tline: line, pos: s.len() as int, line }
    } else {
        let c = s[pos];
        if is_ident_start(c) {
            let j = ident_end(s, pos + 1);
            LexStep::Token { t: classify_word(s.subrange(pos, j)), tline: line, pos: j, line }
        } else if is_digit(c) {
            number_step(s, pos, line)
        } else if c == C_QUOTE {
            string_step(s, pos, line)
        } else {
            op_step(s, pos, line)
        }
    }
}

// ---------------------------------------------------------------------------
// The whole scan
// ---------------------------------------------------------------------------

/// The full scan from cursor `pos` on line `line`: the tokens recognized in
/// order, and the first lexical failure if one aborted the scan. On success
/// the sequence ends with the one `End` sentinel; on failure it holds
/// exactly the tokens recognized before the failing position.
pub open spec fn spec_lex(s: Seq<u8>, pos: int, line: int) -> (Seq<(Tok, int)>, Option<DiagS>)
    decreases s.len() - pos,
{
    match next_step(s, pos, line) {
        LexStep::Fail { kind, line: l } => (
            Seq::empty(),
            Some(DiagS { line: l, phase: Phase::Lexical, kind }),
        ),
        LexStep::Token { t, tline, pos: p2, line: l2 } => {
            if t is End {
                (seq![(t, tline)], None)
            } else if p2 > pos && p2 <= s.len() {
                let (rest, err) = spec_lex(s, p2, l2);
                (seq![(t, tline)] + rest, err)
            } else {
                // A recognized token always advances the cursor; this branch
                // only keeps the recursion well-founded.
                (Seq::empty(), None)
            }
        },
    }
}



// ---------------------------------------------------------------------------
// Executable character classes
// ---------------------------------------------------------------------------

fn ch_is_ws(c: u8) -> (r: bool)
    ensures
        r == is_ws(c),
{
    c == C_SP || c == C_TAB || c == C_CR || c == C_NL
}

fn ch_is_digit(c: u8) -> (r: bool)
    ensures
        r == is_digit(c),
{
    C_D0 <= c && c <= C_D9
}

fn ch_is_ident_start(c: u8) -> (r: bool)
    ensures
        r == is_ident_start(c),
{
    (C_LA <= c && c <= C_LZ) || (C_UA <= c && c <= C_UZ) || c == C_US
}

fn ch_is_ident_cont(c: u8) -> (r: bool)
    ensures
        r == is_ident_cont(c),
{
    ch_is_ident_start(c) || ch_is_digit(c)
}

// ---------------------------------------------------------------------------
// The lexer
// ---------------------------------------------------------------------------

/// The scanner: the source bytes, a cursor, and the 1-based line counter of
/// the cursor position. Built fresh per compile call and never shared.
pub struct Lexer {
    src: Vec<u8>,
    pos: usize,
    line: u64,
}

impl Lexer {
    /// The source text being scanned.
    pub closed spec fn src(&self) -> Seq<u8> {
        self.src@
    }

    /// The cursor: how many bytes are consumed.
    pub closed spec fn pos(&self) -> int {
        self.pos as int
    }

    /// The line the cursor stands on.
    pub closed spec fn line(&self) -> int {
        self.line as int
    }

    /// The cursor is inside the text, the line counter cannot outrun the
    /// cursor, and one more line still fits in its counter.
    pub closed spec fn wf(&self) -> bool {
        &&& self.pos as int <= self.src@.len()
        &&& 1 <= self.line as int
        &&& self.line as int <= self.pos as int + 1
        &&& self.src@.len() + 1 < u64::MAX as int
    }

    /// A fresh scanner at the start of `src`, on line 1.
    pub fn new(src: Vec<u8>) -> (r: Lexer)
        requires
            src@.len() + 1 < u64::MAX as int,
        ensures
            r.wf(),
            r.src() == src@,
            r.pos() == 0,
            r.line() == 1,
    {
        Lexer { src, pos: 0, line: 1 }
    }

    /// Skip whitespace and `//` comments, counting newlines.
    fn skip_trivia_exec(&mut self)
        requires
            old(self).wf(),
        ensures
            final(self).wf(),
            final(self).src() == old(self).src(),
            old(self).pos() <= final(self).pos(),
            (final(self).pos(), final(self).line()) == skip_trivia(
                old(self).src(),
                old(self).pos(),
                old(self).line(),
            ),
    {
        loop
            invariant
                self.wf(),
                self.src == old(self).src,
                old(self).pos() <= self.pos(),
                skip_trivia(old(self).src(), old(self).pos(), old(self).line()) == skip_trivia(
                    self.src@,
                    self.pos as int,
                    self.line as int,
                ),
            ensures
                self.wf(),
                self.src == old(self).src,
                old(self).pos() <= self.pos(),
                (self.pos as int, self.line as int) == skip_trivia(
                    old(self).src(),
                    old(self).pos(),
                    old(self).line(),
                ),
            decreases self.src@.len() - self.pos as int,
        {
            if self.pos >= self.src.len() {
                break;
            }
            let c = self.src[self.pos];
            if c == C_NL {
                self.pos = self.pos + 1;
                self.line = self.line + 1;
            } else if c == C_SP || c == C_TAB || c == C_CR {
                self.pos = self.pos + 1;
            } else if c == C_SLASH && self.pos + 1 < self.src.len() && self.src[self.pos + 1]
                == C_SLASH {
                self.pos = self.pos + 2;
                let ghost entered: int = self.pos as int;
                while self.pos < self.src.len() && self.src[self.pos] != C_NL
                    invariant
                        self.wf(),
                        self.src == old(self).src,
                        entered <= self.pos as int,
                        skip_trivia(old(self).src(), old(self).pos(), old(self).line())
                            == skip_comment(self.src@, self.pos as int, self.line as int),
                    decreases self.src@.len() - self.pos as int,
                {
                    self.pos = self.pos + 1;
                }
            } else {
                break;
            }
        }
    }

    /// The end of the maximal identifier run starting at the cursor.
    fn scan_ident_end(&self, start: usize) -> (j: usize)
        requires
            self.wf(),
            start <= self.src@.len(),
        ensures
            j == ident_end(self.src@, start as int),
            start <= j <= self.src@.len(),
    {
        let mut i: usize = start;
        while i < self.src.len() && ch_is_ident_cont(self.src[i])
            invariant
                self.wf(),
                start <= i <= self.src@.len(),
                ident_end(self.src@, start as int) == ident_end(self.src@, i as int),
            decreases self.src@.len() - i as int,
        {
            i = i + 1;
        }
        i
    }

    /// The end of the maximal digit run starting at `start`.
    fn scan_digits_end(&self, start: usize) -> (j: usize)
        requires
            self.wf(),
            start <= self.src@.len(),
        ensures
            j == digits_end(self.src@, start as int),
            start <= j <= self.src@.len(),
    {
        let mut i: usize = start;
        while i < self.src.len() && ch_is_digit(self.src[i])
            invariant
                self.wf(),
                start <= i <= self.src@.len(),
                digits_end(self.src@, start as int) == digits_end(self.src@, i as int),
            decreases self.src@.len() - i as int,
        {
            i = i + 1;
        }
        i
    }

    /// Copy `self.src[start..j)` out as an owned byte vector.
    fn copy_bytes(&self, start: usize, j: usize) -> (r: Vec<u8>)
        requires
            self.wf(),
            start <= j <= self.src@.len(),
        ensures
            r@ == self.src@.subrange(start as int, j as int),
    {
        let mut out: Vec<u8> = Vec::new();
        let mut i: usize = start;
        while i < j
            invariant
                self.wf(),
                start <= i <= j <= self.src@.len(),
                out@ =~= self.src@.subrange(start as int, i as int),
            decreases j - i,
        {
            out.push(self.src[i]);
            proof {
                assert(out@ =~= self.src@.subrange(start as int, i + 1 as int));
            }
            i = i + 1;
        }
        out
    }

    /// The decimal value of the digit run `self.src[start..j)`, which must
    /// hold at most 19 digits so that the value fits in 64 bits.
    fn digits_value(&self, start: usize, j: usize) -> (v: u64)
        requires
            self.wf(),
            start <= j <= self.src@.len(),
            j - start <= 19,
            forall|k: int| start as int <= k < j as int ==> is_digit(#[trigger] self.src@[k]),
        ensures
            v as int == digits_val(self.src@, start as int, j as int),
    {
        proof {
            lemma_pow10_19();
        }
        let mut v: u64 = 0;
        let mut i: usize = start;
        while i < j
            invariant
                self.wf(),
                start <= i <= j <= self.src@.len(),
                j - start <= 19,
                forall|k: int| start as int <= k < j as int ==> is_digit(#[trigger] self.src@[k]),
                v as int == digits_val(self.src@, start as int, i as int),
                (v as int) < pow10((i - start) as nat),
                pow10(19) == 10_000_000_000_000_000_000,
            decreases j - i,
        {
            let d = self.src[i] - C_D0;
            proof {
                lemma_pow10_mono(((i - start) + 1) as nat, 19nat);
                assert(pow10(((i - start) + 1) as nat) == 10 * pow10((i - start) as nat));
            }
            v = v * 10 + d as u64;
            i = i + 1;
        }
        v
    }
}

/// `pow10(19)` written out, for the 64-bit range argument.
pub proof fn lemma_pow10_19()
    ensures
        pow10(19) == 10_000_000_000_000_000_000,
{
    reveal_with_fuel(pow10, 20);
}

/// `pow10` grows monotonically.
pub proof fn lemma_pow10_mono(a: nat, b: nat)
    requires
        a <= b,
    ensures
        pow10(a) <= pow10(b),
        1 <= pow10(a),
    decreases b,
{
    if b > 0 {
        if a == b {
            lemma_pow10_mono((b - 1) as nat, (b - 1) as nat);
        } else {
            lemma_pow10_mono(a, (b - 1) as nat);
        }
        assert(pow10(b) == 10 * pow10((b - 1) as nat));
    }
}

/// Every position of the run recognized by `digits_end` holds a digit.
pub proof fn lemma_digits_run(s: Seq<u8>, i: int)
    requires
        0 <= i,
    ensures
        forall|k: int| i <= k < digits_end(s, i) ==> is_digit(#[trigger] s[k]),
    decreases s.len() - i,
{
    if 0 <= i && i < s.len() && is_digit(s[i]) {
        lemma_digits_run(s, i + 1);
    }
}

/// `digits_end` never moves backwards.
pub proof fn lemma_digits_end_ge(s: Seq<u8>, i: int)
    ensures
        i <= digits_end(s, i),
    decreases s.len() - i,
{
    if 0 <= i && i < s.len() && is_digit(s[i]) {
        lemma_digits_end_ge(s, i + 1);
    }
}

/// The keyword table on an owned name.
fn classify(name: Vec<u8>) -> (t: Token)
    ensures
        t@ == classify_word(name@),
{
    let n = name.len();
    if n == 3 && name[0] == 118 && name[1] == 97 && name[2] == 114 {
        proof {
            assert(name@ =~= kw_var());
        }
        Token::Var
    } else if n == 2 && name[0] == 105 && name[1] == 102 {
        proof {
            assert(name@ =~= kw_if());
        }
        Token::If
    } else if n == 4 && name[0] == 101 && name[1] == 108 && name[2] == 115 && name[3] == 101 {
        proof {
            assert(name@ =~= kw_else());
        }
        Token::Else
    } else if n == 5 && name[0] == 119 && name[1] == 104 && name[2] == 105 && name[3] == 108
        && name[4] == 101 {
        proof {
            assert(name@ =~= kw_while());
        }
        Token::While
    } else if n == 5 && name[0] == 112 && name[1] == 114 && name[2] == 105 && name[3] == 110
        && name[4] == 116 {
        proof {
            assert(name@ =~= kw_print());
        }
        Token::Print
    } else if n == 4 && name[0] == 116 && name[1] == 114 && name[2] == 117 && name[3] == 101 {
        proof {
            assert(name@ =~= kw_true());
        }
        Token::BoolLit(true)
    } else if n == 5 && name[0] == 102 && name[1] == 97 && name[2] == 108 && name[3] == 115
        && name[4] == 101 {
        proof {
            assert(name@ =~= kw_false());
        }
        Token::BoolLit(false)
    } else {
        Token::Ident(name)
    }
}

impl Lexer {
    /// The end of a string literal's contents starting at `start`.
    fn scan_str_end(&self, start: usize) -> (j: usize)
        requires
            self.wf(),
            start <= self.src@.len(),
        ensures
            j == str_end(self.src@, start as int),
            start <= j <= self.src@.len(),
    {
        let mut i: usize = start;
        while i < self.src.len() && self.src[i] != C_QUOTE && self.src[i] != C_NL
            invariant
                self.wf(),
                start <= i <= self.src@.len(),
                str_end(self.src@, start as int) == str_end(self.src@, i as int),
            decreases self.src@.len() - i as int,
        {
            i = i + 1;
        }
        i
    }

    /// Recognize the next token: skip trivia, then scan exactly the token
    /// that `next_step` describes, or fail with its lexical diagnostic.
    /// After the input is exhausted the cursor stays parked, so every
    /// further call returns `End` again on the final line.
    pub fn next_token(&mut self) -> (r: Result<(Token, u64), Diagnostic>)
        requires
            old(self).wf(),
        ensures
            final(self).wf(),
            final(self).src() == old(self).src(),
            old(self).pos() <= final(self).pos(),
            match (r, next_step(old(self).src(), old(self).pos(), old(self).line())) {
                (Ok(tl), LexStep::Token { t, tline, pos, line }) => {
                    &&& tl.0@ == t
                    &&& tl.1 as int == tline
                    &&& final(self).pos() == pos
                    &&& final(self).line() == line
                    &&& (!(t is End) ==> old(self).pos() < final(self).pos())
                    &&& (t is End ==> final(self).pos() == old(self).src().len())
                },
                (Err(d), LexStep::Fail { kind, line }) => {
                    &&& d@.kind == kind
                    &&& d@.line == line
                    &&& d@.phase == Phase::Lexical
                },
                _ => false,
            },
    {
        self.skip_trivia_exec();
        if self.pos >= self.src.len() {
            return Ok((Token::End, self.line));
        }
        let c = self.src[self.pos];
        let tline = self.line;
        if ch_is_ident_start(c) {
            let start = self.pos;
            let j = self.scan_ident_end(start + 1);
            let name = self.copy_bytes(start, j);
            self.pos = j;
            Ok((classify(name), tline))
        } else if ch_is_digit(c) {
            let start = self.pos;
            let j = self.scan_digits_end(start);
            proof {
                lemma_digits_run(self.src@, start as int);
                lemma_digits_end_ge(self.src@, start + 1);
            }
            if j - start > 19 {
                return Err(
                    Diagnostic { line: tline, phase: Phase::Lexical, kind: DiagKind::MalformedNumber },
                );
            }
            if j < self.src.len() && self.src[j] == C_DOT && j + 1 < self.src.len()
                && ch_is_digit(self.src[j + 1]) {
                let k = self.scan_digits_end(j + 1);
                proof {
                    lemma_digits_run(self.src@, j + 1 as int);
                    lemma_digits_end_ge(self.src@, j + 2);
                }
                if k - (j + 1) > 19 {
                    return Err(
                        Diagnostic {
                            line: tline,
                            phase: Phase::Lexical,
                            kind: DiagKind::MalformedNumber,
                        },
                    );
                }
                if k < self.src.len() && self.src[k] == C_DOT {
                    return Err(
                        Diagnostic {
                            line: tline,
                            phase: Phase::Lexical,
                            kind: DiagKind::MalformedNumber,
                        },
                    );
                }
                let iv = self.digits_value(start, j);
                let fv = self.digits_value(j + 1, k);
                self.pos = k;
                Ok((Token::FloatLit(iv, fv, (k - (j + 1)) as u64), tline))
            } else {
                let iv = self.digits_value(start, j);
                self.pos = j;
                Ok((Token::IntLit(iv), tline))
            }
        } else if c == C_QUOTE {
            let start = self.pos;
            let j = self.scan_str_end(start + 1);
            if j >= self.src.len() || self.src[j] == C_NL {
                return Err(
                    Diagnostic {
                        line: tline,
                        phase: Phase::Lexical,
                        kind: DiagKind::UnterminatedString,
                    },
                );
            }
            let content = self.copy_bytes(start + 1, j);
            self.pos = j + 1;
            Ok((Token::StrLit(content), tline))
        } else {
            let two = self.pos + 1 < self.src.len();
            if two {
                let c2 = self.src[self.pos + 1];
                if c == C_EQ && c2 == C_EQ {
                    self.pos = self.pos + 2;
                    return Ok((Token::EqEq, tline));
                }
                if c == C_BANG && c2 == C_EQ {
                    self.pos = self.pos + 2;
                    return Ok((Token::NotEq, tline));
                }
                if c == C_LT && c2 == C_EQ {
                    self.pos = self.pos + 2;
                    return Ok((Token::Le, tline));
                }
                if c == C_GT && c2 == C_EQ {
                    self.pos = self.pos + 2;
                    return Ok((Token::Ge, tline));
                }
                if c == C_AMP && c2 == C_AMP {
                    self.pos = self.pos + 2;
                    return Ok((Token::AndAnd, tline));
                }
                if c == C_PIPE && c2 == C_PIPE {
                    self.pos = self.pos + 2;
                    return Ok((Token::OrOr, tline));
                }
            }
            if c == C_EQ {
                self.pos = self.pos + 1;
                return Ok((Token::Assign, tline));
            }
            if c == C_BANG {
                self.pos = self.pos + 1;
                return Ok((Token::Not, tline));
            }
            if c == C_LT {
                self.pos = self.pos + 1;
                return Ok((Token::Lt, tline));
            }
            if c == C_GT {
                self.pos = self.pos + 1;
                return Ok((Token::Gt, tline));
            }
            if c == C_PLUS {
                self.pos = self.pos + 1;
                return Ok((Token::Plus, tline));
            }
            if c == C_MINUS {
                self.pos = self.pos + 1;
                return Ok((Token::Minus, tline));
            }
            if c == C_STAR {
                self.pos = self.pos + 1;
                return Ok((Token::Star, tline));
            }
            if c == C_SLASH {
                self.pos = self.pos + 1;
                return Ok((Token::Slash, tline));
            }
            if c == C_LP {
                self.pos = self.pos + 1;
                return Ok((Token::LParen, tline));
            }
            if c == C_RP {
                self.pos = self.pos + 1;
                return Ok((Token::RParen, tline));
            }
            if c == C_LBR {
                self.pos = self.pos + 1;
                return Ok((Token::LBrace, tline));
            }
            if c == C_RBR {
                self.pos = self.pos + 1;
                return Ok((Token::RBrace, tline));
            }
            if c == C_SEMI {
                self.pos = self.pos + 1;
                return Ok((Token::Semi, tline));
            }
            Err(Diagnostic { line: tline, phase: Phase::Lexical, kind: DiagKind::UnrecognizedChar(c) })
        }
    }
}

/// The model of an optional diagnostic.
pub open spec fn opt_diag_view(o: Option<Diagnostic>) -> Option<DiagS> {
    match o {
        Option::None => Option::None,
        Option::Some(d) => Option::Some(d@),
    }
}

/// Scan the whole source: the recognized tokens in order and, if the scan
/// aborted, the lexical diagnostic — exactly the batch scan that `spec_lex`
/// describes. On success the token sequence is closed by the one `End`
/// sentinel; on failure it holds the tokens recognized before the failure.
pub fn tokenize(src: Vec<u8>) -> (r: (Vec<(Token, u64)>, Option<Diagnostic>))
    requires
        src@.len() + 1 < u64::MAX as int,
    ensures
        toks_view(r.0@) == spec_lex(src@, 0, 1).0,
        opt_diag_view(r.1) == spec_lex(src@, 0, 1).1,
{
    let ghost s0 = src@;
    let mut lx = Lexer::new(src);
    let mut out: Vec<(Token, u64)> = Vec::new();
    proof {
        assert(toks_view(out@) =~= Seq::<(Tok, int)>::empty());
        assert(toks_view(out@) + spec_lex(s0, 0, 1).0 =~= spec_lex(s0, 0, 1).0);
    }
    loop
        invariant
            s0 == src@,
            lx.wf(),
            lx.src() == s0,
            spec_lex(s0, 0, 1).0 == toks_view(out@) + spec_lex(s0, lx.pos(), lx.line()).0,
            spec_lex(s0, 0, 1).1 == spec_lex(s0, lx.pos(), lx.line()).1,
        decreases s0.len() - lx.pos(),
    {
        let ghost p = lx.pos();
        let ghost l = lx.line();
        match lx.next_token() {
            Ok(tl) => {
                let is_end = match &tl.0 {
                    Token::End => true,
                    _ => false,
                };
                let ghost prev = out@;
                out.push(tl);
                proof {
                    assert(toks_view(out@) =~= toks_view(prev).push((tl.0@, tl.1 as int)));
                    assert(toks_view(prev) + seq![(tl.0@, tl.1 as int)] =~= toks_view(out@));
                }
                if is_end {
                    proof {
                        assert(spec_lex(s0, p, l).0 =~= seq![(tl.0@, tl.1 as int)]);
                        assert(spec_lex(s0, p, l).1 == None::<DiagS>);
                        assert(spec_lex(s0, 0, 1).0 =~= toks_view(out@));
                    }
                    return (out, None);
                }
                proof {
                    let rest = spec_lex(s0, lx.pos(), lx.line());
                    assert(spec_lex(s0, p, l).0 =~= seq![(tl.0@, tl.1 as int)] + rest.0);
                    assert(toks_view(prev) + (seq![(tl.0@, tl.1 as int)] + rest.0) =~= toks_view(
                        out@,
                    ) + rest.0);
                    assert(toks_view(out@) + rest.0 =~= spec_lex(s0, 0, 1).0);
                }
            },
            Err(d) => {
                proof {
                    assert(spec_lex(s0, p, l).0 =~= Seq::<(Tok, int)>::empty());
                    assert(toks_view(out@) + spec_lex(s0, p, l).0 =~= toks_view(out@));
                }
                return (out, Some(d));
            },
        }
    }
}

// ---------------------------------------------------------------------------
// What holds of every scan
// ---------------------------------------------------------------------------

/// `ident_end` stays between its start and the end of the text.
pub proof fn lemma_ident_end_bounds(s: Seq<u8>, i: int)
    ensures
        i <= ident_end(s, i),
        i <= s.len() ==> ident_end(s, i) <= s.len(),
    decreases s.len() - i,
{
    if 0 <= i && i < s.len() && is_ident_cont(s[i]) {
        lemma_ident_end_bounds(s, i + 1);
    }
}

/// `digits_end` stays between its start and the end of the text.
pub proof fn lemma_digits_end_bounds(s: Seq<u8>, i: int)
    ensures
        i <= digits_end(s, i),
        i <= s.len() ==> digits_end(s, i) <= s.len(),
    decreases s.len() - i,
{
    if 0 <= i && i < s.len() && is_digit(s[i]) {
        lemma_digits_end_bounds(s, i + 1);
    }
}

/// `str_end` stays between its start and the end of the text.
pub proof fn lemma_str_end_bounds(s: Seq<u8>, i: int)
    ensures
        i <= str_end(s, i),
        i <= s.len() ==> str_end(s, i) <= s.len(),
    decreases s.len() - i,
{
    if 0 <= i && i < s.len() && s[i] != C_QUOTE && s[i] != C_NL {
        lemma_str_end_bounds(s, i + 1);
    }
}

/// Skipping trivia moves the cursor and the line counter only forward, and
/// not past the end of the text.
pub proof fn lemma_skip_trivia_bounds(s: Seq<u8>, pos: int, line: int)
    ensures
        pos <= skip_trivia(s, pos, line).0,
        line <= skip_trivia(s, pos, line).1,
        pos <= s.len() ==> skip_trivia(s, pos, line).0 <= s.len(),
    decreases s.len() - pos, 0int,
{
    if 0 <= pos && pos < s.len() {
        if s[pos] == C_NL {
            lemma_skip_trivia_bounds(s, pos + 1, line + 1);
        } else if is_ws(s[pos]) {
            lemma_skip_trivia_bounds(s, pos + 1, line);
        } else if s[pos] == C_SLASH && pos + 1 < s.len() && s[pos + 1] == C_SLASH {
            lemma_skip_comment_bounds(s, pos + 2, line);
        }
    }
}

/// As `lemma_skip_trivia_bounds`, inside a comment.
pub proof fn lemma_skip_comment_bounds(s: Seq<u8>, pos: int, line: int)
    ensures
        pos <= skip_comment(s, pos, line).0,
        line <= skip_comment(s, pos, line).1,
        pos <= s.len() ==> skip_comment(s, pos, line).0 <= s.len(),
    decreases s.len() - pos, 1int,
{
    if 0 <= pos && pos < s.len() {
        if s[pos] == C_NL {
            lemma_skip_trivia_bounds(s, pos, line);
        } else {
            lemma_skip_comment_bounds(s, pos + 1, line);
        }
    }
}

/// One scanning step stamps its token with a line no earlier than the
/// current one, leaves the counter on that line, and moves the cursor
/// strictly forward (for every token but the final `End`) while staying
/// inside the text.
pub proof fn lemma_next_step_advance(s: Seq<u8>, pos: int, line: int)
    requires
        0 <= pos,
    ensures
        match next_step(s, pos, line) {
            LexStep::Token { t, tline, pos: p2, line: l2 } => {
                &&& line <= tline
                &&& l2 == tline
                &&& (t is End ==> p2 == s.len())
                &&& (!(t is End) ==> pos < p2 <= s.len())
            },
            LexStep::Fail { kind, line: lf } => line <= lf,
        },
{
    lemma_skip_trivia_bounds(s, pos, line);
    let (p, l) = skip_trivia(s, pos, line);
    if p < s.len() {
        let c = s[p];
        if is_ident_start(c) {
            lemma_ident_end_bounds(s, p + 1);
        } else if is_digit(c) {
            lemma_digits_end_bounds(s, p);
            let j = digits_end(s, p);
            assert(digits_end(s, p) == digits_end(s, p + 1));
            lemma_digits_end_bounds(s, p + 1);
            if j < s.len() && s[j] == C_DOT && j + 1 < s.len() && is_digit(s[j + 1]) {
                lemma_digits_end_bounds(s, j + 1);
                assert(digits_end(s, j + 1) == digits_end(s, j + 2));
                lemma_digits_end_bounds(s, j + 2);
            }
        } else if c == C_QUOTE {
            lemma_str_end_bounds(s, p + 1);
        }
    }
}

/// What holds of every scan, from any starting state: the token lines never
/// decrease and never fall below the starting line; on success the sequence
/// is closed by exactly one `End` sentinel, its last element; on failure no
/// `End` was produced at all.
pub proof fn lemma_lex_wf(s: Seq<u8>, pos: int, line: int)
    requires
        0 <= pos,
    ensures
        ({
            let (ts, e) = spec_lex(s, pos, line);
            &&& (e is None ==> ts.len() >= 1 && ts[ts.len() - 1].0 is End)
            &&& (e is None ==> forall|i: int| 0 <= i < ts.len() - 1 ==> !((#[trigger] ts[i]).0 is End))
            &&& (e is Some ==> forall|i: int| 0 <= i < ts.len() ==> !((#[trigger] ts[i]).0 is End))
            &&& (forall|i: int| 0 <= i < ts.len() ==> line <= (#[trigger] ts[i]).1)
            &&& (forall|i: int, j: int|
                0 <= i <= j < ts.len() ==> (#[trigger] ts[i]).1 <= (#[trigger] ts[j]).1)
        }),
    decreases s.len() - pos,
{
    lemma_next_step_advance(s, pos, line);
    let (ts, e) = spec_lex(s, pos, line);
    match next_step(s, pos, line) {
        LexStep::Fail { kind, line: lf } => {},
        LexStep::Token { t, tline, pos: p2, line: l2 } => {
            if t is End {
            } else {
                lemma_lex_wf(s, p2, l2);
                let (rest, e2) = spec_lex(s, p2, l2);
                assert(ts == seq![(t, tline)] + rest);
                assert(forall|i: int| 0 <= i < rest.len() ==> ts[i + 1] == rest[i]);
                assert(ts[0] == (t, tline));
            }
        },
    }
}

/// Scanning is deterministic: identical source text yields an identical
/// token sequence and outcome. Together with the contract of `tokenize`,
/// which pins its result to `spec_lex` alone, any two scans of equal input
/// agree.
pub proof fn lemma_lex_deterministic(s1: Seq<u8>, s2: Seq<u8>)
    requires
        s1 == s2,
    ensures
        spec_lex(s1, 0, 1) == spec_lex(s2, 0, 1),
{
}

/// The fixed lexeme of a token whose spelling the language fixes: keywords,
/// boolean literals, operators and punctuation. Identifiers and the other
/// literals carry their own text; `End` has no lexeme.
pub open spec fn fixed_lexeme(t: Tok) -> Option<Seq<u8>> {
    match t {
        Tok::Var => Option::Some(kw_var()),
        Tok::If => Option::Some(kw_if()),
        Tok::Else => Option::Some(kw_else()),
        Tok::While => Option::Some(kw_while()),
        Tok::Print => Option::Some(kw_print()),
        Tok::BoolLit(b) => Option::Some(if b { kw_true() } else { kw_false() }),
        Tok::Assign => Option::Some(seq![C_EQ]),
        Tok::Plus => Option::Some(seq![C_PLUS]),
        Tok::Minus => Option::Some(seq![C_MINUS]),
        Tok::Star => Option::Some(seq![C_STAR]),
        Tok::Slash => Option::Some(seq![C_SLASH]),
        Tok::EqEq => Option::Some(seq![C_EQ, C_EQ]),
        Tok::NotEq => Option::Some(seq![C_BANG, C_EQ]),
        Tok::Lt => Option::Some(seq![C_LT]),
        Tok::Gt => Option::Some(seq![C_GT]),
        Tok::Le => Option::Some(seq![C_LT, C_EQ]),
        Tok::Ge => Option::Some(seq![C_GT, C_EQ]),
        Tok::AndAnd => Option::Some(seq![C_AMP, C_AMP]),
        Tok::OrOr => Option::Some(seq![C_PIPE, C_PIPE]),
        Tok::Not => Option::Some(seq![C_BANG]),
        Tok::LParen => Option::Some(seq![C_LP]),
        Tok::RParen => Option::Some(seq![C_RP]),
        Tok::LBrace => Option::Some(seq![C_LBR]),
        Tok::RBrace => Option::Some(seq![C_RBR]),
        Tok::Semi => Option::Some(seq![C_SEMI]),
        _ => Option::None,
    }
}

/// Round trip for every token with a fixed lexeme: re-scanning exactly that
/// lexeme reproduces the token — same category, same value — followed by the
/// `End` sentinel, on line 1.
proof fn rt_var()
    ensures
        spec_lex(kw_var(), 0, 1).0 == seq![(Tok::Var, 1int), (Tok::End, 1int)],
        spec_lex(kw_var(), 0, 1).1 is None,
{
    let s1 = kw_var();
    reveal_with_fuel(ident_end, 5);
    reveal_with_fuel(skip_trivia, 2);
    reveal_with_fuel(spec_lex, 3);
    assert(s1.subrange(0, 3) =~= kw_var());
    assert(spec_lex(s1, 0, 1).0 =~= seq![(Tok::Var, 1int), (Tok::End, 1int)]);
}

proof fn rt_if()
    ensures
        spec_lex(kw_if(), 0, 1).0 == seq![(Tok::If, 1int), (Tok::End, 1int)],
        spec_lex(kw_if(), 0, 1).1 is None,
{
    let s1 = kw_if();
    reveal_with_fuel(ident_end, 4);
    reveal_with_fuel(skip_trivia, 2);
    reveal_with_fuel(spec_lex, 3);
    assert(s1.subrange(0, 2) =~= kw_if());
    assert(spec_lex(s1, 0, 1).0 =~= seq![(Tok::If, 1int), (Tok::End, 1int)]);
}

proof fn rt_else()
    ensures
        spec_lex(kw_else(), 0, 1).0 == seq![(Tok::Else, 1int), (Tok::End, 1int)],
        spec_lex(kw_else(), 0, 1).1 is None,
{
    let s1 = kw_else();
    reveal_with_fuel(ident_end, 6);
    reveal_with_fuel(skip_trivia, 2);
    reveal_with_fuel(spec_lex, 3);
    assert(s1.subrange(0, 4) =~= kw_else());
    assert(spec_lex(s1, 0, 1).0 =~= seq![(Tok::Else, 1int), (Tok::End, 1int)]);
}

proof fn rt_while()
    ensures
        spec_lex(kw_while(), 0, 1).0 == seq![(Tok::While, 1int), (Tok::End, 1int)],
        spec_lex(kw_while(), 0, 1).1 is None,
{
    let s1 = kw_while();
    reveal_with_fuel(ident_end, 7);
    reveal_with_fuel(skip_trivia, 2);
    reveal_with_fuel(spec_lex, 3);
    assert(s1.subrange(0, 5) =~= kw_while());
    assert(spec_lex(s1, 0, 1).0 =~= seq![(Tok::While, 1int), (Tok::End, 1int)]);
}

proof fn rt_print()
    ensures
        spec_lex(kw_print(), 0, 1).0 == seq![(Tok::Print, 1int), (Tok::End, 1int)],
        spec_lex(kw_print(), 0, 1).1 is None,
{
    let s1 = kw_print();
    reveal_with_fuel(ident_end, 7);
    reveal_with_fuel(skip_trivia, 2);
    reveal_with_fuel(spec_lex, 3);
    assert(s1.subrange(0, 5) =~= kw_print());
    assert(spec_lex(s1, 0, 1).0 =~= seq![(Tok::Print, 1int), (Tok::End, 1int)]);
}

proof fn rt_true()
    ensures
        spec_lex(kw_true(), 0, 1).0 == seq![(Tok::BoolLit(true), 1int), (Tok::End, 1int)],
        spec_lex(kw_true(), 0, 1).1 is None,
{
    let s1 = kw_true();
    reveal_with_fuel(ident_end, 6);
    reveal_with_fuel(skip_trivia, 2);
    reveal_with_fuel(spec_lex, 3);
    assert(s1.subrange(0, 4) =~= kw_true());
    assert(spec_lex(s1, 0, 1).0 =~= seq![(Tok::BoolLit(true), 1int), (Tok::End, 1int)]);
}

proof fn rt_false()
    ensures
        spec_lex(kw_false(), 0, 1).0 == seq![(Tok::BoolLit(false), 1int), (Tok::End, 1int)],
        spec_lex(kw_false(), 0, 1).1 is None,
{
    let s1 = kw_false();
    reveal_with_fuel(ident_end, 7);
    reveal_with_fuel(skip_trivia, 2);
    reveal_with_fuel(spec_lex, 3);
    assert(s1.subrange(0, 5) =~= kw_false());
    assert(spec_lex(s1, 0, 1).0 =~= seq![(Tok::BoolLit(false), 1int), (Tok::End, 1int)]);
}

proof fn rt_assign()
    ensures
        spec_lex(seq![C_EQ], 0, 1).0 == seq![(Tok::Assign, 1int), (Tok::End, 1int)],
        spec_lex(seq![C_EQ], 0, 1).1 is None,
{
    let s1 = seq![C_EQ];
    reveal_with_fuel(skip_trivia, 2);
    reveal_with_fuel(spec_lex, 3);
    assert(spec_lex(s1, 0, 1).0 =~= seq![(Tok::Assign, 1int), (Tok::End, 1int)]);
}

proof fn rt_plus()
    ensures
        spec_lex(seq![C_PLUS], 0, 1).0 == seq![(Tok::Plus, 1int), (Tok::End, 1int)],
        spec_lex(seq![C_PLUS], 0, 1).1 is None,
{
    let s1 = seq![C_PLUS];
    reveal_with_fuel(skip_trivia, 2);
    reveal_with_fuel(spec_lex, 3);
    assert(spec_lex(s1, 0, 1).0 =~= seq![(Tok::Plus, 1int), (Tok::End, 1int)]);
}

proof fn rt_minus()
    ensures
        spec_lex(seq![C_MINUS], 0, 1).0 == seq![(Tok::Minus, 1int), (Tok::End, 1int)],
        spec_lex(seq![C_MINUS], 0, 1).1 is None,
{
    let s1 = seq![C_MINUS];
    reveal_with_fuel(skip_trivia, 2);
    reveal_with_fuel(spec_lex, 3);
    assert(spec_lex(s1, 0, 1).0 =~= seq![(Tok::Minus, 1int), (Tok::End, 1int)]);
}

proof fn rt_star()
    ensures
        spec_lex(seq![C_STAR], 0, 1).0 == seq![(Tok::Star, 1int), (Tok::End, 1int)],
        spec_lex(seq![C_STAR], 0, 1).1 is None,
{
    let s1 = seq![C_STAR];
    reveal_with_fuel(skip_trivia, 2);
    reveal_with_fuel(spec_lex, 3);
    assert(spec_lex(s1, 0, 1).0 =~= seq![(Tok::Star, 1int), (Tok::End, 1int)]);
}

proof fn rt_slash()
    ensures
        spec_lex(seq![C_SLASH], 0, 1).0 == seq![(Tok::Slash, 1int), (Tok::End, 1int)],
        spec_lex(seq![C_SLASH], 0, 1).1 is None,
{
    let s1 = seq![C_SLASH];
    reveal_with_fuel(skip_trivia, 2);
    reveal_with_fuel(spec_lex, 3);
    assert(spec_lex(s1, 0, 1).0 =~= seq![(Tok::Slash, 1int), (Tok::End, 1int)]);
}

proof fn rt_eqeq()
    ensures
        spec_lex(seq![C_EQ, C_EQ], 0, 1).0 == seq![(Tok::EqEq, 1int), (Tok::End, 1int)],
        spec_lex(seq![C_EQ, C_EQ], 0, 1).1 is None,
{
    let s1 = seq![C_EQ, C_EQ];
    reveal_with_fuel(skip_trivia, 2);
    reveal_with_fuel(spec_lex, 3);
    assert(spec_lex(s1, 0, 1).0 =~= seq![(Tok::EqEq, 1int), (Tok::End, 1int)]);
}

proof fn rt_noteq()
    ensures
        spec_lex(seq![C_BANG, C_EQ], 0, 1).0 == seq![(Tok::NotEq, 1int), (Tok::End, 1int)],
        spec_lex(seq![C_BANG, C_EQ], 0, 1).1 is None,
{
    let s1 = seq![C_BANG, C_EQ];
    reveal_with_fuel(skip_trivia, 2);
    reveal_with_fuel(spec_lex, 3);
    assert(spec_lex(s1, 0, 1).0 =~= seq![(Tok::NotEq, 1int), (Tok::End, 1int)]);
}

proof fn rt_lt()
    ensures
        spec_lex(seq![C_LT], 0, 1).0 == seq![(Tok::Lt, 1int), (Tok::End, 1int)],
        spec_lex(seq![C_LT], 0, 1).1 is None,
{
    let s1 = seq![C_LT];
    reveal_with_fuel(skip_trivia, 2);
    reveal_with_fuel(spec_lex, 3);
    assert(spec_lex(s1, 0, 1).0 =~= seq![(Tok::Lt, 1int), (Tok::End, 1int)]);
}

proof fn rt_gt()
    ensures
        spec_lex(seq![C_GT], 0, 1).0 == seq![(Tok::Gt, 1int), (Tok::End, 1int)],
        spec_lex(seq![C_GT], 0, 1).1 is None,
{
    let s1 = seq![C_GT];
    reveal_with_fuel(skip_trivia, 2);
    reveal_with_fuel(spec_lex, 3);
    assert(spec_lex(s1, 0, 1).0 =~= seq![(Tok::Gt, 1int), (Tok::End, 1int)]);
}

proof fn rt_le()
    ensures
        spec_lex(seq![C_LT, C_EQ], 0, 1).0 == seq![(Tok::Le, 1int), (Tok::End, 1int)],
        spec_lex(seq![C_LT, C_EQ], 0, 1).1 is None,
{
    let s1 = seq![C_LT, C_EQ];
    reveal_with_fuel(skip_trivia, 2);
    reveal_with_fuel(spec_lex, 3);
    assert(spec_lex(s1, 0, 1).0 =~= seq![(Tok::Le, 1int), (Tok::End, 1int)]);
}

proof fn rt_ge()
    ensures
        spec_lex(seq![C_GT, C_EQ], 0, 1).0 == seq![(Tok::Ge, 1int), (Tok::End, 1int)],
        spec_lex(seq![C_GT, C_EQ], 0, 1).1 is None,
{
    let s1 = seq![C_GT, C_EQ];
    reveal_with_fuel(skip_trivia, 2);
    reveal_with_fuel(spec_lex, 3);
    assert(spec_lex(s1, 0, 1).0 =~= seq![(Tok::Ge, 1int), (Tok::End, 1int)]);
}

proof fn rt_andand()
    ensures
        spec_lex(seq![C_AMP, C_AMP], 0, 1).0 == seq![(Tok::AndAnd, 1int), (Tok::End, 1int)],
        spec_lex(seq![C_AMP, C_AMP], 0, 1).1 is None,
{
    let s1 = seq![C_AMP, C_AMP];
    reveal_with_fuel(skip_trivia, 2);
    reveal_with_fuel(spec_lex, 3);
    assert(spec_lex(s1, 0, 1).0 =~= seq![(Tok::AndAnd, 1int), (Tok::End, 1int)]);
}

proof fn rt_oror()
    ensures
        spec_lex(seq![C_PIPE, C_PIPE], 0, 1).0 == seq![(Tok::OrOr, 1int), (Tok::End, 1int)],
        spec_lex(seq![C_PIPE, C_PIPE], 0, 1).1 is None,
{
    let s1 = seq![C_PIPE, C_PIPE];
    reveal_with_fuel(skip_trivia, 2);
    reveal_with_fuel(spec_lex, 3);
    assert(spec_lex(s1, 0, 1).0 =~= seq![(Tok::OrOr, 1int), (Tok::End, 1int)]);
}

proof fn rt_not()
    ensures
        spec_lex(seq![C_BANG], 0, 1).0 == seq![(Tok::Not, 1int), (Tok::End, 1int)],
        spec_lex(seq![C_BANG], 0, 1).1 is None,
{
    let s1 = seq![C_BANG];
    reveal_with_fuel(skip_trivia, 2);
    reveal_with_fuel(spec_lex, 3);
    assert(spec_lex(s1, 0, 1).0 =~= seq![(Tok::Not, 1int), (Tok::End, 1int)]);
}

proof fn rt_lparen()
    ensures
        spec_lex(seq![C_LP], 0, 1).0 == seq![(Tok::LParen, 1int), (Tok::End, 1int)],
        spec_lex(seq![C_LP], 0, 1).1 is None,
{
    let s1 = seq![C_LP];
    reveal_with_fuel(skip_trivia, 2);
    reveal_with_fuel(spec_lex, 3);
    assert(spec_lex(s1, 0, 1).0 =~= seq![(Tok::LParen, 1int), (Tok::End, 1int)]);
}

proof fn rt_rparen()
    ensures
        spec_lex(seq![C_RP], 0, 1).0 == seq![(Tok::RParen, 1int), (Tok::End, 1int)],
        spec_lex(seq![C_RP], 0, 1).1 is None,
{
    let s1 = seq![C_RP];
    reveal_with_fuel(skip_trivia, 2);
    reveal_with_fuel(spec_lex, 3);
    assert(spec_lex(s1, 0, 1).0 =~= seq![(Tok::RParen, 1int), (Tok::End, 1int)]);
}

proof fn rt_lbrace()
    ensures
        spec_lex(seq![C_LBR], 0, 1).0 == seq![(Tok::LBrace, 1int), (Tok::End, 1int)],
        spec_lex(seq![C_LBR], 0, 1).1 is None,
{
    let s1 = seq![C_LBR];
    reveal_with_fuel(skip_trivia, 2);
    reveal_with_fuel(spec_lex, 3);
    assert(spec_lex(s1, 0, 1).0 =~= seq![(Tok::LBrace, 1int), (Tok::End, 1int)]);
}

proof fn rt_rbrace()
    ensures
        spec_lex(seq![C_RBR], 0, 1).0 == seq![(Tok::RBrace, 1int), (Tok::End, 1int)],
        spec_lex(seq![C_RBR], 0, 1).1 is None,
{
    let s1 = seq![C_RBR];
    reveal_with_fuel(skip_trivia, 2);
    reveal_with_fuel(spec_lex, 3);
    assert(spec_lex(s1, 0, 1).0 =~= seq![(Tok::RBrace, 1int), (Tok::End, 1int)]);
}

proof fn rt_semi()
    ensures
        spec_lex(seq![C_SEMI], 0, 1).0 == seq![(Tok::Semi, 1int), (Tok::End, 1int)],
        spec_lex(seq![C_SEMI], 0, 1).1 is None,
{
    let s1 = seq![C_SEMI];
    reveal_with_fuel(skip_trivia, 2);
    reveal_with_fuel(spec_lex, 3);
    assert(spec_lex(s1, 0, 1).0 =~= seq![(Tok::Semi, 1int), (Tok::End, 1int)]);
}

#[verifier::spinoff_prover]
pub proof fn lemma_fixed_lexeme_round_trip(t: Tok)
    requires
        fixed_lexeme(t) is Some,
    ensures
        spec_lex(fixed_lexeme(t).unwrap(), 0, 1).0 == seq![(t, 1int), (Tok::End, 1int)],
        spec_lex(fixed_lexeme(t).unwrap(), 0, 1).1 is None,
{
    match t {
        Tok::Var => { rt_var(); },
        Tok::If => { rt_if(); },
        Tok::Else => { rt_else(); },
        Tok::While => { rt_while(); },
        Tok::Print => { rt_print(); },
        Tok::BoolLit(b) => { if b { rt_true(); } else { rt_false(); } },
        Tok::Assign => { rt_assign(); },
        Tok::Plus => { rt_plus(); },
        Tok::Minus => { rt_minus(); },
        Tok::Star => { rt_star(); },
        Tok::Slash => { rt_slash(); },
        Tok::EqEq => { rt_eqeq(); },
        Tok::NotEq => { rt_noteq(); },
        Tok::Lt => { rt_lt(); },
        Tok::Gt => { rt_gt(); },
        Tok::Le => { rt_le(); },
        Tok::Ge => { rt_ge(); },
        Tok::AndAnd => { rt_andand(); },
        Tok::OrOr => { rt_oror(); },
        Tok::Not => { rt_not(); },
        Tok::LParen => { rt_lparen(); },
        Tok::RParen => { rt_rparen(); },
        Tok::LBrace => { rt_lbrace(); },
        Tok::RBrace => { rt_rbrace(); },
        Tok::Semi => { rt_semi(); },
        _ => {},
    }
}

/// A run made only of identifier-continuation characters ends at `j`.
proof fn lemma_ident_end_full(s: Seq<u8>, i: int, j: int)
    requires
        0 <= i <= j <= s.len(),
        forall|k: int| i <= k < j ==> is_ident_cont(#[trigger] s[k]),
        j == s.len() || !is_ident_cont(s[j]),
    ensures
        ident_end(s, i) == j,
    decreases j - i,
{
    if i < j {
        lemma_ident_end_full(s, i + 1, j);
    }
}

/// A run made only of digits ends at `j`.
proof fn lemma_digits_end_full(s: Seq<u8>, i: int, j: int)
    requires
        0 <= i <= j <= s.len(),
        forall|k: int| i <= k < j ==> is_digit(#[trigger] s[k]),
        j == s.len() || !is_digit(s[j]),
    ensures
        digits_end(s, i) == j,
    decreases j - i,
{
    if i < j {
        lemma_digits_end_full(s, i + 1, j);
    }
}

/// Round trip for identifiers, whose token carries its lexeme: re-scanning
/// exactly the characters of a valid identifier name that is no reserved
/// word reproduces the identifier token, then the `End` sentinel.
pub proof fn lemma_ident_round_trip(name: Seq<u8>)
    requires
        name.len() >= 1,
        is_ident_start(name[0]),
        forall|k: int| 0 <= k < name.len() ==> is_ident_cont(#[trigger] name[k]),
        classify_word(name) == Tok::Ident(name),
    ensures
        spec_lex(name, 0, 1).0 == seq![(Tok::Ident(name), 1int), (Tok::End, 1int)],
        spec_lex(name, 0, 1).1 is None,
{
    reveal_with_fuel(spec_lex, 3);
    reveal_with_fuel(skip_trivia, 2);
    lemma_ident_end_full(name, 1, name.len() as int);
    assert(name.subrange(0, name.len() as int) =~= name);
    assert(spec_lex(name, 0, 1).0 =~= seq![(Tok::Ident(name), 1int), (Tok::End, 1int)]);
}

/// Round trip for integer literals: re-scanning a digit run of at most 19
/// digits reproduces the integer token carrying the run's decoded value,
/// then the `End` sentinel.
pub proof fn lemma_int_round_trip(digits: Seq<u8>)
    requires
        1 <= digits.len() <= 19,
        forall|k: int| 0 <= k < digits.len() ==> is_digit(#[trigger] digits[k]),
    ensures
        spec_lex(digits, 0, 1).0 == seq![
            (Tok::IntLit(digits_val(digits, 0, digits.len() as int) as u64), 1int),
            (Tok::End, 1int),
        ],
        spec_lex(digits, 0, 1).1 is None,
{
    reveal_with_fuel(spec_lex, 3);
    reveal_with_fuel(skip_trivia, 2);
    lemma_digits_end_full(digits, 0, digits.len() as int);
    assert(spec_lex(digits, 0, 1).0 =~= seq![
        (Tok::IntLit(digits_val(digits, 0, digits.len() as int) as u64), 1int),
        (Tok::End, 1int),
    ]);
}

/// A run free of quotes and newlines ends at `j`.
proof fn lemma_str_end_full(s: Seq<u8>, i: int, j: int)
    requires
        0 <= i <= j <= s.len(),
        forall|k: int| i <= k < j ==> (#[trigger] s[k]) != C_QUOTE && s[k] != C_NL,
        j == s.len() || s[j] == C_QUOTE || s[j] == C_NL,
    ensures
        str_end(s, i) == j,
    decreases j - i,
{
    if i < j {
        lemma_str_end_full(s, i + 1, j);
    }
}

/// Round trip for string literals, whose token carries its decoded
/// contents: re-scanning the quoted lexeme reproduces the string token,
/// then the `End` sentinel.
pub proof fn lemma_string_round_trip(content: Seq<u8>)
    requires
        forall|k: int|
            0 <= k < content.len() ==> (#[trigger] content[k]) != C_QUOTE && content[k] != C_NL,
    ensures
        spec_lex(seq![C_QUOTE] + content + seq![C_QUOTE], 0, 1).0 == seq![
            (Tok::StrLit(content), 1int),
            (Tok::End, 1int),
        ],
        spec_lex(seq![C_QUOTE] + content + seq![C_QUOTE], 0, 1).1 is None,
{
    reveal_with_fuel(spec_lex, 3);
    reveal_with_fuel(skip_trivia, 2);
    let lexeme = seq![C_QUOTE] + content + seq![C_QUOTE];
    assert(lexeme.len() == content.len() + 2);
    assert(lexeme[0] == C_QUOTE);
    assert(lexeme[lexeme.len() - 1] == C_QUOTE);
    assert(forall|k: int|
        1 <= k < lexeme.len() - 1 ==> (#[trigger] lexeme[k]) == content[k - 1]);
    lemma_str_end_full(lexeme, 1, lexeme.len() - 1);
    assert(lexeme.subrange(1, lexeme.len() - 1) =~= content);
    assert(spec_lex(lexeme, 0, 1).0 =~= seq![(Tok::StrLit(content), 1int), (Tok::End, 1int)]);
}

} // verus!
