//! The lexer: one left-to-right pass over the characters of the source text,
//! producing a flat token sequence or a structured error.
//!
//! Behaviour, stated by [`lex_from`]:
//! - whitespace is skipped, never tokenized;
//! - a decimal digit merges into the most recently emitted token when that
//!   token is a `NUMBER` (so consecutive digits accumulate one value),
//!   otherwise it starts a new `NUMBER`;
//! - `(` records the current nesting depth and then deepens it; `)` shallows
//!   the depth and then records it, so a matching pair carries equal depths.
//!   The depth is informational only; an unmatched `(` is left for the parser
//!   to reject, while a `)` with nothing open fails here, since the depth
//!   cannot drop below zero;
//! - `+ - * /` become operator tokens; anything else is an error naming the
//!   character and its 0-based position.
//!
//! A numeric literal whose value would not fit the 64-bit token payload is
//! rejected rather than silently wrapped.

use vstd::prelude::*;

use crate::token::{LexError, Lexeme, LexemeKind};

verus! {

/// The characters the lexer skips: the Unicode white-space code points.
pub open spec fn is_whitespace_char(c: char) -> bool {
    ||| ('\u{09}' <= c && c <= '\u{0D}')
    ||| c == ' '
    ||| c == '\u{85}'
    ||| c == '\u{A0}'
    ||| c == '\u{1680}'
    ||| ('\u{2000}' <= c && c <= '\u{200A}')
    ||| c == '\u{2028}'
    ||| c == '\u{2029}'
    ||| c == '\u{202F}'
    ||| c == '\u{205F}'
    ||| c == '\u{3000}'
}

/// The ten decimal digits.
pub open spec fn is_digit_char(c: char) -> bool {
    '0' <= c && c <= '9'
}

/// The numeric value of a decimal digit character.
pub open spec fn digit_value(c: char) -> int {
    c as u32 - '0' as u32
}

/// The state of the scan after reading `src` from position `i` on, having
/// already emitted `toks` with `depth` parentheses open: the tokens emitted
/// so far and, if the scan failed, its error. On failure the tokens are
/// whatever had been emitted before the offending character.
pub open spec fn lex_from(src: Seq<char>, i: int, depth: int, toks: Seq<Lexeme>) -> (Seq<
    Lexeme,
>, Option<LexError>)
    decreases src.len() - i,
{
    if !(0 <= i < src.len()) {
        (toks, None)
    } else {
        let c = src[i];
        if is_whitespace_char(c) {
            lex_from(src, i + 1, depth, toks)
        } else if is_digit_char(c) {
            if toks.len() > 0 && toks.last().kind == LexemeKind::NUMBER {
                let merged = toks.last().integral_value * 10 + digit_value(c);
                if merged <= u64::MAX {
                    lex_from(
                        src,
                        i + 1,
                        depth,
                        toks.update(
                            toks.len() - 1,
                            Lexeme { integral_value: merged as u64, kind: LexemeKind::NUMBER },
                        ),
                    )
                } else {
                    (toks, Some(LexError::NumberTooLarge { position: i as usize }))
                }
            } else {
                lex_from(
                    src,
                    i + 1,
                    depth,
                    toks.push(
                        Lexeme { integral_value: digit_value(c) as u64, kind: LexemeKind::NUMBER },
                    ),
                )
            }
        } else if c == '(' {
            lex_from(
                src,
                i + 1,
                depth + 1,
                toks.push(Lexeme { integral_value: depth as u64, kind: LexemeKind::LPAREN }),
            )
        } else if c == ')' {
            if depth <= 0 {
                (toks, Some(LexError::UnmatchedCloseParen { position: i as usize }))
            } else {
                lex_from(
                    src,
                    i + 1,
                    depth - 1,
                    toks.push(
                        Lexeme { integral_value: (depth - 1) as u64, kind: LexemeKind::RPAREN },
                    ),
                )
            }
        } else if c == '+' {
            lex_from(
                src,
                i + 1,
                depth,
                toks.push(Lexeme { integral_value: 0, kind: LexemeKind::PLUS }),
            )
        } else if c == '-' {
            lex_from(
                src,
                i + 1,
                depth,
                toks.push(Lexeme { integral_value: 0, kind: LexemeKind::MINUS }),
            )
        } else if c == '*' {
            lex_from(
                src,
                i + 1,
                depth,
                toks.push(Lexeme { integral_value: 0, kind: LexemeKind::MUL }),
            )
        } else if c == '/' {
            lex_from(
                src,
                i + 1,
                depth,
                toks.push(Lexeme { integral_value: 0, kind: LexemeKind::DIV }),
            )
        } else {
            (toks, Some(LexError::UnexpectedChar { ch: c, position: i as usize }))
        }
    }
}

/// What tokenizing a whole text from scratch yields: the token sequence, or
/// the first error. All-or-nothing: no tokens accompany an error.
pub open spec fn lex_spec(src: Seq<char>) -> Result<Seq<Lexeme>, LexError> {
    let (toks, err) = lex_from(src, 0, 0, Seq::empty());
    match err {
        None => Ok(toks),
        Some(e) => Err(e),
    }
}

/// Whether `c` is skipped by the lexer.
fn is_space(c: char) -> (r: bool)
    ensures
        r == is_whitespace_char(c),
{
    ('\u{09}' <= c && c <= '\u{0D}') || c == ' ' || c == '\u{85}' || c == '\u{A0}' || c
        == '\u{1680}' || ('\u{2000}' <= c && c <= '\u{200A}') || c == '\u{2028}' || c == '\u{2029}'
        || c == '\u{202F}' || c == '\u{205F}' || c == '\u{3000}'
}

/// Whether `c` is a decimal digit.
fn is_digit(c: char) -> (r: bool)
    ensures
        r == is_digit_char(c),
{
    '0' <= c && c <= '9'
}

/// The value of a decimal digit character.
fn digit_of(c: char) -> (r: u64)
    requires
        is_digit_char(c),
    ensures
        r as int == digit_value(c),
{
    (c as u32 - '0' as u32) as u64
}

/// The lexer. `lexemes` is its output buffer: a run of [`Lexer::lex`] scans
/// one source text and appends its tokens here, merging a leading digit into
/// a trailing `NUMBER` left by an earlier run, exactly as [`lex_from`] says.
pub struct Lexer {
    pub lexemes: Vec<Lexeme>,
}

impl Lexer {
    /// Scans `source` left to right, appending tokens to `self.lexemes`.
    /// Returns `None` on success; on the first offending character it stops,
    /// returns its error, and leaves the tokens emitted up to that point.
    pub fn lex(&mut self, source: &str) -> (r: Option<LexError>)
        ensures
            ({
                let (toks, err) = lex_from(source@, 0, 0, old(self).lexemes@);
                final(self).lexemes@ == toks && r == err
            }),
    {
        let mut paren_depth: u64 = 0;
        let n = source.unicode_len();
        let mut i: usize = 0;
        while i < n
            invariant
                n == source@.len(),
                i <= n,
                paren_depth <= i,
                lex_from(source@, i as int, paren_depth as int, self.lexemes@) == lex_from(
                    source@,
                    0,
                    0,
                    old(self).lexemes@,
                ),
            decreases n - i,
        {
            let c = source.get_char(i);
            if is_space(c) {
                // skipped
            } else if is_digit(c) {
                let d = digit_of(c);
                let len = self.lexemes.len();
                if len > 0 && self.lexemes[len - 1].kind == LexemeKind::NUMBER {
                    let ghost pre: Seq<Lexeme> = self.lexemes@;
                    let last = self.lexemes[len - 1];
                    let merged = match last.integral_value.checked_mul(10) {
                        Some(m) => m.checked_add(d),
                        None => None,
                    };
                    match merged {
                        Some(v) => {
                            self.lexemes.pop();
                            self.lexemes.push(
                                Lexeme { integral_value: v, kind: LexemeKind::NUMBER },
                            );
                            proof {
                                assert(self.lexemes@ =~= pre.update(
                                    len - 1,
                                    Lexeme { integral_value: v, kind: LexemeKind::NUMBER },
                                ));
                            }
                        },
                        None => {
                            return Some(LexError::NumberTooLarge { position: i });
                        },
                    }
                } else {
                    self.lexemes.push(Lexeme { integral_value: d, kind: LexemeKind::NUMBER });
                }
            } else if c == '(' {
                self.lexemes.push(
                    Lexeme { integral_value: paren_depth, kind: LexemeKind::LPAREN },
                );
                paren_depth = paren_depth + 1;
            } else if c == ')' {
                if paren_depth == 0 {
                    return Some(LexError::UnmatchedCloseParen { position: i });
                }
                paren_depth = paren_depth - 1;
                self.lexemes.push(Lexeme { integral_value: paren_depth, kind: LexemeKind::RPAREN });
            } else if c == '+' {
                self.lexemes.push(Lexeme { integral_value: 0, kind: LexemeKind::PLUS });
            } else if c == '-' {
                self.lexemes.push(Lexeme { integral_value: 0, kind: LexemeKind::MINUS });
            } else if c == '*' {
                self.lexemes.push(Lexeme { integral_value: 0, kind: LexemeKind::MUL });
            } else if c == '/' {
                self.lexemes.push(Lexeme { integral_value: 0, kind: LexemeKind::DIV });
            } else {
                return Some(LexError::UnexpectedChar { ch: c, position: i });
            }
            i = i + 1;
        }
        None
    }
}

/// The value of the decimal digits of `ds` from position `i` on, read left
/// to right into an accumulator that starts at `acc`.
pub open spec fn decimal_value_from(ds: Seq<char>, i: int, acc: int) -> int
    decreases ds.len() - i,
{
    if !(0 <= i < ds.len()) {
        acc
    } else {
        decimal_value_from(ds, i + 1, acc * 10 + digit_value(ds[i]))
    }
}

/// The value of a string of decimal digits.
pub open spec fn decimal_value(ds: Seq<char>) -> int {
    decimal_value_from(ds, 0, 0)
}

proof fn lemma_decimal_value_from_lower_bound(ds: Seq<char>, i: int, acc: int)
    requires
        forall|k: int| i <= k < ds.len() ==> is_digit_char(ds[k]),
        acc >= 0,
    ensures
        decimal_value_from(ds, i, acc) >= acc,
    decreases ds.len() - i,
{
    if 0 <= i < ds.len() {
        lemma_decimal_value_from_lower_bound(ds, i + 1, acc * 10 + digit_value(ds[i]));
    }
}

proof fn lemma_lex_digits_extend(src: Seq<char>, i: int, depth: int, toks: Seq<Lexeme>)
    requires
        0 <= i <= src.len(),
        forall|k: int| i <= k < src.len() ==> is_digit_char(src[k]),
        toks.len() > 0,
        toks.last().kind == LexemeKind::NUMBER,
        decimal_value_from(src, i, toks.last().integral_value as int) <= u64::MAX,
    ensures
        lex_from(src, i, depth, toks) == (
            toks.update(
                toks.len() - 1,
                Lexeme {
                    integral_value: decimal_value_from(
                        src,
                        i,
                        toks.last().integral_value as int,
                    ) as u64,
                    kind: LexemeKind::NUMBER,
                },
            ),
            None::<LexError>,
        ),
    decreases src.len() - i,
{
    let v = toks.last().integral_value as int;
    if i == src.len() {
        assert(toks.update(
            toks.len() - 1,
            Lexeme { integral_value: v as u64, kind: LexemeKind::NUMBER },
        ) =~= toks);
    } else {
        let c = src[i];
        assert(is_digit_char(c));
        let merged = v * 10 + digit_value(c);
        lemma_decimal_value_from_lower_bound(src, i + 1, merged);
        let toks2 = toks.update(
            toks.len() - 1,
            Lexeme { integral_value: merged as u64, kind: LexemeKind::NUMBER },
        );
        lemma_lex_digits_extend(src, i + 1, depth, toks2);
        assert(toks2.update(
            toks2.len() - 1,
            Lexeme {
                integral_value: decimal_value_from(src, i + 1, merged) as u64,
                kind: LexemeKind::NUMBER,
            },
        ) =~= toks.update(
            toks.len() - 1,
            Lexeme {
                integral_value: decimal_value_from(src, i, v) as u64,
                kind: LexemeKind::NUMBER,
            },
        ));
    }
}

/// Law: a run of consecutive decimal digits — however long — lexes to
/// exactly one `NUMBER` token carrying their combined value, provided that
/// value fits the 64-bit token payload.
pub proof fn lemma_digits_lex_to_one_number(src: Seq<char>)
    requires
        src.len() >= 1,
        forall|k: int| 0 <= k < src.len() ==> is_digit_char(src[k]),
        decimal_value(src) <= u64::MAX,
    ensures
        lex_spec(src) == Ok::<Seq<Lexeme>, LexError>(
            seq![Lexeme { integral_value: decimal_value(src) as u64, kind: LexemeKind::NUMBER }],
        ),
{
    let first = Lexeme { integral_value: digit_value(src[0]) as u64, kind: LexemeKind::NUMBER };
    let toks1 = Seq::<Lexeme>::empty().push(first);
    lemma_lex_digits_extend(src, 1, 0, toks1);
    assert(toks1.update(
        0,
        Lexeme {
            integral_value: decimal_value_from(src, 1, digit_value(src[0])) as u64,
            kind: LexemeKind::NUMBER,
        },
    ) =~= seq![Lexeme { integral_value: decimal_value(src) as u64, kind: LexemeKind::NUMBER }]);
}

proof fn lemma_lex_from_no_nil(src: Seq<char>, i: int, depth: int, toks: Seq<Lexeme>)
    requires
        forall|k: int| 0 <= k < toks.len() ==> toks[k].kind != LexemeKind::Nil,
    ensures
        forall|k: int|
            0 <= k < lex_from(src, i, depth, toks).0.len() ==> lex_from(
                src,
                i,
                depth,
                toks,
            ).0[k].kind != LexemeKind::Nil,
    decreases src.len() - i,
{
    if 0 <= i < src.len() {
        let c = src[i];
        if is_whitespace_char(c) {
            lemma_lex_from_no_nil(src, i + 1, depth, toks);
        } else if is_digit_char(c) {
            if toks.len() > 0 && toks.last().kind == LexemeKind::NUMBER {
                let merged = toks.last().integral_value * 10 + digit_value(c);
                if merged <= u64::MAX {
                    lemma_lex_from_no_nil(
                        src,
                        i + 1,
                        depth,
                        toks.update(
                            toks.len() - 1,
                            Lexeme { integral_value: merged as u64, kind: LexemeKind::NUMBER },
                        ),
                    );
                }
            } else {
                lemma_lex_from_no_nil(
                    src,
                    i + 1,
                    depth,
                    toks.push(
                        Lexeme { integral_value: digit_value(c) as u64, kind: LexemeKind::NUMBER },
                    ),
                );
            }
        } else if c == '(' {
            lemma_lex_from_no_nil(
                src,
                i + 1,
                depth + 1,
                toks.push(Lexeme { integral_value: depth as u64, kind: LexemeKind::LPAREN }),
            );
        } else if c == ')' {
            if depth > 0 {
                lemma_lex_from_no_nil(
                    src,
                    i + 1,
                    depth - 1,
                    toks.push(
                        Lexeme { integral_value: (depth - 1) as u64, kind: LexemeKind::RPAREN },
                    ),
                );
            }
        } else if c == '+' {
            lemma_lex_from_no_nil(
                src,
                i + 1,
                depth,
                toks.push(Lexeme { integral_value: 0, kind: LexemeKind::PLUS }),
            );
        } else if c == '-' {
            lemma_lex_from_no_nil(
                src,
                i + 1,
                depth,
                toks.push(Lexeme { integral_value: 0, kind: LexemeKind::MINUS }),
            );
        } else if c == '*' {
            lemma_lex_from_no_nil(
                src,
                i + 1,
                depth,
                toks.push(Lexeme { integral_value: 0, kind: LexemeKind::MUL }),
            );
        } else if c == '/' {
            lemma_lex_from_no_nil(
                src,
                i + 1,
                depth,
                toks.push(Lexeme { integral_value: 0, kind: LexemeKind::DIV }),
            );
        }
    }
}

/// Invariant of the lexer's output: it never contains the `Nil` sentinel;
/// only the parser appends that, exactly once.
pub proof fn lemma_lex_never_emits_nil(src: Seq<char>)
    ensures
        match lex_spec(src) {
            Ok(toks) => forall|k: int| 0 <= k < toks.len() ==> toks[k].kind != LexemeKind::Nil,
            Err(_) => true,
        },
{
    lemma_lex_from_no_nil(src, 0, 0, Seq::<Lexeme>::empty());
}

/// Tokenizes a whole source text: the pure text-to-tokens interface.
/// All-or-nothing: an error comes with no tokens at all.
pub fn tokenize(source: &str) -> (r: Result<Vec<Lexeme>, LexError>)
    ensures
        match r {
            Ok(toks) => lex_spec(source@) == Ok::<Seq<Lexeme>, LexError>(toks@),
            Err(e) => lex_spec(source@) == Err::<Seq<Lexeme>, LexError>(e),
        },
{
    let mut lexer = Lexer { lexemes: Vec::new() };
    match lexer.lex(source) {
        None => Ok(lexer.lexemes),
        Some(e) => Err(e),
    }
}

} // verus!
