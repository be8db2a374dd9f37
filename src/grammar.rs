//! What a macro string expands to: the escape grammar and the label
//! transforms, stated over sequences of characters.

use vstd::prelude::*;
use vstd::utf8::encode_utf8;

use crate::context::{EvaluationContext, MacroEvaluationError};
use crate::encoding::form_encoded;
use crate::variable::{variable_of, AnyMacroVariable};

verus! {

/// An ASCII letter of either case.
pub open spec fn is_ascii_letter(c: char) -> bool {
    ('a' <= c && c <= 'z') || ('A' <= c && c <= 'Z')
}

/// An ASCII uppercase letter.
pub open spec fn is_ascii_upper(c: char) -> bool {
    'A' <= c && c <= 'Z'
}

/// The byte of a character that is ASCII, as written.
pub open spec fn letter_byte(c: char) -> u8 {
    c as u32 as u8
}

/// The ASCII lowercase form of a byte.
pub open spec fn lower_ascii(b: u8) -> u8 {
    if 0x41 <= b && b <= 0x5a {
        (b + 32) as u8
    } else {
        b
    }
}

/// The lowercase byte of an ASCII letter.
pub open spec fn lower_byte(c: char) -> u8 {
    lower_ascii(letter_byte(c))
}

/// An ASCII decimal digit.
pub open spec fn is_ascii_digit(c: char) -> bool {
    '0' <= c && c <= '9'
}

/// A character that may name a label delimiter in a transform.
pub open spec fn is_delimiter_char(c: char) -> bool {
    c == '.' || c == '-' || c == '+' || c == ',' || c == '/' || c == '_' || c == '='
}

/// The number of consecutive digits in `t` from position `p` on.
pub open spec fn digit_run(t: Seq<char>, p: int) -> nat
    decreases t.len() - p,
{
    if 0 <= p < t.len() && is_ascii_digit(t[p]) {
        1 + digit_run(t, p + 1)
    } else {
        0
    }
}

/// The number of consecutive delimiter characters in `t` from position `p` on.
pub open spec fn delimiter_run(t: Seq<char>, p: int) -> nat
    decreases t.len() - p,
{
    if 0 <= p < t.len() && is_delimiter_char(t[p]) {
        1 + delimiter_run(t, p + 1)
    } else {
        0
    }
}

/// The number written in decimal by the digits `t[p..q]`.
pub open spec fn decimal_value(t: Seq<char>, p: int, q: int) -> nat
    decreases q - p,
{
    if q <= p {
        0
    } else {
        decimal_value(t, p, q - 1) * 10 + (t[q - 1] as u32 - 48) as nat
    }
}

/// One `%` escape, parsed.
pub enum Escape {
    /// Text written as it is: `%%`, `%_` or `%-`.
    Literal(Seq<char>),
    /// A variable reference with its transforms.
    Macro {
        /// The byte of the letter, as written.
        letter: u8,
        /// Whether the letter was uppercase, which asks for URL encoding.
        upper: bool,
        /// How many labels to keep, if bounded.
        count: Option<nat>,
        /// Whether to reverse the labels.
        reverse: bool,
        /// The characters that split the value into labels; none means `.`.
        delimiters: Seq<char>,
    },
}

/// The braced form, from its letter at `q` on: the escape and how many
/// characters it spans from `q`, closing brace included.
pub open spec fn parse_braced(t: Seq<char>, q: int) -> Result<(Escape, nat), MacroEvaluationError> {
    if !(0 <= q < t.len()) || !is_ascii_letter(t[q]) {
        Err(MacroEvaluationError::ParsingSyntaxError)
    } else {
        let d = digit_run(t, q + 1);
        let a = q + 1 + d;
        if a >= t.len() {
            Err(MacroEvaluationError::ParsingSyntaxError)
        } else if d > 0 && decimal_value(t, q + 1, a) > usize::MAX {
            Err(MacroEvaluationError::InvalidTransformCount)
        } else {
            let reverse = t[a] == 'r';
            let b = if reverse { a + 1 } else { a };
            let m = delimiter_run(t, b);
            let e = b + m;
            if e >= t.len() || t[e] != '}' {
                Err(MacroEvaluationError::ParsingSyntaxError)
            } else {
                Ok(
                    (
                        Escape::Macro {
                            letter: letter_byte(t[q]),
                            upper: is_ascii_upper(t[q]),
                            count: if d > 0 { Some(decimal_value(t, q + 1, a)) } else { None },
                            reverse,
                            delimiters: t.subrange(b, e),
                        },
                        (e + 1 - q) as nat,
                    ),
                )
            }
        }
    }
}

/// The escape that starts at `p`, just after a `%`, and how many characters
/// it spans from `p`.
pub open spec fn parse_escape(t: Seq<char>, p: int) -> Result<(Escape, nat), MacroEvaluationError> {
    if !(0 <= p < t.len()) {
        Err(MacroEvaluationError::ParsingSyntaxError)
    } else if t[p] == '_' {
        Ok((Escape::Literal(seq![' ']), 1))
    } else if t[p] == '-' {
        Ok((Escape::Literal(seq!['%', '2', '0']), 1))
    } else if t[p] == '%' {
        Ok((Escape::Literal(seq!['%']), 1))
    } else if is_ascii_letter(t[p]) {
        Ok(
            (
                Escape::Macro {
                    letter: letter_byte(t[p]),
                    upper: is_ascii_upper(t[p]),
                    count: None,
                    reverse: false,
                    delimiters: Seq::empty(),
                },
                1,
            ),
        )
    } else if t[p] == '{' {
        match parse_braced(t, p + 1) {
            Ok((esc, n)) => Ok((esc, n + 1)),
            Err(e) => Err(e),
        }
    } else {
        Err(MacroEvaluationError::ParsingSyntaxError)
    }
}

/// Whether `c` splits labels, given the delimiters of a transform.
pub open spec fn is_label_separator(c: char, delimiters: Seq<char>) -> bool {
    if delimiters.len() == 0 {
        c == '.'
    } else {
        delimiters.contains(c)
    }
}

/// The labels of `s`: the pieces between separators. There is always at
/// least one, possibly empty.
pub open spec fn split_labels(s: Seq<char>, delimiters: Seq<char>) -> Seq<Seq<char>>
    decreases s.len(),
{
    if s.len() == 0 {
        seq![Seq::empty()]
    } else {
        let p = split_labels(s.drop_last(), delimiters);
        if is_label_separator(s.last(), delimiters) {
            p.push(Seq::empty())
        } else {
            p.update(p.len() - 1, p.last().push(s.last()))
        }
    }
}

/// The labels joined with `.`.
pub open spec fn join_labels(s: Seq<Seq<char>>) -> Seq<char>
    decreases s.len(),
{
    if s.len() == 0 {
        Seq::empty()
    } else if s.len() == 1 {
        s[0]
    } else {
        join_labels(s.drop_last()) + seq!['.'] + s.last()
    }
}

/// A sequence in reverse order.
pub open spec fn reversed<A>(s: Seq<A>) -> Seq<A> {
    Seq::new(s.len(), |i: int| s[s.len() - 1 - i])
}

/// The labels, reversed if asked, of which the first `count` are kept if bounded.
pub open spec fn kept_labels(labels: Seq<Seq<char>>, reverse: bool, count: Option<nat>) -> Seq<Seq<char>> {
    let ordered = if reverse { reversed(labels) } else { labels };
    match count {
        Some(n) => if n < ordered.len() { ordered.take(n as int) } else { ordered },
        None => ordered,
    }
}

/// Split, reverse if asked, keep the first `count` labels if bounded, join with `.`.
pub open spec fn transform(value: Seq<char>, reverse: bool, count: Option<nat>, delimiters: Seq<char>) -> Seq<char> {
    join_labels(kept_labels(split_labels(value, delimiters), reverse, count))
}

/// What an escape writes, given the values of `ctx`.
pub open spec fn expand_escape<E: EvaluationContext>(ctx: &E, esc: Escape) -> Result<Seq<char>, MacroEvaluationError> {
    match esc {
        Escape::Literal(s) => Ok(s),
        Escape::Macro { letter, upper, count, reverse, delimiters } => match variable_of(lower_ascii(letter)) {
            None => Err(MacroEvaluationError::UnknownVariable(AnyMacroVariable::Unknown(letter))),
            Some(v) => match ctx.value_of(v) {
                None => Err(MacroEvaluationError::UnknownVariable(AnyMacroVariable::Known(v))),
                Some(value) => {
                    let plain = transform(value, reverse, count, delimiters);
                    Ok(if upper { form_encoded(encode_utf8(plain)) } else { plain })
                },
            },
        },
    }
}

/// What the token at `i` writes, and how many characters it spans after its first.
pub open spec fn token_at<E: EvaluationContext>(ctx: &E, t: Seq<char>, i: int) -> Result<(Seq<char>, nat), MacroEvaluationError> {
    if t[i] != '%' {
        Ok((seq![t[i]], 0))
    } else {
        match parse_escape(t, i + 1) {
            Err(e) => Err(e),
            Ok((esc, n)) => match expand_escape(ctx, esc) {
                Err(e) => Err(e),
                Ok(piece) => Ok((piece, n)),
            },
        }
    }
}

/// `r` with `prefix` written before it, when it is a success.
pub open spec fn prefixed(prefix: Seq<char>, r: Result<Seq<char>, MacroEvaluationError>) -> Result<Seq<char>, MacroEvaluationError> {
    match r {
        Ok(s) => Ok(prefix + s),
        Err(e) => Err(e),
    }
}

/// The expansion of `t` from position `i` on: the first error met, or the
/// concatenation of what each token writes.
pub open spec fn expand_from<E: EvaluationContext>(ctx: &E, t: Seq<char>, i: int) -> Result<Seq<char>, MacroEvaluationError>
    decreases t.len() - i,
{
    if i < 0 || i >= t.len() {
        Ok(Seq::empty())
    } else {
        match token_at(ctx, t, i) {
            Err(e) => Err(e),
            Ok((piece, n)) => prefixed(piece, expand_from(ctx, t, i + 1 + n)),
        }
    }
}

/// The expansion of the macro string `t`.
pub open spec fn expand<E: EvaluationContext>(ctx: &E, t: Seq<char>) -> Result<Seq<char>, MacroEvaluationError> {
    expand_from(ctx, t, 0)
}


/// There is always at least one label.
pub proof fn lemma_split_labels_nonempty(s: Seq<char>, delimiters: Seq<char>)
    ensures
        split_labels(s, delimiters).len() >= 1,
    decreases s.len(),
{
    if s.len() > 0 {
        lemma_split_labels_nonempty(s.drop_last(), delimiters);
    }
}

/// A value with no separator in it is a single label.
pub proof fn lemma_split_labels_single(s: Seq<char>, delimiters: Seq<char>)
    requires
        forall|i: int| 0 <= i < s.len() ==> !is_label_separator(#[trigger] s[i], delimiters),
    ensures
        split_labels(s, delimiters) == seq![s],
    decreases s.len(),
{
    if s.len() > 0 {
        let t = s.drop_last();
        assert forall|i: int| 0 <= i < t.len() implies !is_label_separator(#[trigger] t[i], delimiters) by {
            assert(t[i] == s[i]);
        }
        lemma_split_labels_single(t, delimiters);
        assert(t.push(s.last()) =~= s);
        assert(seq![t].update(0, t.push(s.last())) =~= seq![s]);
    } else {
        assert(s =~= Seq::<char>::empty());
    }
}

/// The runs and numbers read from `p` on depend only on the characters from `p` on.
pub proof fn lemma_runs_agree(t1: Seq<char>, t2: Seq<char>, p: int)
    requires
        0 <= p,
        t1.len() == t2.len(),
        forall|i: int| p <= i < t1.len() ==> t1[i] == t2[i],
    ensures
        digit_run(t1, p) == digit_run(t2, p),
        delimiter_run(t1, p) == delimiter_run(t2, p),
        forall|q: int| p <= q <= t1.len() ==> decimal_value(t1, p, q) == decimal_value(t2, p, q),
    decreases t1.len() - p,
{
    if p < t1.len() {
        lemma_runs_agree(t1, t2, p + 1);
    }
    assert forall|q: int| p <= q <= t1.len() implies decimal_value(t1, p, q) == decimal_value(t2, p, q) by {
        lemma_decimal_agree(t1, t2, p, q);
    }
}

/// Numbers read from `p` to `q` depend only on the characters between.
proof fn lemma_decimal_agree(t1: Seq<char>, t2: Seq<char>, p: int, q: int)
    requires
        0 <= p <= q <= t1.len() == t2.len(),
        forall|i: int| p <= i < t1.len() ==> t1[i] == t2[i],
    ensures
        decimal_value(t1, p, q) == decimal_value(t2, p, q),
    decreases q - p,
{
    if q > p {
        lemma_decimal_agree(t1, t2, p, q - 1);
    }
}

} // verus!
