//! The single-pass scanner that expands macro strings.

use vstd::prelude::*;

use crate::context::{EvaluationContext, MacroEvaluationError};
use crate::encoding::{chars_of, form_urlencode, string_of};
use crate::grammar::{
    decimal_value, delimiter_run, digit_run, expand, expand_escape, expand_from, is_ascii_digit,
    is_ascii_letter, is_delimiter_char, is_label_separator, join_labels, kept_labels, letter_byte,
    parse_escape, prefixed, split_labels, token_at, transform, Escape,
};
use crate::variable::{AnyMacroVariable, MacroVariable};

verus! {

/// The views of a sequence of character vectors.
pub open spec fn views(v: Seq<Vec<char>>) -> Seq<Seq<char>> {
    v.map_values(|x: Vec<char>| x@)
}

/// Appends the characters of `src` to `dst`.
fn push_all(dst: &mut Vec<char>, src: &Vec<char>)
    ensures
        final(dst)@ == old(dst)@ + src@,
{
    let mut i: usize = 0;
    while i < src.len()
        invariant
            i <= src@.len(),
            dst@ == old(dst)@ + src@.take(i as int),
        decreases src.len() - i,
    {
        dst.push(src[i]);
        i = i + 1;
        assert(dst@ =~= old(dst)@ + src@.take(i as int));
    }
    assert(src@.take(i as int) =~= src@);
}

/// Whether `c` is one of `delimiters`.
fn contains_char(delimiters: &Vec<char>, c: char) -> (r: bool)
    ensures
        r == delimiters@.contains(c),
{
    let mut i: usize = 0;
    while i < delimiters.len()
        invariant
            i <= delimiters@.len(),
            forall|j: int| 0 <= j < i ==> delimiters@[j] != c,
        decreases delimiters.len() - i,
    {
        if delimiters[i] == c {
            return true;
        }
        i = i + 1;
    }
    false
}

/// Whether `c` separates labels under the given delimiters.
fn is_separator(c: char, delimiters: &Vec<char>) -> (r: bool)
    ensures
        r == is_label_separator(c, delimiters@),
{
    if delimiters.len() == 0 {
        c == '.'
    } else {
        contains_char(delimiters, c)
    }
}

/// Splits `value` into labels.
fn split(value: &Vec<char>, delimiters: &Vec<char>) -> (r: Vec<Vec<char>>)
    ensures
        views(r@) == split_labels(value@, delimiters@),
{
    let mut done: Vec<Vec<char>> = Vec::new();
    let mut cur: Vec<char> = Vec::new();
    let mut i: usize = 0;
    assert(value@.take(0) =~= Seq::<char>::empty());
    assert(views(done@).push(cur@) =~= seq![Seq::<char>::empty()]);
    while i < value.len()
        invariant
            i <= value@.len(),
            split_labels(value@.take(i as int), delimiters@) == views(done@).push(cur@),
        decreases value.len() - i,
    {
        let c = value[i];
        let ghost before = value@.take(i as int);
        assert(value@.take(i + 1).drop_last() =~= before);
        if is_separator(c, delimiters) {
            let ghost old_done = done@;
            let ghost old_cur = cur@;
            done.push(cur);
            cur = Vec::new();
            assert(views(done@) =~= views(old_done).push(old_cur)) by {
                assert(views(done@).len() == views(old_done).len() + 1);
            }
            assert(views(done@).push(cur@) =~= split_labels(before, delimiters@).push(Seq::empty()));
        } else {
            cur.push(c);
            let ghost p = split_labels(before, delimiters@);
            assert(views(done@).push(cur@) =~= p.update(p.len() - 1, p.last().push(c)));
        }
        i = i + 1;
    }
    assert(value@.take(i as int) =~= value@);
    let ghost old_done = done@;
    let ghost last = cur@;
    done.push(cur);
    assert(views(done@) =~= views(old_done).push(last));
    done
}


/// A label count as a number.
pub open spec fn count_view(c: Option<usize>) -> Option<nat> {
    match c {
        Some(n) => Some(n as nat),
        None => None,
    }
}

/// Keeps the labels that the transform asks for and joins them with `.`.
fn join_kept(labels: &Vec<Vec<char>>, reverse: bool, count: Option<usize>) -> (r: Vec<char>)
    ensures
        r@ == join_labels(kept_labels(views(labels@), reverse, count_view(count))),
{
    let n = labels.len();
    let k = match count {
        Some(c) => if c < n { c } else { n },
        None => n,
    };
    let ghost all = views(labels@);
    let ghost kept = kept_labels(all, reverse, count_view(count));
    assert(kept.len() == k);
    let mut out: Vec<char> = Vec::new();
    let mut j: usize = 0;
    assert(kept.take(0) =~= Seq::<Seq<char>>::empty());
    while j < k
        invariant
            j <= k == kept.len() <= n == labels@.len(),
            all == views(labels@),
            kept == kept_labels(all, reverse, count_view(count)),
            out@ == join_labels(kept.take(j as int)),
        decreases k - j,
    {
        let idx = if reverse { n - 1 - j } else { j };
        assert(kept[j as int] == labels@[idx as int]@);
        if j > 0 {
            out.push('.');
        }
        push_all(&mut out, &labels[idx]);
        assert(kept.take(j + 1).drop_last() =~= kept.take(j as int));
        j = j + 1;
    }
    assert(kept.take(k as int) =~= kept);
    out
}

/// Applies a transform to `value`.
fn apply_transform(value: &Vec<char>, reverse: bool, count: Option<usize>, delimiters: &Vec<char>) -> (r: Vec<char>)
    ensures
        r@ == transform(value@, reverse, count_view(count), delimiters@),
{
    let labels = split(value, delimiters);
    join_kept(&labels, reverse, count)
}


/// Whether `c` is an ASCII digit.
fn is_digit(c: char) -> (r: bool)
    ensures
        r == is_ascii_digit(c),
{
    '0' <= c && c <= '9'
}

/// Whether `c` is an ASCII letter.
fn is_letter(c: char) -> (r: bool)
    ensures
        r == is_ascii_letter(c),
{
    ('a' <= c && c <= 'z') || ('A' <= c && c <= 'Z')
}

/// Whether `c` may name a label delimiter.
fn is_delimiter(c: char) -> (r: bool)
    ensures
        r == is_delimiter_char(c),
{
    c == '.' || c == '-' || c == '+' || c == ',' || c == '/' || c == '_' || c == '='
}

/// The byte of an ASCII letter, as written.
fn raw_letter(c: char) -> (r: u8)
    requires
        is_ascii_letter(c),
    ensures
        r == letter_byte(c),
{
    c as u32 as u8
}

/// The state of one expansion: the context, the text, how far it has been
/// read, and what has been written.
struct MacroEvaluator<E> {
    ctx: E,
    res: Vec<char>,
    input: Vec<char>,
    pos: usize,
}

impl<E: EvaluationContext> MacroEvaluator<E> {
    /// Looks up the variable of `letter` (in either case), transforms its value and appends it.
    fn put_formatter(
        &mut self,
        letter: u8,
        reverse: bool,
        do_urlencode: bool,
        label_count: Option<usize>,
        delimiter: &Vec<char>,
    ) -> (r: Result<(), MacroEvaluationError>)
        ensures
            final(self).ctx == old(self).ctx,
            final(self).input == old(self).input,
            final(self).pos == old(self).pos,
            match expand_escape(
                &old(self).ctx,
                Escape::Macro {
                    letter,
                    upper: do_urlencode,
                    count: count_view(label_count),
                    reverse,
                    delimiters: delimiter@,
                },
            ) {
                Ok(piece) => r is Ok && final(self).res@ == old(self).res@ + piece,
                Err(e) => r == Err::<(), MacroEvaluationError>(e),
            },
            r is Err ==> final(self).res == old(self).res,
    {
        let lowered = if 0x41 <= letter && letter <= 0x5a {
            letter + 32
        } else {
            letter
        };
        let v = match MacroVariable::try_from_num(lowered) {
            Ok(v) => v,
            Err(_) => {
                return Err(MacroEvaluationError::UnknownVariable(AnyMacroVariable::Unknown(letter)));
            },
        };
        let text = match self.ctx.provide_data(v) {
            Ok(t) => t,
            Err(e) => {
                return Err(e);
            },
        };
        let value = chars_of(text.as_str());
        let plain = apply_transform(&value, reverse, label_count, delimiter);
        if do_urlencode {
            let joined = string_of(&plain);
            let encoded = form_urlencode(joined.as_str());
            let encoded_chars = chars_of(encoded.as_str());
            push_all(&mut self.res, &encoded_chars);
        } else {
            push_all(&mut self.res, &plain);
        }
        Ok(())
    }

    /// Reads the run of digits at `start`: its length and, if it is not
    /// empty, its value. The text must go on after the digits.
    fn read_number(input: &Vec<char>, start: usize) -> (r: Result<(usize, Option<usize>), MacroEvaluationError>)
        requires
            start <= input@.len(),
        ensures
            ({
                let d = digit_run(input@, start as int);
                let a = start + d;
                if a >= input@.len() {
                    r == Err::<(usize, Option<usize>), MacroEvaluationError>(
                        MacroEvaluationError::ParsingSyntaxError,
                    )
                } else if d > 0 && decimal_value(input@, start as int, a) > usize::MAX {
                    r == Err::<(usize, Option<usize>), MacroEvaluationError>(
                        MacroEvaluationError::InvalidTransformCount,
                    )
                } else {
                    &&& r is Ok
                    &&& r->Ok_0.0 == d
                    &&& count_view(r->Ok_0.1) == if d > 0 {
                        Some(decimal_value(input@, start as int, a))
                    } else {
                        None
                    }
                }
            }),
    {
        let mut i: usize = start;
        let mut acc: usize = 0;
        let mut overflow = false;
        while i < input.len() && is_digit(input[i])
            invariant
                start <= i <= input@.len(),
                digit_run(input@, start as int) == (i - start) + digit_run(input@, i as int),
                !overflow ==> acc == decimal_value(input@, start as int, i as int),
                overflow ==> decimal_value(input@, start as int, i as int) > usize::MAX,
            decreases input.len() - i,
        {
            let digit = (input[i] as u32 - 48) as usize;
            let ghost before = decimal_value(input@, start as int, i as int);
            assert(decimal_value(input@, start as int, i + 1) == before * 10 + digit);
            if !overflow {
                match acc.checked_mul(10) {
                    Some(m) => match m.checked_add(digit) {
                        Some(t) => {
                            acc = t;
                        },
                        None => {
                            overflow = true;
                        },
                    },
                    None => {
                        overflow = true;
                    },
                }
            } else {
                assert(before * 10 >= before) by (nonlinear_arith)
                    requires
                        before >= 0,
                ;
            }
            i = i + 1;
        }
        if i >= input.len() {
            return Err(MacroEvaluationError::ParsingSyntaxError);
        }
        if i == start {
            Ok((0, None))
        } else if overflow {
            Err(MacroEvaluationError::InvalidTransformCount)
        } else {
            Ok((i - start, Some(acc)))
        }
    }

    /// Reads the escape that follows a `%` and writes what it expands to.
    fn consume_after_percentage_token(&mut self) -> (r: Result<(), MacroEvaluationError>)
        requires
            old(self).pos <= old(self).input@.len(),
        ensures
            final(self).ctx == old(self).ctx,
            final(self).input == old(self).input,
            match parse_escape(old(self).input@, old(self).pos as int) {
                Err(e) => r == Err::<(), MacroEvaluationError>(e),
                Ok((esc, n)) => match expand_escape(&old(self).ctx, esc) {
                    Err(e) => r == Err::<(), MacroEvaluationError>(e),
                    Ok(piece) => {
                        &&& r is Ok
                        &&& final(self).res@ == old(self).res@ + piece
                        &&& final(self).pos == old(self).pos + n
                    },
                },
            },
            r is Err ==> final(self).res == old(self).res,
    {
        let p = self.pos;
        let len = self.input.len();
        if p >= len {
            return Err(MacroEvaluationError::ParsingSyntaxError);
        }
        let c = self.input[p];
        if c == '_' {
            self.res.push(' ');
            self.pos = p + 1;
            return Ok(());
        }
        if c == '-' {
            self.res.push('%');
            self.res.push('2');
            self.res.push('0');
            assert(self.res@ =~= old(self).res@ + seq!['%', '2', '0']);
            self.pos = p + 1;
            return Ok(());
        }
        if c == '%' {
            self.res.push('%');
            self.pos = p + 1;
            return Ok(());
        }
        if is_letter(c) {
            let letter = raw_letter(c);
            let upper = 'A' <= c && c <= 'Z';
            self.pos = p + 1;
            let no_delimiters: Vec<char> = Vec::new();
            assert(no_delimiters@ =~= Seq::<char>::empty());
            return self.put_formatter(letter, false, upper, None, &no_delimiters);
        }
        if c != '{' {
            return Err(MacroEvaluationError::ParsingSyntaxError);
        }
        let q = p + 1;
        if q >= len || !is_letter(self.input[q]) {
            return Err(MacroEvaluationError::ParsingSyntaxError);
        }
        let letter = raw_letter(self.input[q]);
        let upper = 'A' <= self.input[q] && self.input[q] <= 'Z';
        let (digits, count) = match Self::read_number(&self.input, q + 1) {
            Ok(x) => x,
            Err(e) => {
                return Err(e);
            },
        };
        let a = q + 1 + digits;
        let reverse = self.input[a] == 'r';
        let mut b = if reverse { a + 1 } else { a };
        let ghost start = b as int;
        let mut delimiters: Vec<char> = Vec::new();
        while b < len && is_delimiter(self.input[b])
            invariant
                len == self.input@.len(),
                start <= b <= len,
                delimiter_run(self.input@, start) == (b - start) + delimiter_run(self.input@, b as int),
                delimiters@ == self.input@.subrange(start, b as int),
            decreases len - b,
        {
            delimiters.push(self.input[b]);
            b = b + 1;
            assert(delimiters@ =~= self.input@.subrange(start, b as int));
        }
        if b >= len || self.input[b] != '}' {
            return Err(MacroEvaluationError::ParsingSyntaxError);
        }
        self.pos = b + 1;
        self.put_formatter(letter, reverse, upper, count, &delimiters)
    }

    /// Reads one token: a plain character, copied, or a whole escape.
    fn consume_token(&mut self) -> (r: Result<(), MacroEvaluationError>)
        ensures
            final(self).ctx == old(self).ctx,
            final(self).input == old(self).input,
            old(self).pos >= old(self).input@.len() ==> r is Ok && *final(self) == *old(self),
            old(self).pos < old(self).input@.len() ==> match token_at(&old(self).ctx, old(self).input@, old(self).pos as int) {
                Err(e) => r == Err::<(), MacroEvaluationError>(e),
                Ok((piece, n)) => {
                    &&& r is Ok
                    &&& final(self).res@ == old(self).res@ + piece
                    &&& final(self).pos == old(self).pos + 1 + n
                    &&& final(self).pos <= final(self).input@.len()
                },
            },
    {
        if self.pos >= self.input.len() {
            return Ok(());
        }
        let c = self.input[self.pos];
        self.pos = self.pos + 1;
        if c == '%' {
            self.consume_after_percentage_token()
        } else {
            self.res.push(c);
            Ok(())
        }
    }

    /// Reads tokens up to the end of the text, stopping at the first error.
    /// After an error the evaluator is not to be used again.
    fn consume_tokens(&mut self) -> (r: Result<(), MacroEvaluationError>)
        requires
            old(self).pos <= old(self).input@.len(),
        ensures
            final(self).ctx == old(self).ctx,
            final(self).input == old(self).input,
            match expand_from(&old(self).ctx, old(self).input@, old(self).pos as int) {
                Ok(s) => r is Ok && final(self).res@ == old(self).res@ + s,
                Err(e) => r == Err::<(), MacroEvaluationError>(e),
            },
            r is Ok ==> final(self).pos == final(self).input@.len(),
    {
        let ghost ctx = self.ctx;
        let ghost input = self.input@;
        let ghost whole = expand_from(&self.ctx, self.input@, self.pos as int);
        let ghost out0 = self.res@;
        assert(prefixed(out0, whole) == prefixed(self.res@, expand_from(&ctx, input, self.pos as int)));
        while self.pos < self.input.len()
            invariant
                self.ctx == ctx,
                self.input@ == input,
                ctx == old(self).ctx,
                self.input == old(self).input,
                input == old(self).input@,
                whole == expand_from(&ctx, input, old(self).pos as int),
                self.pos <= input.len(),
                prefixed(out0, whole) == prefixed(self.res@, expand_from(&ctx, input, self.pos as int)),
            decreases input.len() - self.pos,
        {
            let ghost res_before = self.res@;
            let ghost pos_before = self.pos as int;
            assert(expand_from(&ctx, input, pos_before) == match token_at(&ctx, input, pos_before) {
                Err(e) => Err(e),
                Ok((piece, n)) => prefixed(piece, expand_from(&ctx, input, pos_before + 1 + n)),
            });
            match self.consume_token() {
                Ok(()) => {
                    proof {
                        if let Ok((piece, n)) = token_at(&ctx, input, pos_before) {
                            assert(self.res@ == res_before + piece);
                            assert(self.pos == pos_before + 1 + n);
                            if let Ok(s) = expand_from(&ctx, input, self.pos as int) {
                                assert(res_before + (piece + s) =~= self.res@ + s);
                            }
                        }
                    }
                },
                Err(e) => {
                    assert(prefixed(out0, whole) == Err::<Seq<char>, MacroEvaluationError>(e));
                    return Err(e);
                },
            }
        }
        proof {
            if let Ok(s) = whole {
                assert(self.res@ =~= self.res@ + Seq::<char>::empty());
            }
        }
        Ok(())
    }
}

/// Expands the SPF macro string `macro_text` with the values of
/// `evaluation_context`. The result is not checked to be a valid domain name.
pub fn evaluate_macro<E: EvaluationContext>(evaluation_context: E, macro_text: &str) -> (r: Result<String, MacroEvaluationError>)
    ensures
        match expand(&evaluation_context, macro_text@) {
            Ok(s) => r is Ok && r->Ok_0@ == s,
            Err(e) => r == Err::<String, MacroEvaluationError>(e),
        },
{
    let mut e = MacroEvaluator { ctx: evaluation_context, res: Vec::new(), input: chars_of(macro_text), pos: 0 };
    match e.consume_tokens() {
        Ok(()) => Ok(string_of(&e.res)),
        Err(err) => Err(err),
    }
}

} // verus!
