//! Properties of macro expansion that hold for every context and text.

use vstd::prelude::*;

use vstd::utf8::encode_utf8;

use crate::context::{first_value_from, EvaluationContext, MacroEvaluationError, VecEvaluationContext};
use crate::encoding::{form_encoded, lemma_form_encoded_unchanged, form_unchanged_char};
use crate::grammar::{
    decimal_value, delimiter_run, digit_run, expand, expand_from, is_ascii_letter, is_label_separator,
    join_labels, kept_labels, lemma_runs_agree, lemma_split_labels_nonempty, lemma_split_labels_single,
    letter_byte, lower_ascii, lower_byte, parse_braced, prefixed, reversed, split_labels, token_at, Escape,
};
use crate::variable::{lemma_letter_round_trip, letter_of, variable_of, AnyMacroVariable, MacroVariable};

verus! {

/// Expanding from `i` on a text without `%` gives the rest of the text.
proof fn lemma_plain_from<E: EvaluationContext>(ctx: &E, t: Seq<char>, i: int)
    requires
        0 <= i <= t.len(),
        forall|j: int| 0 <= j < t.len() ==> t[j] != '%',
    ensures
        expand_from(ctx, t, i) == Ok::<Seq<char>, MacroEvaluationError>(t.skip(i)),
    decreases t.len() - i,
{
    if i < t.len() {
        lemma_plain_from(ctx, t, i + 1);
        assert(seq![t[i]] + t.skip(i + 1) =~= t.skip(i));
    } else {
        assert(t.skip(i) =~= Seq::<char>::empty());
    }
}

/// A text with no `%` in it expands to itself, character for character.
pub proof fn law_text_without_percent_unchanged<E: EvaluationContext>(ctx: &E, t: Seq<char>)
    requires
        forall|j: int| 0 <= j < t.len() ==> t[j] != '%',
    ensures
        expand(ctx, t) == Ok::<Seq<char>, MacroEvaluationError>(t),
{
    lemma_plain_from(ctx, t, 0);
    assert(t.skip(0) =~= t);
}

/// `%_` expands to a space, `%-` to the three characters `%20`, and `%%` to `%`.
pub proof fn law_literal_escapes<E: EvaluationContext>(ctx: &E)
    ensures
        expand(ctx, seq!['%', '_']) == Ok::<Seq<char>, MacroEvaluationError>(seq![' ']),
        expand(ctx, seq!['%', '-']) == Ok::<Seq<char>, MacroEvaluationError>(seq!['%', '2', '0']),
        expand(ctx, seq!['%', '%']) == Ok::<Seq<char>, MacroEvaluationError>(seq!['%']),
{
    let a = seq!['%', '_'];
    let b = seq!['%', '-'];
    let c = seq!['%', '%'];
    assert(expand_from(ctx, a, 2) == Ok::<Seq<char>, MacroEvaluationError>(Seq::empty()));
    assert(expand_from(ctx, b, 2) == Ok::<Seq<char>, MacroEvaluationError>(Seq::empty()));
    assert(expand_from(ctx, c, 2) == Ok::<Seq<char>, MacroEvaluationError>(Seq::empty()));
    assert(seq![' '] + Seq::<char>::empty() =~= seq![' ']);
    assert(seq!['%', '2', '0'] + Seq::<char>::empty() =~= seq!['%', '2', '0']);
    assert(seq!['%'] + Seq::<char>::empty() =~= seq!['%']);
}

/// Wherever they stand, `%_` writes a space, `%-` the three characters
/// `%20`, and `%%` a `%`; the scan goes on right after them.
pub proof fn law_literal_escapes_anywhere<E: EvaluationContext>(ctx: &E, t: Seq<char>, i: int)
    requires
        0 <= i,
        i + 1 < t.len(),
        t[i] == '%',
    ensures
        t[i + 1] == '_' ==> expand_from(ctx, t, i) == prefixed(seq![' '], expand_from(ctx, t, i + 2)),
        t[i + 1] == '-' ==> expand_from(ctx, t, i) == prefixed(seq!['%', '2', '0'], expand_from(ctx, t, i + 2)),
        t[i + 1] == '%' ==> expand_from(ctx, t, i) == prefixed(seq!['%'], expand_from(ctx, t, i + 2)),
{
}

/// Runs that end inside a prefix are the same in any text that extends it.
proof fn lemma_runs_in_prefix(t1: Seq<char>, t2: Seq<char>, k: int)
    requires
        0 <= k,
        t1.len() <= t2.len(),
        forall|i: int| 0 <= i < t1.len() ==> t1[i] == t2[i],
    ensures
        k + digit_run(t1, k) < t1.len() ==> digit_run(t2, k) == digit_run(t1, k),
        k + delimiter_run(t1, k) < t1.len() ==> delimiter_run(t2, k) == delimiter_run(t1, k),
    decreases t1.len() - k,
{
    if k < t1.len() {
        lemma_runs_in_prefix(t1, t2, k + 1);
    }
}

/// A number depends only on its own digits.
proof fn lemma_decimal_same_digits(t1: Seq<char>, t2: Seq<char>, p: int, q: int)
    requires
        0 <= p <= q,
        q <= t1.len(),
        q <= t2.len(),
        forall|i: int| p <= i < q ==> t1[i] == t2[i],
    ensures
        decimal_value(t1, p, q) == decimal_value(t2, p, q),
    decreases q - p,
{
    if q > p {
        lemma_decimal_same_digits(t1, t2, p, q - 1);
    }
}

/// A token that is read whole inside a prefix reads the same in any text
/// that extends the prefix.
proof fn lemma_token_in_prefix<E: EvaluationContext>(ctx: &E, t1: Seq<char>, t2: Seq<char>, i: int)
    requires
        0 <= i < t1.len(),
        t1.len() <= t2.len(),
        forall|j: int| 0 <= j < t1.len() ==> t1[j] == t2[j],
    ensures
        token_at(ctx, t1, i) is Ok ==> {
            &&& token_at(ctx, t2, i) == token_at(ctx, t1, i)
            &&& i + 1 + token_at(ctx, t1, i)->Ok_0.1 <= t1.len()
        },
{
    if t1[i] == '%' {
        let p = i + 1;
        if p < t1.len() && t1[p] == '{' {
            let q = p + 1;
            lemma_runs_in_prefix(t1, t2, q + 1);
            let a: int = q + 1 + digit_run(t1, q + 1) as int;
            if a < t1.len() {
                lemma_decimal_same_digits(t1, t2, q + 1, a);
                let b: int = if t1[a] == 'r' { a + 1 } else { a };
                lemma_runs_in_prefix(t1, t2, b);
                let e: int = b + delimiter_run(t1, b) as int;
                if e < t1.len() {
                    assert(t1.subrange(b, e) =~= t2.subrange(b, e));
                }
            }
        }
    }
}

/// Expanding a prefix that succeeds, then the rest of the text, is
/// expanding the whole text.
proof fn lemma_expand_in_prefix<E: EvaluationContext>(ctx: &E, t1: Seq<char>, t2: Seq<char>, i: int)
    requires
        0 <= i <= t1.len(),
        t1.len() <= t2.len(),
        forall|j: int| 0 <= j < t1.len() ==> t1[j] == t2[j],
    ensures
        expand_from(ctx, t1, i) is Ok ==> expand_from(ctx, t2, i) == prefixed(
            expand_from(ctx, t1, i)->Ok_0,
            expand_from(ctx, t2, t1.len() as int),
        ),
    decreases t1.len() - i,
{
    if i < t1.len() {
        lemma_token_in_prefix(ctx, t1, t2, i);
        if let Ok((piece, n)) = token_at(ctx, t1, i) {
            lemma_expand_in_prefix(ctx, t1, t2, i + 1 + n);
            if let Ok(y) = expand_from(ctx, t1, i + 1 + n) {
                if let Ok(z) = expand_from(ctx, t2, t1.len() as int) {
                    assert(piece + (y + z) =~= (piece + y) + z);
                }
            }
        }
    } else {
        if let Ok(z) = expand_from(ctx, t2, i) {
            assert(Seq::<char>::empty() + z =~= z);
        }
    }
}

/// `%{` not closed by `}` is a syntax error, after any text that expands
/// without error, unless its label count is too large for a `usize`, which
/// is reported first.
pub proof fn law_unterminated_brace<E: EvaluationContext>(ctx: &E, p: Seq<char>, body: Seq<char>)
    requires
        expand(ctx, p) is Ok,
        !body.contains('}'),
        ({
            let t = p + seq!['%', '{'] + body;
            let k: int = p.len() as int + 3;
            !(digit_run(t, k) > 0 && decimal_value(t, k, k + digit_run(t, k) as int) > usize::MAX)
        }),
    ensures
        expand(ctx, p + seq!['%', '{'] + body) == Err::<Seq<char>, MacroEvaluationError>(
            MacroEvaluationError::ParsingSyntaxError,
        ),
{
    let t = p + seq!['%', '{'] + body;
    let m = p.len() as int;
    assert forall|j: int| 0 <= j < m implies p[j] == t[j] by {}
    lemma_expand_in_prefix(ctx, p, t, 0);
    assert forall|e: int| m + 2 <= e < t.len() implies t[e] != '}' by {
        assert(t[e] == body[e - m - 2]);
    }
    assert(t[m] == '%');
    assert(t[m + 1] == '{');
    assert(parse_braced(t, m + 2) == Err::<(Escape, nat), MacroEvaluationError>(
        MacroEvaluationError::ParsingSyntaxError,
    ));
    assert(expand_from(ctx, t, m) == Err::<Seq<char>, MacroEvaluationError>(
        MacroEvaluationError::ParsingSyntaxError,
    ));
}

/// A letter that names no macro variable gives `UnknownVariable` carrying
/// that letter as written, in the bare form and in the braced form.
pub proof fn law_unknown_letter<E: EvaluationContext>(ctx: &E, c: char)
    requires
        is_ascii_letter(c),
        variable_of(lower_byte(c)) is None,
    ensures
        expand(ctx, seq!['%', c]) == Err::<Seq<char>, MacroEvaluationError>(
            MacroEvaluationError::UnknownVariable(AnyMacroVariable::Unknown(letter_byte(c))),
        ),
        expand(ctx, seq!['%', '{', c, '}']) == Err::<Seq<char>, MacroEvaluationError>(
            MacroEvaluationError::UnknownVariable(AnyMacroVariable::Unknown(letter_byte(c))),
        ),
{
    let t = seq!['%', '{', c, '}'];
    assert(digit_run(t, 3) == 0);
    assert(delimiter_run(t, 3) == 0);
}

/// A variable that the context holds no value for gives `UnknownVariable`
/// carrying that variable, in the bare form and in the braced form.
pub proof fn law_missing_value<E: EvaluationContext>(ctx: &E, v: MacroVariable, c: char)
    requires
        is_ascii_letter(c),
        lower_byte(c) == letter_of(v),
        ctx.value_of(v) is None,
    ensures
        expand(ctx, seq!['%', c]) == Err::<Seq<char>, MacroEvaluationError>(
            MacroEvaluationError::UnknownVariable(AnyMacroVariable::Known(v)),
        ),
        expand(ctx, seq!['%', '{', c, '}']) == Err::<Seq<char>, MacroEvaluationError>(
            MacroEvaluationError::UnknownVariable(AnyMacroVariable::Known(v)),
        ),
{
    lemma_letter_round_trip(v, lower_byte(c));
    let t = seq!['%', '{', c, '}'];
    assert(digit_run(t, 3) == 0);
    assert(delimiter_run(t, 3) == 0);
}

/// A label count of zero expands to nothing, whatever value is bound.
pub proof fn law_zero_labels_empty<E: EvaluationContext>(ctx: &E, v: MacroVariable, c: char)
    requires
        is_ascii_letter(c),
        lower_byte(c) == letter_of(v),
        ctx.value_of(v) is Some,
    ensures
        expand(ctx, seq!['%', '{', c, '0', '}']) == Ok::<Seq<char>, MacroEvaluationError>(Seq::empty()),
{
    lemma_letter_round_trip(v, lower_byte(c));
    let t = seq!['%', '{', c, '0', '}'];
    assert(digit_run(t, 4) == 0);
    assert(digit_run(t, 3) == 1);
    assert(decimal_value(t, 3, 3) == 0);
    assert(decimal_value(t, 3, 4) == 0);
    assert(delimiter_run(t, 4) == 0);
    let value = ctx.value_of(v)->Some_0;
    let labels = split_labels(value, Seq::empty());
    lemma_split_labels_nonempty(value, Seq::empty());
    assert(kept_labels(labels, false, Some(0nat)) =~= Seq::<Seq<char>>::empty());
    assert(encode_utf8(Seq::<char>::empty()) =~= Seq::<u8>::empty());
    assert(expand_from(ctx, t, 5) == Ok::<Seq<char>, MacroEvaluationError>(Seq::empty()));
    assert(Seq::<char>::empty() + Seq::<char>::empty() =~= Seq::<char>::empty());
}

/// A value with no `.` in it comes out unchanged from `%{x}` and from `%x`,
/// where `x` is the lowercase letter of its variable.
pub proof fn law_plain_reference<E: EvaluationContext>(ctx: &E, v: MacroVariable, c: char, value: Seq<char>)
    requires
        'a' <= c <= 'z',
        lower_byte(c) == letter_of(v),
        ctx.value_of(v) == Some(value),
        !value.contains('.'),
    ensures
        expand(ctx, seq!['%', '{', c, '}']) == Ok::<Seq<char>, MacroEvaluationError>(value),
        expand(ctx, seq!['%', c]) == Ok::<Seq<char>, MacroEvaluationError>(value),
{
    lemma_letter_round_trip(v, lower_byte(c));
    assert forall|i: int| 0 <= i < value.len() implies !is_label_separator(#[trigger] value[i], Seq::empty()) by {
        assert(value.contains(value[i]));
    }
    lemma_split_labels_single(value, Seq::empty());
    assert(join_labels(seq![value]) == value);
    let t = seq!['%', '{', c, '}'];
    assert(digit_run(t, 3) == 0);
    assert(delimiter_run(t, 3) == 0);
    assert(t.subrange(3, 3) =~= Seq::<char>::empty());
    assert(expand_from(ctx, t, 4) == Ok::<Seq<char>, MacroEvaluationError>(Seq::empty()));
    let b = seq!['%', c];
    assert(expand_from(ctx, b, 2) == Ok::<Seq<char>, MacroEvaluationError>(Seq::empty()));
    assert(value + Seq::<char>::empty() =~= value);
}

/// What a token writes once its letter is uppercase: the form encoding of
/// what it writes with the letter in lowercase, over the same span.
pub open spec fn encoded_token(r: Result<(Seq<char>, nat), MacroEvaluationError>) -> Result<(Seq<char>, nat), MacroEvaluationError> {
    match r {
        Ok((piece, n)) => Ok((form_encoded(encode_utf8(piece)), n)),
        Err(e) => Err(e),
    }
}

/// An uppercase macro letter of a variable expands as its lowercase form
/// does, and the result is then form-urlencoded; in the bare form and in the
/// braced form with any transforms.
pub proof fn law_uppercase_encodes<E: EvaluationContext>(ctx: &E, lower: char, upper: char, body: Seq<char>)
    requires
        'a' <= lower <= 'z',
        upper as u32 + 32 == lower as u32,
        variable_of(letter_byte(lower)) is Some,
    ensures
        token_at(ctx, seq!['%', '{', upper] + body, 0) == encoded_token(token_at(ctx, seq!['%', '{', lower] + body, 0)),
        token_at(ctx, seq!['%', upper] + body, 0) == encoded_token(token_at(ctx, seq!['%', lower] + body, 0)),
        ({
            let lo = seq!['%', '{', lower] + body;
            let r = token_at(ctx, lo, 0);
            r is Ok && 1 + r->Ok_0.1 == lo.len() ==> expand(ctx, seq!['%', '{', upper] + body) == Ok::<
                Seq<char>,
                MacroEvaluationError,
            >(form_encoded(encode_utf8(expand(ctx, lo)->Ok_0)))
        }),
{
    let lo = seq!['%', '{', lower] + body;
    let up = seq!['%', '{', upper] + body;
    assert(lower_byte(upper) == lower_byte(lower));
    assert(lower_ascii(letter_byte(upper)) == letter_byte(lower));
    assert(lower_ascii(letter_byte(lower)) == letter_byte(lower));
    assert forall|i: int| 3 <= i < lo.len() implies lo[i] == up[i] by {
        assert(lo[i] == body[i - 3]);
        assert(up[i] == body[i - 3]);
    }
    lemma_runs_agree(lo, up, 3);
    let d = digit_run(lo, 3);
    let a: int = 3 + d as int;
    if a < lo.len() {
        let b: int = if lo[a] == 'r' { a + 1 } else { a };
        lemma_runs_agree(lo, up, b);
        let e: int = b + delimiter_run(lo, b) as int;
        if e < lo.len() {
            assert(lo.subrange(b, e) =~= up.subrange(b, e));
        }
    }
    let r = token_at(ctx, lo, 0);
    if r is Ok && 1 + r->Ok_0.1 == lo.len() {
        let n = r->Ok_0.1;
        assert(expand_from(ctx, lo, 1 + n as int) == Ok::<Seq<char>, MacroEvaluationError>(Seq::empty()));
        assert(expand_from(ctx, up, 1 + n as int) == Ok::<Seq<char>, MacroEvaluationError>(Seq::empty()));
        assert(r->Ok_0.0 + Seq::<char>::empty() =~= r->Ok_0.0);
        let x = form_encoded(encode_utf8(r->Ok_0.0));
        assert(x + Seq::<char>::empty() =~= x);
    }
}

/// With reversal and a label count `n`, the labels kept are the last `n`
/// labels of the value, in reverse order: reversal comes before truncation.
pub proof fn law_reverse_then_truncate(labels: Seq<Seq<char>>, n: nat)
    requires
        n <= labels.len(),
    ensures
        kept_labels(labels, true, Some(n)) == reversed(labels.subrange(labels.len() - n, labels.len() as int)),
{
    assert(kept_labels(labels, true, Some(n)) =~= reversed(labels.subrange(labels.len() - n, labels.len() as int)));
}

/// Where a value is found first, a pair holds it; where none is, no pair
/// from `i` on has the variable.
proof fn lemma_first_value_found(s: Seq<(MacroVariable, Seq<char>)>, v: MacroVariable, i: int)
    requires
        0 <= i,
    ensures
        first_value_from(s, v, i) is Some ==> exists|j: int|
            i <= j < s.len() && s[j] == (v, first_value_from(s, v, i)->Some_0),
        first_value_from(s, v, i) is None ==> forall|j: int| i <= j < s.len() ==> s[j].0 != v,
    decreases s.len() - i,
{
    if i < s.len() {
        lemma_first_value_found(s, v, i + 1);
        if s[i].0 == v {
            assert(s[i] == (v, s[i].1));
        }
    }
}

/// Expanding from `i` on reads the context only through its values.
proof fn lemma_expand_from_same_values<E1: EvaluationContext, E2: EvaluationContext>(
    c1: &E1,
    c2: &E2,
    t: Seq<char>,
    i: int,
)
    requires
        forall|v: MacroVariable| c1.value_of(v) == c2.value_of(v),
    ensures
        expand_from(c1, t, i) == expand_from(c2, t, i),
    decreases t.len() - i,
{
    if 0 <= i < t.len() {
        assert(token_at(c1, t, i) == token_at(c2, t, i));
        if let Ok((piece, n)) = token_at(c1, t, i) {
            lemma_expand_from_same_values(c1, c2, t, i + 1 + n as int);
        }
    }
}

/// Two contexts that hold the same value for every variable expand every
/// text alike.
pub proof fn law_expansion_depends_only_on_values<E1: EvaluationContext, E2: EvaluationContext>(
    c1: &E1,
    c2: &E2,
    t: Seq<char>,
)
    requires
        forall|v: MacroVariable| c1.value_of(v) == c2.value_of(v),
    ensures
        expand(c1, t) == expand(c2, t),
{
    lemma_expand_from_same_values(c1, c2, t, 0);
}

/// Two sequence contexts that hold the same pairs, with one value per
/// variable, answer every lookup alike, whether or not either is ordered.
pub proof fn law_lookup_independent_of_order(a: &VecEvaluationContext, b: &VecEvaluationContext, v: MacroVariable)
    requires
        a@.to_set() == b@.to_set(),
        forall|x: (MacroVariable, Seq<char>), y: (MacroVariable, Seq<char>)|
            a@.to_set().contains(x) && a@.to_set().contains(y) && x.0 == y.0 ==> x == y,
    ensures
        a.value_of(v) == b.value_of(v),
{
    lemma_same_pairs_same_value(a, b, v);
}

/// Two sequence contexts that hold the same pairs, with one value per
/// variable, expand every text alike, whichever lookup path each takes.
pub proof fn law_same_pairs_same_expansion(a: &VecEvaluationContext, b: &VecEvaluationContext, t: Seq<char>)
    requires
        a@.to_set() == b@.to_set(),
        forall|x: (MacroVariable, Seq<char>), y: (MacroVariable, Seq<char>)|
            a@.to_set().contains(x) && a@.to_set().contains(y) && x.0 == y.0 ==> x == y,
    ensures
        expand(a, t) == expand(b, t),
{
    assert forall|v: MacroVariable| a.value_of(v) == b.value_of(v) by {
        lemma_same_pairs_same_value(a, b, v);
    }
    lemma_expand_from_same_values(a, b, t, 0);
}

/// The lookup of `v` agrees in two contexts with the same pairs, one value per variable.
proof fn lemma_same_pairs_same_value(a: &VecEvaluationContext, b: &VecEvaluationContext, v: MacroVariable)
    requires
        a@.to_set() == b@.to_set(),
        forall|x: (MacroVariable, Seq<char>), y: (MacroVariable, Seq<char>)|
            a@.to_set().contains(x) && a@.to_set().contains(y) && x.0 == y.0 ==> x == y,
    ensures
        a.value_of(v) == b.value_of(v),
{
    lemma_first_value_found(a@, v, 0);
    lemma_first_value_found(b@, v, 0);
    if a.value_of(v) is Some {
        let j = choose|j: int| 0 <= j < a@.len() && a@[j] == (v, a.value_of(v)->Some_0);
        assert(a@.to_set().contains(a@[j]));
        assert(b@.to_set().contains(a@[j]));
        let k = choose|k: int| 0 <= k < b@.len() && b@[k] == a@[j];
        assert(b@[k].0 == v);
    }
    if b.value_of(v) is Some {
        let k = choose|k: int| 0 <= k < b@.len() && b@[k] == (v, b.value_of(v)->Some_0);
        assert(b@.to_set().contains(b@[k]));
        assert(a@.to_set().contains(b@[k]));
        let j = choose|j: int| 0 <= j < a@.len() && a@[j] == b@[k];
        assert(a@[j].0 == v);
    }
}


/// Form-urlencoding a text made only of ASCII letters, digits and `*-._`
/// leaves it unchanged, so for such values an uppercase macro letter expands
/// exactly as the lowercase one does.
pub proof fn law_unreserved_text_encodes_to_itself(s: Seq<char>)
    requires
        forall|i: int| 0 <= i < s.len() ==> form_unchanged_char(#[trigger] s[i]),
    ensures
        form_encoded(encode_utf8(s)) == s,
{
    lemma_form_encoded_unchanged(s);
}

} // verus!
