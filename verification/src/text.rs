//! Text primitives shared by the encoder and the decoder: the order of
//! strings, decimal numerals, and appending to a `String`.

use vstd::prelude::*;
use vstd::std_specs::iter::IteratorSpec;

verus! {

/// `String::push` appends the given character to the end of the string.
pub assume_specification[ std::string::String::push ](text: &mut std::string::String, c: char)
    ensures
        final(text)@ == old(text)@.push(c),
;

/// The text of a string, if there is one.
pub open spec fn text_of(text: Option<String>) -> Option<Seq<char>> {
    match text {
        Some(text) => Some(text@),
        None => None,
    }
}

/// The order of strings: character by character, by code point, a proper prefix first.
pub open spec fn lex_less(a: Seq<char>, b: Seq<char>) -> bool
    decreases a.len(),
{
    if b.len() == 0 {
        false
    } else if a.len() == 0 {
        true
    } else if a[0] == b[0] {
        lex_less(a.drop_first(), b.drop_first())
    } else {
        a[0] < b[0]
    }
}

/// No string comes before itself.
pub proof fn lemma_lex_irreflexive(a: Seq<char>)
    ensures
        !lex_less(a, a),
    decreases a.len(),
{
    if a.len() > 0 {
        lemma_lex_irreflexive(a.drop_first());
    }
}

/// Of two different strings exactly one comes before the other.
pub proof fn lemma_lex_total(a: Seq<char>, b: Seq<char>)
    ensures
        a == b || lex_less(a, b) || lex_less(b, a),
        !(lex_less(a, b) && lex_less(b, a)),
    decreases a.len(),
{
    if a.len() == 0 || b.len() == 0 {
        if a.len() == 0 && b.len() == 0 {
            assert(a =~= b);
        }
    } else if a[0] == b[0] {
        lemma_lex_total(a.drop_first(), b.drop_first());
        if a.drop_first() == b.drop_first() {
            assert(a =~= seq![a[0]] + a.drop_first());
            assert(b =~= seq![b[0]] + b.drop_first());
        }
    }
}

/// The order is transitive.
pub proof fn lemma_lex_transitive(a: Seq<char>, b: Seq<char>, c: Seq<char>)
    requires
        lex_less(a, b),
        lex_less(b, c),
    ensures
        lex_less(a, c),
    decreases a.len(),
{
    if a.len() > 0 && a[0] == b[0] && b[0] == c[0] {
        lemma_lex_transitive(a.drop_first(), b.drop_first(), c.drop_first());
    }
}

/// Whether `a` comes before `b` in the order of strings.
pub fn precedes(a: &str, b: &str) -> (r: bool)
    ensures
        r == lex_less(a@, b@),
{
    let mut x = a.chars();
    let mut y = b.chars();
    loop
        invariant
            x.obeys_prophetic_iter_laws(),
            y.obeys_prophetic_iter_laws(),
            x.decrease() is Some,
            lex_less(a@, b@) == lex_less(x.remaining(), y.remaining()),
        decreases x.decrease()->0,
    {
        let p = x.next();
        let q = y.next();
        match (p, q) {
            (_, None) => {
                return false;
            },
            (None, Some(_)) => {
                return true;
            },
            (Some(c), Some(d)) => {
                if c != d {
                    return c < d;
                }
            },
        }
    }
}

/// Whether `a` and `b` are the same text.
pub fn same_text(a: &str, b: &str) -> (r: bool)
    ensures
        r == (a@ == b@),
{
    let mut x = a.chars();
    let mut y = b.chars();
    loop
        invariant
            x.obeys_prophetic_iter_laws(),
            y.obeys_prophetic_iter_laws(),
            x.decrease() is Some,
            (a@ == b@) == (x.remaining() == y.remaining()),
        decreases x.decrease()->0,
    {
        let ghost left = x.remaining();
        let ghost right = y.remaining();
        let p = x.next();
        let q = y.next();
        match (p, q) {
            (None, None) => {
                assert(left =~= right);
                return true;
            },
            (Some(c), Some(d)) => {
                if c != d {
                    return false;
                }
                assert(left =~= seq![c] + left.drop_first());
                assert(right =~= seq![d] + right.drop_first());
            },
            _ => {
                return false;
            },
        }
    }
}

/// The character that writes the digit `d`.
pub open spec fn decimal_digit(d: nat) -> char {
    seq!['0', '1', '2', '3', '4', '5', '6', '7', '8', '9'][d as int]
}

/// The decimal numeral of `n`, without leading zeros.
pub open spec fn decimal_text(n: nat) -> Seq<char>
    decreases n,
{
    if n < 10 {
        seq![decimal_digit(n)]
    } else {
        decimal_text(n / 10).push(decimal_digit(n % 10))
    }
}

/// The decimal numeral of `n`, with a minus sign in front where `n` is negative.
pub open spec fn signed_decimal_text(n: int) -> Seq<char> {
    if n < 0 {
        seq!['-'] + decimal_text((-n) as nat)
    } else {
        decimal_text(n as nat)
    }
}

fn digit_char(d: u8) -> (c: char)
    requires
        d < 10,
    ensures
        c == decimal_digit(d as nat),
{
    match d {
        0 => '0',
        1 => '1',
        2 => '2',
        3 => '3',
        4 => '4',
        5 => '5',
        6 => '6',
        7 => '7',
        8 => '8',
        _ => '9',
    }
}

/// Appends the decimal numeral of `n` to `out`.
pub fn push_decimal(out: &mut String, n: u128)
    ensures
        final(out)@ == old(out)@ + decimal_text(n as nat),
{
    let mut low: Vec<char> = Vec::new();
    let mut rest: u128 = n;
    while rest >= 10
        invariant
            decimal_text(n as nat) == decimal_text(rest as nat) + low@.reverse(),
        decreases rest,
    {
        let d: u8 = (rest % 10) as u8;
        let ghost before = low@;
        low.push(digit_char(d));
        assert(low@.reverse() =~= seq![decimal_digit(d as nat)] + before.reverse());
        assert(decimal_text(rest as nat) + before.reverse() =~= decimal_text((rest / 10) as nat)
            + low@.reverse());
        rest = rest / 10;
    }
    out.push(digit_char(rest as u8));
    let mut i: usize = low.len();
    while i > 0
        invariant
            i <= low.len(),
            out@ == old(out)@ + decimal_text(rest as nat) + low@.reverse().take(low.len() - i),
        decreases i,
    {
        i -= 1;
        out.push(low[i]);
        assert(low@.reverse().take(low.len() - i) =~= low@.reverse().take(low.len() - i - 1).push(
            low@[i as int],
        ));
    }
    assert(low@.reverse().take(low.len() as int) =~= low@.reverse());
}

/// Appends the decimal numeral of `n` to `out`, with a minus sign where `n` is negative.
pub fn push_signed_decimal(out: &mut String, n: i64)
    ensures
        final(out)@ == old(out)@ + signed_decimal_text(n as int),
{
    if n < 0 {
        out.push('-');
        let magnitude: u128 = (-(n as i128)) as u128;
        push_decimal(out, magnitude);
    } else {
        push_decimal(out, n as u128);
    }
}

/// Whether `c` is a decimal digit.
pub open spec fn is_digit(c: char) -> bool {
    '0' <= c && c <= '9'
}

/// Whether `text` is one decimal digit or more, and nothing else.
pub open spec fn all_digits(text: Seq<char>) -> bool {
    text.len() > 0 && forall|i: int| 0 <= i < text.len() ==> is_digit(#[trigger] text[i])
}

/// Whether `text` is digits, or digits, a point and digits.
pub open spec fn is_decimal_text(text: Seq<char>) -> bool {
    all_digits(text) || exists|at: int|
        0 <= at < text.len() && #[trigger] text[at] == '.' && all_digits(text.take(at))
            && all_digits(text.skip(at + 1))
}

/// Whether `text` is digits, with or without a sign in front.
pub open spec fn is_exponent_text(text: Seq<char>) -> bool {
    all_digits(text) || (text.len() > 0 && (text[0] == '-' || text[0] == '+') && all_digits(
        text.skip(1),
    ))
}

/// Whether `text` is a decimal, with or without an exponent behind it: an
/// `e` or `E` and the digits of the exponent, which may have a sign.
pub open spec fn is_number_text(text: Seq<char>) -> bool {
    is_decimal_text(text) || exists|at: int|
        0 <= at < text.len() && (#[trigger] text[at] == 'e' || text[at] == 'E')
            && is_decimal_text(text.take(at)) && is_exponent_text(text.skip(at + 1))
}

/// Whether `text` is the text of a floating-point number: a number in
/// decimal or exponential form, with or without a minus sign in front, or
/// one of `NaN`, `inf` and `-inf`.
pub open spec fn is_float_text(text: Seq<char>) -> bool {
    ||| text == seq!['N', 'a', 'N']
    ||| text == seq!['i', 'n', 'f']
    ||| text == seq!['-', 'i', 'n', 'f']
    ||| is_number_text(text)
    ||| (text.len() > 0 && text[0] == '-' && is_number_text(text.skip(1)))
}

/// A decimal holds digits and points only.
proof fn lemma_decimal_chars(text: Seq<char>)
    requires
        is_decimal_text(text),
    ensures
        forall|i: int| 0 <= i < text.len() ==> is_digit(#[trigger] text[i]) || text[i] == '.',
{
    if !all_digits(text) {
        let at = choose|at: int|
            0 <= at < text.len() && #[trigger] text[at] == '.' && all_digits(text.take(at))
                && all_digits(text.skip(at + 1));
        assert forall|i: int| 0 <= i < text.len() implies is_digit(#[trigger] text[i]) || text[i]
            == '.' by {
            if i < at {
                assert(text.take(at)[i] == text[i]);
            } else if i > at {
                assert(text.skip(at + 1)[i - at - 1] == text[i]);
            }
        }
    }
}

/// The characters of `text`.
fn chars_of(text: &str) -> (chars: Vec<char>)
    ensures
        chars@ == text@,
{
    let mut chars: Vec<char> = Vec::new();
    for c in it: text.chars()
        invariant
            it.seq() == text@,
            chars@ == text@.take(it.index() as int),
    {
        chars.push(c);
        assert(text@.take(it.index() + 1) =~= text@.take(it.index() as int).push(c));
    }
    assert(text@.take(text@.len() as int) =~= text@);
    chars
}

/// The first index from `from` on, and before `to`, at which `chars` has
/// `a` or `b`; `to` where it has neither.
fn first_of(chars: &Vec<char>, from: usize, to: usize, a: char, b: char) -> (at: usize)
    requires
        from <= to <= chars@.len(),
    ensures
        from <= at <= to,
        forall|j: int| from <= j < at ==> chars@[j] != a && chars@[j] != b,
        at < to ==> chars@[at as int] == a || chars@[at as int] == b,
{
    let mut at = from;
    while at < to
        invariant
            from <= at <= to <= chars@.len(),
            forall|j: int| from <= j < at ==> chars@[j] != a && chars@[j] != b,
        decreases to - at,
    {
        if chars[at] == a || chars[at] == b {
            return at;
        }
        at += 1;
    }
    at
}

/// Whether `chars` from `from` up to `to` is digits.
fn digits_in(chars: &Vec<char>, from: usize, to: usize) -> (r: bool)
    requires
        from <= to <= chars@.len(),
    ensures
        r == all_digits(chars@.subrange(from as int, to as int)),
{
    let ghost part = chars@.subrange(from as int, to as int);
    if from == to {
        return false;
    }
    let mut at = from;
    while at < to
        invariant
            from <= at <= to <= chars@.len(),
            part == chars@.subrange(from as int, to as int),
            forall|j: int| 0 <= j < at - from ==> is_digit(#[trigger] part[j]),
        decreases to - at,
    {
        let c = chars[at];
        if !('0' <= c && c <= '9') {
            assert(part[at - from] == c);
            return false;
        }
        at += 1;
    }
    true
}

/// Whether `chars` from `from` up to `to` is a decimal.
fn decimal_in(chars: &Vec<char>, from: usize, to: usize) -> (r: bool)
    requires
        from <= to <= chars@.len(),
    ensures
        r == is_decimal_text(chars@.subrange(from as int, to as int)),
{
    let ghost part = chars@.subrange(from as int, to as int);
    let point = first_of(chars, from, to, '.', '.');
    if point == to {
        proof {
            if exists|at: int|
                0 <= at < part.len() && #[trigger] part[at] == '.' && all_digits(part.take(at))
                    && all_digits(part.skip(at + 1)) {
                let at = choose|at: int|
                    0 <= at < part.len() && #[trigger] part[at] == '.' && all_digits(
                        part.take(at),
                    ) && all_digits(part.skip(at + 1));
                assert(chars@[from + at] == '.');
            }
        }
        return digits_in(chars, from, to);
    }
    let whole = digits_in(chars, from, point);
    let fraction = digits_in(chars, point + 1, to);
    proof {
        let split = point - from;
        assert(part[split] == '.');
        assert(part.take(split) =~= chars@.subrange(from as int, point as int));
        assert(part.skip(split + 1) =~= chars@.subrange(point + 1, to as int));
        assert(!all_digits(part));
        if is_decimal_text(part) {
            let at = choose|at: int|
                0 <= at < part.len() && #[trigger] part[at] == '.' && all_digits(part.take(at))
                    && all_digits(part.skip(at + 1));
            if at < split {
                assert(chars@[from + at] == '.');
            } else if at > split {
                assert(part.take(at)[split] == '.');
            }
        }
    }
    whole && fraction
}

/// Whether `chars` from `from` up to `to` is an exponent.
fn exponent_in(chars: &Vec<char>, from: usize, to: usize) -> (r: bool)
    requires
        from <= to <= chars@.len(),
    ensures
        r == is_exponent_text(chars@.subrange(from as int, to as int)),
{
    let ghost part = chars@.subrange(from as int, to as int);
    if from < to && (chars[from] == '-' || chars[from] == '+') {
        proof {
            assert(part[0] == chars@[from as int]);
            assert(part.skip(1) =~= chars@.subrange(from + 1, to as int));
            assert(!all_digits(part));
        }
        digits_in(chars, from + 1, to)
    } else {
        proof {
            if from < to {
                assert(part[0] == chars@[from as int]);
            }
        }
        digits_in(chars, from, to)
    }
}

/// Whether `chars` from `from` up to `to` is a number.
fn number_in(chars: &Vec<char>, from: usize, to: usize) -> (r: bool)
    requires
        from <= to <= chars@.len(),
    ensures
        r == is_number_text(chars@.subrange(from as int, to as int)),
{
    let ghost part = chars@.subrange(from as int, to as int);
    let mark = first_of(chars, from, to, 'e', 'E');
    if mark == to {
        proof {
            if exists|at: int|
                0 <= at < part.len() && (#[trigger] part[at] == 'e' || part[at] == 'E')
                    && is_decimal_text(part.take(at)) && is_exponent_text(part.skip(at + 1)) {
                let at = choose|at: int|
                    0 <= at < part.len() && (#[trigger] part[at] == 'e' || part[at] == 'E')
                        && is_decimal_text(part.take(at)) && is_exponent_text(part.skip(at + 1));
                assert(chars@[from + at] == part[at]);
            }
        }
        return decimal_in(chars, from, to);
    }
    let mantissa = decimal_in(chars, from, mark);
    let exponent = exponent_in(chars, mark + 1, to);
    proof {
        let split = mark - from;
        assert(part[split] == chars@[mark as int]);
        assert(part.take(split) =~= chars@.subrange(from as int, mark as int));
        assert(part.skip(split + 1) =~= chars@.subrange(mark + 1, to as int));
        if is_decimal_text(part) {
            lemma_decimal_chars(part);
            assert(is_digit(part[split]) || part[split] == '.');
        }
        if is_number_text(part) {
            let at = choose|at: int|
                0 <= at < part.len() && (#[trigger] part[at] == 'e' || part[at] == 'E')
                    && is_decimal_text(part.take(at)) && is_exponent_text(part.skip(at + 1));
            if at < split {
                assert(chars@[from + at] == part[at]);
            } else if at > split {
                lemma_decimal_chars(part.take(at));
                assert(part.take(at)[split] == part[split]);
            }
        }
    }
    mantissa && exponent
}

/// Whether `text` is the text of a floating-point number.
pub fn is_float(text: &str) -> (r: bool)
    ensures
        r == is_float_text(text@),
{
    let chars = chars_of(text);
    let n = chars.len();
    assert(chars@.subrange(0, n as int) =~= chars@);
    if n == 3 && chars[0] == 'N' && chars[1] == 'a' && chars[2] == 'N' {
        assert(chars@ =~= seq!['N', 'a', 'N']);
        return true;
    }
    if n == 3 && chars[0] == 'i' && chars[1] == 'n' && chars[2] == 'f' {
        assert(chars@ =~= seq!['i', 'n', 'f']);
        return true;
    }
    if n == 4 && chars[0] == '-' && chars[1] == 'i' && chars[2] == 'n' && chars[3] == 'f' {
        assert(chars@ =~= seq!['-', 'i', 'n', 'f']);
        return true;
    }
    if number_in(&chars, 0, n) {
        return true;
    }
    if n > 0 && chars[0] == '-' {
        assert(chars@.skip(1) =~= chars@.subrange(1, n as int));
        return number_in(&chars, 1, n);
    }
    false
}

} // verus!
