//! The literals of the query language: whole numbers, fractional numbers,
//! bare words, and the lists between square brackets.

use vstd::prelude::*;
use crate::query::value::{all_of_kind, views_of, Decimal, Kind, Value, ValueView};
use crate::text::{
    all_digits, char_to_digit, check_all_digits, check_word_char, digit_of, digits_value,
    is_word_char, leading_spaces, read_digits, skip_spaces, slice_of,
    string_of, texts_of, trim, trimmed,
};

verus! {

/// The position of the first `c` in `s`; the length of `s` if there is none.
pub open spec fn position(s: Seq<char>, c: char) -> int
    decreases s.len(),
{
    if s.len() == 0 || s[0] == c {
        0
    } else {
        1 + position(s.drop_first(), c)
    }
}

pub proof fn lemma_position(s: Seq<char>, c: char)
    ensures
        0 <= position(s, c) <= s.len(),
        forall|j: int| 0 <= j < position(s, c) ==> #[trigger] s[j] != c,
        position(s, c) < s.len() ==> s[position(s, c)] == c,
    decreases s.len(),
{
    if s.len() == 0 || s[0] == c {
    } else {
        let t = s.drop_first();
        lemma_position(t, c);
        assert forall|j: int| 0 <= j < position(s, c) implies #[trigger] s[j] != c by {
            if j > 0 {
                assert(s[j] == t[j - 1]);
            }
        }
        if position(s, c) < s.len() {
            assert(s[position(s, c)] == t[position(t, c)]);
        }
    }
}

/// The first `c` is where a `c` stands with none before it.
pub proof fn lemma_position_is(s: Seq<char>, c: char, n: int)
    requires
        0 <= n <= s.len(),
        forall|j: int| 0 <= j < n ==> #[trigger] s[j] != c,
        n < s.len() ==> s[n] == c,
    ensures
        position(s, c) == n,
    decreases s.len(),
{
    if n > 0 {
        let t = s.drop_first();
        assert(s[0] != c);
        assert forall|j: int| 0 <= j < n - 1 implies #[trigger] t[j] != c by {
            assert(t[j] == s[j + 1]);
        }
        if n - 1 < t.len() {
            assert(t[n - 1] == s[n]);
        }
        lemma_position_is(t, c, n - 1);
    }
}

/// Whether the character `c` does not stand in `s`.
pub open spec fn free_of(s: Seq<char>, c: char) -> bool {
    forall|i: int| 0 <= i < s.len() ==> #[trigger] s[i] != c
}

/// The position of the first `c` in `v` at or after `from`.
pub fn find(v: &[char], from: usize, c: char) -> (r: usize)
    requires
        from <= v.len(),
    ensures
        r == from + position(v@.skip(from as int), c),
        from <= r <= v.len(),
{
    let mut i: usize = from;
    while i < v.len() && v[i] != c
        invariant
            from <= i <= v.len(),
            forall|j: int| from <= j < i ==> #[trigger] v@[j] != c,
        decreases v.len() - i,
    {
        i += 1;
    }
    proof {
        let s = v@.skip(from as int);
        assert forall|j: int| 0 <= j < i - from implies #[trigger] s[j] != c by {
            assert(s[j] == v@[j + from]);
        }
        lemma_position_is(s, c, i - from);
    }
    i
}

/// The pieces of `s` between the occurrences of `sep`: one more piece than
/// there are occurrences.
pub open spec fn split_on(s: Seq<char>, sep: char) -> Seq<Seq<char>>
    decreases s.len(),
{
    let k = position(s, sep);
    if k < 0 || k >= s.len() {
        seq![s]
    } else {
        seq![s.take(k)] + split_on(s.skip(k + 1), sep)
    }
}

/// A text in which the separator does not stand is one piece.
pub proof fn lemma_split_last(piece: Seq<char>, sep: char)
    requires
        free_of(piece, sep),
    ensures
        split_on(piece, sep) == seq![piece],
{
    lemma_position_is(piece, sep, piece.len() as int);
}

/// The first piece of a text ends at the first separator, and the other
/// pieces are those of what stands behind it.
pub proof fn lemma_split_next(piece: Seq<char>, sep: char, rest: Seq<char>)
    requires
        free_of(piece, sep),
    ensures
        split_on(piece + seq![sep] + rest, sep) == seq![piece] + split_on(rest, sep),
{
    let s = piece + seq![sep] + rest;
    assert forall|j: int| 0 <= j < piece.len() implies #[trigger] s[j] != sep by {
        assert(s[j] == piece[j]);
    }
    assert(s[piece.len() as int] == sep);
    lemma_position_is(s, sep, piece.len() as int);
    assert(s.take(piece.len() as int) =~= piece);
    assert(s.skip(piece.len() as int + 1) =~= rest);
}

/// The pieces of `v` between the occurrences of `sep`.
pub fn split(v: &[char], sep: char) -> (r: Vec<Vec<char>>)
    ensures
        r@.len() == split_on(v@, sep).len(),
        forall|i: int| 0 <= i < r@.len() ==> (#[trigger] r@[i])@ == split_on(v@, sep)[i],
        r@.len() >= 1,
{
    let mut out: Vec<Vec<char>> = Vec::new();
    let mut start: usize = 0;
    let ghost mut done: Seq<Seq<char>> = seq![];
    proof {
        assert(v@.skip(0) =~= v@);
    }
    loop
        invariant_except_break
            split_on(v@, sep) == done + split_on(v@.skip(start as int), sep),
        invariant
            start <= v.len(),
            out@.len() == done.len(),
            forall|i: int| 0 <= i < out@.len() ==> (#[trigger] out@[i])@ == done[i],
        ensures
            out@.len() == split_on(v@, sep).len(),
            forall|i: int| 0 <= i < out@.len() ==> (#[trigger] out@[i])@ == split_on(v@, sep)[i],
            out@.len() >= 1,
        decreases v.len() - start,
    {
        let end = find(v, start, sep);
        let piece = slice_of(v, start, end);
        let ghost rest = v@.skip(start as int);
        proof {
            lemma_position(rest, sep);
            assert(v@.subrange(start as int, end as int) =~= rest.take(end - start));
        }
        out.push(piece);
        if end >= v.len() {
            proof {
                assert(rest.take(end - start) =~= rest);
                done = done.push(rest);
                assert(split_on(v@, sep) =~= done);
            }
            break ;
        }
        proof {
            assert(rest.skip(end - start + 1) =~= v@.skip(end + 1));
            assert(done + (seq![rest.take(end - start)] + split_on(v@.skip(end + 1), sep))
                =~= done.push(rest.take(end - start)) + split_on(v@.skip(end + 1), sep));
            done = done.push(rest.take(end - start));
        }
        start = end + 1;
    }
    out
}

/// Whether `s` begins with a minus sign.
pub open spec fn is_negative(s: Seq<char>) -> bool {
    s.len() > 0 && s[0] == '-'
}

/// `s` without the minus sign that it may begin with.
pub open spec fn unsigned_part(s: Seq<char>) -> Seq<char> {
    if is_negative(s) {
        s.skip(1)
    } else {
        s
    }
}

/// A whole number as written: an optional `-`, then one or more decimal
/// digits and nothing else.
pub open spec fn is_integer(s: Seq<char>) -> bool {
    unsigned_part(s).len() > 0 && all_digits(unsigned_part(s))
}

/// The number that a whole-number literal writes.
pub open spec fn integer_value(s: Seq<char>) -> int {
    if is_negative(s) {
        -(digits_value(unsigned_part(s)) as int)
    } else {
        digits_value(unsigned_part(s)) as int
    }
}

fn unsigned_of(s: &[char]) -> (r: (bool, Vec<char>))
    ensures
        r.0 == is_negative(s@),
        r.1@ == unsigned_part(s@),
{
    if s.len() > 0 && s[0] == '-' {
        let rest = slice_of(s, 1, s.len());
        assert(s@.subrange(1, s.len() as int) =~= s@.skip(1));
        (true, rest)
    } else {
        let rest = slice_of(s, 0, s.len());
        assert(s@.subrange(0, s.len() as int) =~= s@);
        (false, rest)
    }
}

/// Reads a whole-number literal: `None` where `s` is no such literal,
/// `Some(None)` where it writes a number outside the range of `i64`, and the
/// number otherwise.
pub fn read_integer(s: &[char]) -> (r: Option<Option<i64>>)
    ensures
        r is Some <==> is_integer(s@),
        r is Some ==> (r->0 is Some <==> i64::MIN <= integer_value(s@) <= i64::MAX),
        r is Some && r->0 is Some ==> r->0->0 == integer_value(s@),
{
    let (negative, digits) = unsigned_of(s);
    if digits.len() == 0 || !check_all_digits(digits.as_slice()) {
        return None;
    }
    if negative {
        match read_digits(digits.as_slice(), 0x8000_0000_0000_0000) {
            None => Some(None),
            Some(magnitude) => {
                if magnitude == 0x8000_0000_0000_0000 {
                    Some(Some(i64::MIN))
                } else {
                    Some(Some(-(magnitude as i64)))
                }
            },
        }
    } else {
        match read_digits(digits.as_slice(), 0x7fff_ffff_ffff_ffff) {
            None => Some(None),
            Some(magnitude) => Some(Some(magnitude as i64)),
        }
    }
}

/// The number that the first `places` digits behind a decimal point write,
/// counted in units of the last of those places; digits that `frac` does not
/// have count as zero, and digits behind them are dropped.
pub open spec fn scaled_fraction(frac: Seq<char>, places: nat) -> nat
    decreases places,
{
    if places == 0 {
        0
    } else {
        scaled_fraction(frac, (places - 1) as nat) * 10 + (if places - 1 < frac.len() {
            digit_of(frac[places - 1]) as nat
        } else {
            0
        })
    }
}

/// Ten to the power `n`.
pub open spec fn pow10(n: nat) -> nat
    decreases n,
{
    if n == 0 {
        1
    } else {
        10 * pow10((n - 1) as nat)
    }
}

pub proof fn lemma_scaled_fraction_bound(frac: Seq<char>, places: nat)
    requires
        all_digits(frac),
    ensures
        scaled_fraction(frac, places) < pow10(places),
    decreases places,
{
    if places > 0 {
        lemma_scaled_fraction_bound(frac, (places - 1) as nat);
        if places - 1 < frac.len() {
            assert(crate::text::is_digit(frac[places - 1]));
        }
    }
}

/// A fractional number as written: an optional `-`, one or more digits, a
/// point, and one or more digits.
pub open spec fn is_decimal(s: Seq<char>) -> bool {
    let u = unsigned_part(s);
    let k = position(u, '.');
    &&& 0 < k
    &&& k + 1 < u.len()
    &&& all_digits(u.take(k))
    &&& all_digits(u.skip(k + 1))
}

/// The size of the number that a fractional literal writes, in units of
/// `10^-18`. Digits behind the eighteenth decimal place are dropped.
pub open spec fn decimal_magnitude(s: Seq<char>) -> nat {
    let u = unsigned_part(s);
    let k = position(u, '.');
    digits_value(u.take(k)) * pow10(18) + scaled_fraction(u.skip(k + 1), 18)
}

/// The number that a fractional literal writes, in units of `10^-18`.
pub open spec fn decimal_units(s: Seq<char>) -> int {
    if is_negative(s) {
        -(decimal_magnitude(s) as int)
    } else {
        decimal_magnitude(s) as int
    }
}

pub proof fn lemma_pow10_18()
    ensures
        pow10(18) == 1_000_000_000_000_000_000,
{
    reveal_with_fuel(pow10, 20);
}

fn read_fraction(frac: &[char]) -> (r: u128)
    requires
        all_digits(frac@),
    ensures
        r == scaled_fraction(frac@, 18),
        r < 1_000_000_000_000_000_000,
{
    let mut acc: u128 = 0;
    let mut i: usize = 0;
    proof {
        lemma_pow10_18();
    }
    while i < 18
        invariant
            i <= 18,
            all_digits(frac@),
            acc == scaled_fraction(frac@, i as nat),
            acc < pow10(i as nat),
            pow10(i as nat) <= pow10(18),
            pow10(18) == 1_000_000_000_000_000_000,
        decreases 18 - i,
    {
        let d: u128 = if i < frac.len() {
            char_to_digit(frac[i]) as u128
        } else {
            0
        };
        proof {
            lemma_scaled_fraction_bound(frac@, (i + 1) as nat);
            lemma_pow10_grows((i + 1) as nat, 18);
        }
        acc = acc * 10 + d;
        i += 1;
    }
    acc
}

pub proof fn lemma_pow10_grows(a: nat, b: nat)
    requires
        a <= b,
    ensures
        pow10(a) <= pow10(b),
        pow10(a) >= 1,
    decreases b,
{
    if a < b {
        lemma_pow10_grows(a, (b - 1) as nat);
    } else if a > 0 {
        lemma_pow10_grows((a - 1) as nat, (a - 1) as nat);
    }
}

/// Reads a fractional literal: `None` where `s` is no such literal,
/// `Some(None)` where the number is too large to be held, and the number
/// otherwise.
pub fn read_decimal(s: &[char]) -> (r: Option<Option<Decimal>>)
    ensures
        r is Some <==> is_decimal(s@),
        r is Some ==> (r->0 is Some <==> decimal_magnitude(s@) <= i128::MAX),
        r is Some && r->0 is Some ==> r->0->0.units == decimal_units(s@),
{
    let (negative, digits) = unsigned_of(s);
    let point = find(digits.as_slice(), 0, '.');
    proof {
        assert(digits@.skip(0) =~= digits@);
    }
    if point == 0 || point >= digits.len() || point + 1 >= digits.len() {
        return None;
    }
    let whole = slice_of(digits.as_slice(), 0, point);
    let frac = slice_of(digits.as_slice(), point + 1, digits.len());
    proof {
        assert(digits@.subrange(0, point as int) =~= digits@.take(point as int));
        assert(digits@.subrange(point + 1, digits.len() as int) =~= digits@.skip(point + 1));
    }
    if !check_all_digits(whole.as_slice()) || !check_all_digits(frac.as_slice()) {
        return None;
    }
    proof {
        lemma_pow10_18();
    }
    let fraction = read_fraction(frac.as_slice());
    match read_digits(whole.as_slice(), 170141183460469231731) {
        None => {
            assert(decimal_magnitude(s@) > i128::MAX) by (nonlinear_arith)
                requires
                    decimal_magnitude(s@) == digits_value(whole@) * 1_000_000_000_000_000_000
                        + fraction,
                    digits_value(whole@) > 170141183460469231731,
            ;
            Some(None)
        },
        Some(w) => {
            assert(w * 1_000_000_000_000_000_000 <= 170141183460469231731
                * 1_000_000_000_000_000_000) by (nonlinear_arith)
                requires
                    w <= 170141183460469231731,
            ;
            let magnitude: u128 = w * 1_000_000_000_000_000_000 + fraction;
            if magnitude > 0x7fff_ffff_ffff_ffff_ffff_ffff_ffff_ffff {
                Some(None)
            } else if negative {
                Some(Some(Decimal { units: -(magnitude as i128) }))
            } else {
                Some(Some(Decimal { units: magnitude as i128 }))
            }
        },
    }
}

/// A bare word: one or more letters, digits and underscores.
pub open spec fn is_bare_word(s: Seq<char>) -> bool {
    s.len() > 0 && forall|i: int| 0 <= i < s.len() ==> is_word_char(#[trigger] s[i])
}

pub fn check_bare_word(s: &[char]) -> (r: bool)
    ensures
        r == is_bare_word(s@),
{
    if s.len() == 0 {
        return false;
    }
    let mut i: usize = 0;
    while i < s.len()
        invariant
            i <= s.len(),
            forall|j: int| 0 <= j < i ==> is_word_char(#[trigger] s@[j]),
        decreases s.len() - i,
    {
        if !check_word_char(s[i]) {
            return false;
        }
        i += 1;
    }
    true
}

/// The pieces of `content` between its commas, each without the blanks
/// around it.
pub open spec fn trimmed_pieces(content: Seq<char>) -> Seq<Seq<char>> {
    let pieces = split_on(content, ',');
    Seq::new(pieces.len(), |i: int| trimmed(pieces[i]))
}

/// The pieces of `content` between its commas, each without the blanks
/// around it.
pub fn read_pieces(content: &[char]) -> (r: Vec<Vec<char>>)
    ensures
        r@.len() == trimmed_pieces(content@).len(),
        forall|i: int| 0 <= i < r@.len() ==> (#[trigger] r@[i])@ == trimmed_pieces(content@)[i],
        r@.len() >= 1,
{
    let pieces = split(content, ',');
    let mut out: Vec<Vec<char>> = Vec::new();
    let mut i: usize = 0;
    while i < pieces.len()
        invariant
            i <= pieces.len(),
            out@.len() == i,
            pieces@.len() == split_on(content@, ',').len(),
            forall|j: int|
                0 <= j < pieces@.len() ==> (#[trigger] pieces@[j])@ == split_on(content@, ',')[j],
            forall|j: int| 0 <= j < i ==> (#[trigger] out@[j])@ == trimmed_pieces(content@)[j],
        decreases pieces.len() - i,
    {
        out.push(trim(pieces[i].as_slice()));
        i += 1;
    }
    out
}

/// A list of attribute names as written between the brackets of an
/// aggregation: bare words between commas, with blanks allowed around each.
/// `None` where a piece is no bare word.
pub open spec fn names_spec(content: Seq<char>) -> Option<Seq<Seq<char>>> {
    let pieces = trimmed_pieces(content);
    if forall|i: int| 0 <= i < pieces.len() ==> is_bare_word(#[trigger] pieces[i]) {
        Some(pieces)
    } else {
        None
    }
}

/// Reads a list of attribute names.
pub fn read_names(content: &[char]) -> (r: Option<Vec<String>>)
    ensures
        match r {
            Some(names) => names_spec(content@) == Some(texts_of(names@)),
            None => names_spec(content@) is None,
        },
{
    let pieces = read_pieces(content);
    let mut out: Vec<String> = Vec::new();
    let mut i: usize = 0;
    while i < pieces.len()
        invariant
            i <= pieces.len(),
            out@.len() == i,
            pieces@.len() == trimmed_pieces(content@).len(),
            forall|j: int|
                0 <= j < pieces@.len() ==> (#[trigger] pieces@[j])@ == trimmed_pieces(content@)[j],
            forall|j: int| 0 <= j < i ==> is_bare_word(#[trigger] trimmed_pieces(content@)[j]),
            forall|j: int| 0 <= j < i ==> (#[trigger] out@[j])@ == trimmed_pieces(content@)[j],
        decreases pieces.len() - i,
    {
        if !check_bare_word(pieces[i].as_slice()) {
            assert(!is_bare_word(trimmed_pieces(content@)[i as int]));
            return None;
        }
        out.push(string_of(pieces[i].as_slice()));
        i += 1;
    }
    assert(texts_of(out@) =~= trimmed_pieces(content@));
    Some(out)
}

/// The items of a list of strings as written between square brackets: each
/// item stands between double quotes, items are parted by commas, and
/// blanks may stand around an item. `None` where `s` is not written so.
pub open spec fn string_items(s: Seq<char>) -> Option<Seq<Seq<char>>>
    decreases s.len(),
{
    let open = leading_spaces(s) as int;
    if open >= s.len() || s[open] != '"' {
        None
    } else {
        let close = open + 1 + position(s.skip(open + 1), '"');
        if close >= s.len() {
            None
        } else {
            let body = s.subrange(open + 1, close);
            let next = close + 1 + leading_spaces(s.skip(close + 1));
            if next >= s.len() {
                Some(seq![body])
            } else if s[next] != ',' {
                None
            } else {
                proof {
                    lemma_position(s.skip(open + 1), '"');
                }
                match string_items(s.skip(next + 1)) {
                    Some(rest) => Some(seq![body] + rest),
                    None => None,
                }
            }
        }
    }
}

/// One string between double quotes is a list of one string.
pub proof fn lemma_string_items_last(body: Seq<char>)
    requires
        free_of(body, '"'),
    ensures
        string_items(seq!['"'] + body + seq!['"']) == Some(seq![body]),
{
    let s = seq!['"'] + body + seq!['"'];
    let n = body.len() as int;
    let inner = s.skip(1);
    assert(inner =~= body + seq!['"']);
    assert forall|j: int| 0 <= j < body.len() implies #[trigger] inner[j] != '"' by {
        assert(inner[j] == body[j]);
    }
    lemma_position_is(inner, '"', body.len() as int);
    assert(s.subrange(1, 1 + n) =~= body);
    assert(s.skip(n + 2) =~= Seq::<char>::empty());
}

/// A string between double quotes with a comma behind it is the first item
/// of a list, and the other items are those of what stands behind the
/// comma.
pub proof fn lemma_string_items_next(body: Seq<char>, rest: Seq<char>)
    requires
        free_of(body, '"'),
    ensures
        string_items(seq!['"'] + body + seq!['"', ','] + rest) == items_then(
            seq![body],
            string_items(rest),
        ),
{
    let s = seq!['"'] + body + seq!['"', ','] + rest;
    let n = body.len() as int;
    let inner = s.skip(1);
    assert(inner =~= body + seq!['"', ','] + rest);
    assert forall|j: int| 0 <= j < body.len() implies #[trigger] inner[j] != '"' by {
        assert(inner[j] == body[j]);
    }
    assert(inner[body.len() as int] == '"');
    lemma_position_is(inner, '"', body.len() as int);
    assert(s.subrange(1, 1 + n) =~= body);
    let behind = s.skip(n + 2);
    assert(behind =~= seq![','] + rest);
    assert(behind[0] == ',');
    assert(s[n + 2] == ',');
    assert(s.skip(n + 3) =~= rest);
}

/// The items `done` followed by the items of `rest`, if `rest` has any.
pub open spec fn items_then(done: Seq<Seq<char>>, rest: Option<Seq<Seq<char>>>) -> Option<
    Seq<Seq<char>>,
> {
    match rest {
        Some(items) => Some(done + items),
        None => None,
    }
}

/// Reads a list of strings.
pub fn read_string_items(content: &[char]) -> (r: Option<Vec<String>>)
    ensures
        match r {
            Some(items) => string_items(content@) == Some(texts_of(items@)),
            None => string_items(content@) is None,
        },
{
    let mut out: Vec<String> = Vec::new();
    let mut at: usize = 0;
    proof {
        assert(content@.skip(0) =~= content@);
        assert(seq![] + string_items(content@)->0 =~= string_items(content@)->0);
    }
    loop
        invariant
            at <= content.len(),
            string_items(content@) == items_then(
                texts_of(out@),
                string_items(content@.skip(at as int)),
            ),
        decreases content.len() - at,
    {
        let ghost s = content@.skip(at as int);
        let open = skip_spaces(content, at);
        if open >= content.len() || content[open] != '"' {
            return None;
        }
        let close = find(content, open + 1, '"');
        proof {
            assert(s.skip(open - at + 1) =~= content@.skip(open + 1));
            lemma_position(s.skip(open - at + 1), '"');
        }
        if close >= content.len() {
            return None;
        }
        let body = slice_of(content, open + 1, close);
        let next = skip_spaces(content, close + 1);
        proof {
            assert(s.skip(close - at + 1) =~= content@.skip(close + 1));
            assert(s.subrange(open - at + 1, close - at) =~= content@.subrange(
                open + 1,
                close as int,
            ));
        }
        let ghost before = texts_of(out@);
        out.push(string_of(body.as_slice()));
        proof {
            assert(texts_of(out@) =~= before.push(body@));
        }
        if next >= content.len() {
            proof {
                assert(before + seq![body@] =~= before.push(body@));
            }
            return Some(out);
        }
        if content[next] != ',' {
            return None;
        }
        proof {
            assert(s.skip(next - at + 1) =~= content@.skip(next + 1));
            let rest = string_items(content@.skip(next + 1));
            if rest is Some {
                assert(before + (seq![body@] + rest->0) =~= before.push(body@) + rest->0);
            }
        }
        at = next + 1;
    }
}

/// A list of whole numbers as written between square brackets: whole-number
/// literals between commas, with blanks allowed around each.
pub open spec fn is_integer_list(content: Seq<char>) -> bool {
    let pieces = trimmed_pieces(content);
    forall|i: int| 0 <= i < pieces.len() ==> is_integer(#[trigger] pieces[i])
}

/// Whether every number of a list of whole numbers can be held.
pub open spec fn integers_fit(content: Seq<char>) -> bool {
    let pieces = trimmed_pieces(content);
    forall|i: int|
        0 <= i < pieces.len() ==> i64::MIN <= integer_value(#[trigger] pieces[i]) <= i64::MAX
}

/// The values of a list of whole numbers.
pub open spec fn integer_items(content: Seq<char>) -> Seq<ValueView> {
    let pieces = trimmed_pieces(content);
    Seq::new(pieces.len(), |i: int| ValueView::Int(integer_value(pieces[i]) as i64))
}

/// A list of fractional numbers as written between square brackets.
pub open spec fn is_decimal_list(content: Seq<char>) -> bool {
    let pieces = trimmed_pieces(content);
    forall|i: int| 0 <= i < pieces.len() ==> is_decimal(#[trigger] pieces[i])
}

/// Whether every number of a list of fractional numbers can be held.
pub open spec fn decimals_fit(content: Seq<char>) -> bool {
    let pieces = trimmed_pieces(content);
    forall|i: int| 0 <= i < pieces.len() ==> decimal_magnitude(#[trigger] pieces[i]) <= i128::MAX
}

/// The values of a list of fractional numbers.
pub open spec fn decimal_items(content: Seq<char>) -> Seq<ValueView> {
    let pieces = trimmed_pieces(content);
    Seq::new(
        pieces.len(),
        |i: int| ValueView::Float(Decimal { units: decimal_units(pieces[i]) as i128 }),
    )
}

/// The strings of `texts` as values.
pub open spec fn string_values(texts: Seq<Seq<char>>) -> Seq<ValueView> {
    Seq::new(texts.len(), |i: int| ValueView::Str(texts[i]))
}

/// What the text between square brackets denotes: `None` where it is no
/// list, `Some(None)` where it is a list of numbers of which one cannot be
/// held, and the items otherwise. A list is a list of strings, of whole
/// numbers or of fractional numbers, and has at least one item.
pub open spec fn list_spec(content: Seq<char>) -> Option<Option<Seq<ValueView>>> {
    if string_items(content) is Some {
        Some(Some(string_values(string_items(content)->0)))
    } else if is_integer_list(content) {
        if integers_fit(content) {
            Some(Some(integer_items(content)))
        } else {
            Some(None)
        }
    } else if is_decimal_list(content) {
        if decimals_fit(content) {
            Some(Some(decimal_items(content)))
        } else {
            Some(None)
        }
    } else {
        None
    }
}

fn read_integer_items(pieces: &Vec<Vec<char>>, Ghost(content): Ghost<Seq<char>>) -> (r: Option<
    Option<Vec<Value>>,
>)
    requires
        pieces@.len() == trimmed_pieces(content).len(),
        forall|i: int|
            0 <= i < pieces@.len() ==> (#[trigger] pieces@[i])@ == trimmed_pieces(content)[i],
    ensures
        r is Some <==> is_integer_list(content),
        r is Some ==> (r->0 is Some <==> integers_fit(content)),
        r is Some && r->0 is Some ==> views_of(r->0->0@) == integer_items(content),
{
    let mut out: Vec<Value> = Vec::new();
    let mut fit = true;
    let mut i: usize = 0;
    while i < pieces.len()
        invariant
            i <= pieces.len(),
            pieces@.len() == trimmed_pieces(content).len(),
            forall|j: int|
                0 <= j < pieces@.len() ==> (#[trigger] pieces@[j])@ == trimmed_pieces(content)[j],
            forall|j: int| 0 <= j < i ==> is_integer(#[trigger] trimmed_pieces(content)[j]),
            fit <==> forall|j: int|
                0 <= j < i ==> i64::MIN <= integer_value(#[trigger] trimmed_pieces(content)[j])
                    <= i64::MAX,
            fit ==> out@.len() == i,
            fit ==> forall|j: int|
                0 <= j < i ==> (#[trigger] out@[j])@ == ValueView::Int(
                    integer_value(trimmed_pieces(content)[j]) as i64,
                ),
        decreases pieces.len() - i,
    {
        match read_integer(pieces[i].as_slice()) {
            None => {
                assert(!is_integer(trimmed_pieces(content)[i as int]));
                return None;
            },
            Some(None) => {
                assert(!(i64::MIN <= integer_value(trimmed_pieces(content)[i as int])
                    <= i64::MAX));
                fit = false;
            },
            Some(Some(v)) => {
                if fit {
                    out.push(Value::Int(v));
                }
            },
        }
        i += 1;
    }
    if fit {
        assert(views_of(out@) =~= integer_items(content));
        Some(Some(out))
    } else {
        Some(None)
    }
}

fn read_decimal_items(pieces: &Vec<Vec<char>>, Ghost(content): Ghost<Seq<char>>) -> (r: Option<
    Option<Vec<Value>>,
>)
    requires
        pieces@.len() == trimmed_pieces(content).len(),
        forall|i: int|
            0 <= i < pieces@.len() ==> (#[trigger] pieces@[i])@ == trimmed_pieces(content)[i],
    ensures
        r is Some <==> is_decimal_list(content),
        r is Some ==> (r->0 is Some <==> decimals_fit(content)),
        r is Some && r->0 is Some ==> views_of(r->0->0@) == decimal_items(content),
{
    let mut out: Vec<Value> = Vec::new();
    let mut fit = true;
    let mut i: usize = 0;
    while i < pieces.len()
        invariant
            i <= pieces.len(),
            pieces@.len() == trimmed_pieces(content).len(),
            forall|j: int|
                0 <= j < pieces@.len() ==> (#[trigger] pieces@[j])@ == trimmed_pieces(content)[j],
            forall|j: int| 0 <= j < i ==> is_decimal(#[trigger] trimmed_pieces(content)[j]),
            fit <==> forall|j: int|
                0 <= j < i ==> decimal_magnitude(#[trigger] trimmed_pieces(content)[j])
                    <= i128::MAX,
            fit ==> out@.len() == i,
            fit ==> forall|j: int|
                0 <= j < i ==> (#[trigger] out@[j])@ == ValueView::Float(
                    Decimal { units: decimal_units(trimmed_pieces(content)[j]) as i128 },
                ),
        decreases pieces.len() - i,
    {
        match read_decimal(pieces[i].as_slice()) {
            None => {
                assert(!is_decimal(trimmed_pieces(content)[i as int]));
                return None;
            },
            Some(None) => {
                assert(!(decimal_magnitude(trimmed_pieces(content)[i as int]) <= i128::MAX));
                fit = false;
            },
            Some(Some(d)) => {
                if fit {
                    out.push(Value::Float(d));
                }
            },
        }
        i += 1;
    }
    if fit {
        assert(views_of(out@) =~= decimal_items(content));
        Some(Some(out))
    } else {
        Some(None)
    }
}

/// Reads the text between square brackets as a list.
pub fn read_list(content: &[char]) -> (r: Option<Option<Vec<Value>>>)
    ensures
        match r {
            Some(Some(items)) => list_spec(content@) == Some(Some(views_of(items@))),
            Some(None) => list_spec(content@) == Some(None::<Seq<ValueView>>),
            None => list_spec(content@) is None,
        },
{
    match read_string_items(content) {
        Some(texts) => {
            let mut out: Vec<Value> = Vec::new();
            let mut texts = texts;
            let ghost all = texts_of(texts@);
            let mut i: usize = 0;
            while i < texts.len()
                invariant
                    i <= texts.len(),
                    out@.len() == i,
                    texts_of(texts@) == all,
                    forall|j: int| 0 <= j < i ==> (#[trigger] out@[j])@ == ValueView::Str(all[j]),
                decreases texts.len() - i,
            {
                assert(texts_of(texts@)[i as int] == texts@[i as int]@);
                out.push(Value::Str(texts[i].clone()));
                i += 1;
            }
            assert(views_of(out@) =~= string_values(all));
            return Some(Some(out));
        },
        None => {},
    }
    let pieces = read_pieces(content);
    match read_integer_items(&pieces, Ghost(content@)) {
        Some(r) => {
            return Some(r);
        },
        None => {},
    }
    match read_decimal_items(&pieces, Ghost(content@)) {
        Some(r) => Some(r),
        None => None,
    }
}

/// Every list literal denotes a list of one variant: a list written as
/// strings holds strings only, one written as whole numbers holds whole
/// numbers only, and one written as fractional numbers holds fractional
/// numbers only. A list is never empty.
pub proof fn lemma_list_is_uniform(content: Seq<char>)
    requires
        list_spec(content) is Some,
        list_spec(content)->0 is Some,
    ensures
        list_spec(content)->0->0.len() >= 1,
        string_items(content) is Some ==> all_of_kind(list_spec(content)->0->0, Kind::Str),
        string_items(content) is None && is_integer_list(content) ==> all_of_kind(
            list_spec(content)->0->0,
            Kind::Int,
        ),
        string_items(content) is None && !is_integer_list(content) ==> all_of_kind(
            list_spec(content)->0->0,
            Kind::Float,
        ),
{
    lemma_split_nonempty(content, ',');
    if string_items(content) is Some {
        lemma_string_items_nonempty(content);
    }
}

pub proof fn lemma_split_nonempty(s: Seq<char>, sep: char)
    ensures
        split_on(s, sep).len() >= 1,
    decreases s.len(),
{
    let k = position(s, sep);
    if k < 0 || k >= s.len() {
    } else {
        lemma_split_nonempty(s.skip(k + 1), sep);
    }
}

pub proof fn lemma_string_items_nonempty(s: Seq<char>)
    requires
        string_items(s) is Some,
    ensures
        string_items(s)->0.len() >= 1,
{
}

} // verus!
