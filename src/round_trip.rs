//! Laws that relate rendering and parsing.
use vstd::prelude::*;

use crate::datetime::{decimal, default_builder, digit_char, padded2, rendering, Datetime};
use crate::interpreter::{
    all_digits, apply, digits_value, field_width, interpret, is_digit, is_numeric, number_of,
    parse_result, reads_as_usize, store, unsigned_digits, Failure,
};
use crate::lexer::{lex_step, Lexed, Token};

verus! {

proof fn lemma_digit_char(k: nat)
    requires
        k < 10,
    ensures
        is_digit(digit_char(k)),
        digit_char(k) as nat - '0' as nat == k,
{
}

/// The decimal digits of `n` read back as `n`.
pub proof fn lemma_decimal_value(n: nat)
    ensures
        decimal(n).len() >= 1,
        all_digits(decimal(n)),
        digits_value(decimal(n)) == n,
    decreases n,
{
    if n < 10 {
        lemma_digit_char(n);
        let s = decimal(n);
        assert(s.drop_last() =~= Seq::<char>::empty());
        assert(s.last() == digit_char(n));
        assert(digits_value(s.drop_last()) == 0);
    } else {
        lemma_decimal_value(n / 10);
        lemma_digit_char(n % 10);
        let s = decimal(n);
        assert(s.drop_last() =~= decimal(n / 10));
        assert(s.last() == digit_char(n % 10));
        assert((n / 10) * 10 + n % 10 == n) by (nonlinear_arith);
        assert forall|i: int| 0 <= i < s.len() implies is_digit(#[trigger] s[i]) by {
            if i < s.len() - 1 {
                assert(s[i] == decimal(n / 10)[i]);
            }
        }
    }
}

proof fn lemma_decimal_len(n: nat)
    ensures
        n < 10 ==> decimal(n).len() == 1,
        10 <= n < 100 ==> decimal(n).len() == 2,
        100 <= n < 1000 ==> decimal(n).len() == 3,
        1000 <= n < 10000 ==> decimal(n).len() == 4,
    decreases n,
{
    if n >= 10 {
        lemma_decimal_len(n / 10);
    }
}

/// A two-digit field: `padded2(n)` has two digits worth `n`.
proof fn lemma_padded2(n: nat)
    requires
        n < 100,
    ensures
        padded2(n).len() == 2,
        all_digits(padded2(n)),
        digits_value(padded2(n)) == n,
{
    lemma_decimal_value(n);
    lemma_decimal_len(n);
    if n < 10 {
        let s = padded2(n);
        let t = decimal(n);
        assert(s.drop_last() =~= seq!['0']);
        assert(seq!['0'].drop_last() =~= Seq::<char>::empty());
        assert(digits_value(seq!['0']) == 0) by {
            assert(digits_value(Seq::<char>::empty()) == 0);
            assert(seq!['0'].last() == '0');
        }
        assert(s.last() == t[0]);
        assert(t.drop_last() =~= Seq::<char>::empty());
        assert(s.last() as nat - '0' as nat == n);
        assert forall|i: int| 0 <= i < s.len() implies is_digit(#[trigger] s[i]) by {
            if i == 1 {
                assert(s[1] == t[0]);
            }
        }
    }
}

/// A numeric field followed by `rest` is read and stored.
proof fn lemma_apply_field(t: Token, digits: Seq<char>, rest: Seq<char>, b: crate::datetime::DatetimeBuilder, v: nat)
    requires
        is_numeric(t),
        digits.len() == field_width(t),
        all_digits(digits),
        digits_value(digits) == v,
        v < 10000,
    ensures
        apply(Lexed::Tok(t), digits + rest, b) == Ok::<
            (Seq<char>, crate::datetime::DatetimeBuilder),
            Failure,
        >((rest, store(t, b, v as usize))),
{
    let inp = digits + rest;
    let w = field_width(t) as int;
    assert(inp.take(w) =~= digits);
    assert(inp.skip(w) =~= rest);
    assert(is_digit(digits[0]));
    assert(unsigned_digits(digits) == digits);
    assert(reads_as_usize(digits));
    assert(number_of(digits) == v);
}

/// A literal followed by `rest` is matched and skipped.
proof fn lemma_apply_literal(s: Seq<char>, rest: Seq<char>, b: crate::datetime::DatetimeBuilder)
    ensures
        apply(Lexed::Lit(s), s + rest, b) == Ok::<
            (Seq<char>, crate::datetime::DatetimeBuilder),
            Failure,
        >((rest, b)),
{
    let inp = s + rest;
    assert(inp.take(s.len() as int) =~= s);
    assert(inp.skip(s.len() as int) =~= rest);
}

/// Rendering a valid value whose year has four digits and parsing the text
/// with the pattern `%d/%m/%Y %H:%M:%S` gives the same value back.
pub proof fn lemma_render_then_parse(d: Datetime)
    requires
        d.wf(),
        1000 <= d.year <= 9999,
    ensures
        parse_result(rendering(d), "%d/%m/%Y %H:%M:%S"@) == Ok::<Datetime, Failure>(d),
{
    let p = "%d/%m/%Y %H:%M:%S"@;
    reveal_strlit("%d/%m/%Y %H:%M:%S");
    assert(p.len() == 17);
    let dd = padded2(d.day as nat);
    let mo = padded2(d.month as nat);
    let yyyy = decimal(d.year as nat);
    let hh = padded2(d.hour as nat);
    let mi = padded2(d.minute as nat);
    let ss = padded2(d.second as nat);
    lemma_padded2(d.day as nat);
    lemma_padded2(d.month as nat);
    lemma_padded2(d.hour as nat);
    lemma_padded2(d.minute as nat);
    lemma_padded2(d.second as nat);
    lemma_decimal_value(d.year as nat);
    lemma_decimal_len(d.year as nat);
    let inp = rendering(d);
    // Each step below reads one token of `p` and one piece of `inp`; `r<k>`
    // is the input left after the k-th token and `b<k>` the builder.
    let b0 = default_builder();
    let r1: Seq<char> = seq!['/'] + mo + seq!['/'] + yyyy + seq![' '] + hh + seq![':'] + mi + seq![':'] + ss;
    let r2: Seq<char> = mo + seq!['/'] + yyyy + seq![' '] + hh + seq![':'] + mi + seq![':'] + ss;
    let r3: Seq<char> = seq!['/'] + yyyy + seq![' '] + hh + seq![':'] + mi + seq![':'] + ss;
    let r4: Seq<char> = yyyy + seq![' '] + hh + seq![':'] + mi + seq![':'] + ss;
    let r5: Seq<char> = seq![' '] + hh + seq![':'] + mi + seq![':'] + ss;
    let r6: Seq<char> = hh + seq![':'] + mi + seq![':'] + ss;
    let r7: Seq<char> = seq![':'] + mi + seq![':'] + ss;
    let r8: Seq<char> = mi + seq![':'] + ss;
    let r9: Seq<char> = seq![':'] + ss;
    let r10: Seq<char> = ss;
    let r11: Seq<char> = Seq::<char>::empty();
    assert(inp =~= dd + r1);
    lemma_apply_field(Token::Day, dd, r1, b0, d.day as nat);
    let b1 = store(Token::Day, b0, d.day);
    assert(lex_step(p, 0).1 == 2);
    assert(interpret(p, 0, inp, b0) == interpret(p, 2, r1, b1));
    assert(r1 =~= seq!['/'] + r2);
    assert(p.subrange(2, 3) =~= seq!['/']);
    lemma_apply_literal(seq!['/'], r2, b1);
    let b2 = b1;
    assert(lex_step(p, 2).1 == 3);
    assert(interpret(p, 2, r1, b1) == interpret(p, 3, r2, b2));
    assert(r2 =~= mo + r3);
    lemma_apply_field(Token::FullMonth, mo, r3, b2, d.month as nat);
    let b3 = store(Token::FullMonth, b2, d.month);
    assert(lex_step(p, 3).1 == 5);
    assert(interpret(p, 3, r2, b2) == interpret(p, 5, r3, b3));
    assert(r3 =~= seq!['/'] + r4);
    assert(p.subrange(5, 6) =~= seq!['/']);
    lemma_apply_literal(seq!['/'], r4, b3);
    let b4 = b3;
    assert(lex_step(p, 5).1 == 6);
    assert(interpret(p, 5, r3, b3) == interpret(p, 6, r4, b4));
    assert(r4 =~= yyyy + r5);
    lemma_apply_field(Token::FullYear, yyyy, r5, b4, d.year as nat);
    let b5 = store(Token::FullYear, b4, d.year);
    assert(lex_step(p, 6).1 == 8);
    assert(interpret(p, 6, r4, b4) == interpret(p, 8, r5, b5));
    assert(r5 =~= seq![' '] + r6);
    assert(p.subrange(8, 9) =~= seq![' ']);
    lemma_apply_literal(seq![' '], r6, b5);
    let b6 = b5;
    assert(lex_step(p, 8).1 == 9);
    assert(interpret(p, 8, r5, b5) == interpret(p, 9, r6, b6));
    assert(r6 =~= hh + r7);
    lemma_apply_field(Token::TwentyFourHourDay, hh, r7, b6, d.hour as nat);
    let b7 = store(Token::TwentyFourHourDay, b6, d.hour);
    assert(lex_step(p, 9).1 == 11);
    assert(interpret(p, 9, r6, b6) == interpret(p, 11, r7, b7));
    assert(r7 =~= seq![':'] + r8);
    assert(p.subrange(11, 12) =~= seq![':']);
    lemma_apply_literal(seq![':'], r8, b7);
    let b8 = b7;
    assert(lex_step(p, 11).1 == 12);
    assert(interpret(p, 11, r7, b7) == interpret(p, 12, r8, b8));
    assert(r8 =~= mi + r9);
    lemma_apply_field(Token::Minute, mi, r9, b8, d.minute as nat);
    let b9 = store(Token::Minute, b8, d.minute);
    assert(lex_step(p, 12).1 == 14);
    assert(interpret(p, 12, r8, b8) == interpret(p, 14, r9, b9));
    assert(r9 =~= seq![':'] + r10);
    assert(p.subrange(14, 15) =~= seq![':']);
    lemma_apply_literal(seq![':'], r10, b9);
    let b10 = b9;
    assert(lex_step(p, 14).1 == 15);
    assert(interpret(p, 14, r9, b9) == interpret(p, 15, r10, b10));
    assert(r10 =~= ss + r11);
    lemma_apply_field(Token::Second, ss, r11, b10, d.second as nat);
    let b11 = store(Token::Second, b10, d.second);
    assert(lex_step(p, 15).1 == 17);
    assert(interpret(p, 15, r10, b10) == interpret(p, 17, r11, b11));
    assert(interpret(p, 17, r11, b11) == Ok::<Datetime, Failure>(d));
}

} // verus!
