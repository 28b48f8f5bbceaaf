//! Decimal rendering of unsigned integers.

use vstd::prelude::*;

verus! {

/// The character of a decimal digit.
pub open spec fn digit_char(d: nat) -> char {
    seq!['0', '1', '2', '3', '4', '5', '6', '7', '8', '9'][d as int]
}

/// The decimal digits of `n`, most significant first, without leading zeros.
pub open spec fn decimal_text(n: nat) -> Seq<char>
    decreases n,
{
    if n < 10 {
        seq![digit_char(n)]
    } else {
        decimal_text(n / 10).push(digit_char(n % 10))
    }
}

fn digit_str(d: u64) -> (r: &'static str)
    requires
        d < 10,
    ensures
        r@ == seq![digit_char(d as nat)],
{
    if d == 0 {
        proof { reveal_strlit("0"); }
        "0"
    } else if d == 1 {
        proof { reveal_strlit("1"); }
        "1"
    } else if d == 2 {
        proof { reveal_strlit("2"); }
        "2"
    } else if d == 3 {
        proof { reveal_strlit("3"); }
        "3"
    } else if d == 4 {
        proof { reveal_strlit("4"); }
        "4"
    } else if d == 5 {
        proof { reveal_strlit("5"); }
        "5"
    } else if d == 6 {
        proof { reveal_strlit("6"); }
        "6"
    } else if d == 7 {
        proof { reveal_strlit("7"); }
        "7"
    } else if d == 8 {
        proof { reveal_strlit("8"); }
        "8"
    } else {
        proof { reveal_strlit("9"); }
        "9"
    }
}

/// Renders `n` in decimal.
pub fn decimal(n: u64) -> (r: String)
    ensures
        r@ == decimal_text(n as nat),
    decreases n,
{
    if n < 10 {
        String::from_str(digit_str(n))
    } else {
        let mut s = decimal(n / 10);
        s.append(digit_str(n % 10));
        s
    }
}

/// `a` sorts before `b` character by character: they agree up to some
/// position where `a` holds the smaller character.
pub open spec fn sorts_before(a: Seq<char>, b: Seq<char>) -> bool {
    exists|i: int|
        0 <= i < a.len() && i < b.len() && a.take(i) == b.take(i) && (a[i] as u32) < (b[i] as u32)
}

proof fn lemma_digit_order(x: nat, y: nat)
    requires
        x < y < 10,
    ensures
        (digit_char(x) as u32) < (digit_char(y) as u32),
{
    assert(digit_char(x) as u32 == 48 + x) by {
        if x == 0 {} else if x == 1 {} else if x == 2 {} else if x == 3 {} else if x == 4 {}
        else if x == 5 {} else if x == 6 {} else if x == 7 {} else if x == 8 {} else {}
    }
    assert(digit_char(y) as u32 == 48 + y) by {
        if y == 0 {} else if y == 1 {} else if y == 2 {} else if y == 3 {} else if y == 4 {}
        else if y == 5 {} else if y == 6 {} else if y == 7 {} else if y == 8 {} else {}
    }
}

proof fn lemma_decimal_len(n: nat)
    ensures
        decimal_text(n).len() >= 1,
        decimal_text(n).len() == 1 <==> n < 10,
    decreases n,
{
    if n >= 10 {
        lemma_decimal_len(n / 10);
    }
}

/// Of two numbers written with the same number of digits, the smaller one's
/// text sorts first.
pub proof fn lemma_decimal_order(x: nat, y: nat)
    requires
        x < y,
        decimal_text(x).len() == decimal_text(y).len(),
    ensures
        sorts_before(decimal_text(x), decimal_text(y)),
    decreases y,
{
    lemma_decimal_len(x);
    lemma_decimal_len(y);
    let a = decimal_text(x);
    let b = decimal_text(y);
    if y < 10 {
        lemma_digit_order(x, y);
        assert(a.take(0) =~= b.take(0));
    } else {
        assert(x >= 10);
        let (px, py) = (x / 10, y / 10);
        assert(px <= py) by (nonlinear_arith)
            requires x < y, px == x / 10, py == y / 10;
        let pa = decimal_text(px);
        let pb = decimal_text(py);
        assert(a == pa.push(digit_char(x % 10)));
        assert(b == pb.push(digit_char(y % 10)));
        if px < py {
            lemma_decimal_order(px, py);
            let i = choose|i: int|
                0 <= i < pa.len() && i < pb.len() && pa.take(i) == pb.take(i) && (pa[i] as u32) < (pb[i] as u32);
            assert(a.take(i) =~= pa.take(i));
            assert(b.take(i) =~= pb.take(i));
            assert(a[i] == pa[i] && b[i] == pb[i]);
        } else {
            assert(x % 10 < y % 10) by (nonlinear_arith)
                requires x < y, x / 10 == y / 10;
            lemma_digit_order(x % 10, y % 10);
            let i = pa.len() as int;
            assert(a.take(i) =~= pa);
            assert(b.take(i) =~= pb);
        }
    }
}

} // verus!
