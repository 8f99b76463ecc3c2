//! Text building: decimal and hexadecimal numerals, concatenation and
//! comparison, each stated over the characters of the strings involved.

use vstd::prelude::*;

verus! {

/// The lower-case digit that stands for `d` in a numeral of base 16 or less.
pub open spec fn digit_char(d: nat) -> char {
    if d < 10 {
        (48 + d) as char
    } else {
        (87 + d) as char
    }
}

/// The numeral of `n` in `base`, most significant digit first, without
/// leading zeros.
pub open spec fn numeral(n: nat, base: nat) -> Seq<char>
    decreases n,
{
    if n < base || base < 2 {
        seq![digit_char(n)]
    } else {
        proof {
            assert(n / base < n) by (nonlinear_arith)
                requires
                    n >= base,
                    base >= 2,
            ;
        }
        numeral(n / base, base).push(digit_char(n % base))
    }
}

/// The decimal numeral of an integer, with a leading `-` when it is negative.
pub open spec fn decimal(n: int) -> Seq<char> {
    if n < 0 {
        "-"@ + numeral((-n) as nat, 10)
    } else {
        numeral(n as nat, 10)
    }
}

fn digit_text(d: u64) -> (text: &'static str)
    requires
        d < 16,
    ensures
        text@ == seq![digit_char(d as nat)],
{
    proof {
        reveal_strlit("0");
        reveal_strlit("1");
        reveal_strlit("2");
        reveal_strlit("3");
        reveal_strlit("4");
        reveal_strlit("5");
        reveal_strlit("6");
        reveal_strlit("7");
        reveal_strlit("8");
        reveal_strlit("9");
        reveal_strlit("a");
        reveal_strlit("b");
        reveal_strlit("c");
        reveal_strlit("d");
        reveal_strlit("e");
        reveal_strlit("f");
    }
    match d {
        0 => "0",
        1 => "1",
        2 => "2",
        3 => "3",
        4 => "4",
        5 => "5",
        6 => "6",
        7 => "7",
        8 => "8",
        9 => "9",
        10 => "a",
        11 => "b",
        12 => "c",
        13 => "d",
        14 => "e",
        _ => "f",
    }
}

/// Write the numeral of `n` in `base` (2 to 16).
pub fn numeral_text(n: u64, base: u64) -> (text: String)
    requires
        2 <= base <= 16,
    ensures
        text@ == numeral(n as nat, base as nat),
    decreases n,
{
    if n < base {
        digit_text(n).to_string()
    } else {
        assert(n / base < n) by (nonlinear_arith)
            requires
                n >= base,
                base >= 2,
        ;
        let mut text: String = numeral_text(n / base, base);
        text.append(digit_text(n % base));
        text
    }
}

/// Write the decimal numeral of a signed integer.
pub fn decimal_text(n: i64) -> (text: String)
    ensures
        text@ == decimal(n as int),
{
    if n < 0 {
        let magnitude: u64 = (-(n + 1)) as u64 + 1;
        let digits: String = numeral_text(magnitude, 10);
        joined("-", digits.as_str())
    } else {
        numeral_text(n as u64, 10)
    }
}

/// Concatenate two strings.
pub fn joined(head: &str, tail: &str) -> (text: String)
    ensures
        text@ == head@ + tail@,
{
    let mut text: String = head.to_string();
    text.append(tail);
    text
}

/// Compare two strings character for character.
pub fn same_text(a: &str, b: &str) -> (same: bool)
    ensures
        same == (a@ == b@),
{
    a.to_string() == b.to_string()
}

/// The number that a digit stands for: `0` to `9`, then `a` to `f`.
pub open spec fn digit_value(c: char) -> nat {
    if '0' <= c <= '9' {
        (c as nat - '0' as nat) as nat
    } else if 'a' <= c <= 'f' {
        (c as nat - 'a' as nat + 10) as nat
    } else {
        99
    }
}

/// The number that a row of digits stands for.
pub open spec fn value_of(digits: Seq<char>, base: nat) -> nat
    decreases digits.len(),
{
    if digits.len() == 0 {
        0
    } else {
        value_of(digits.drop_last(), base) * base + digit_value(digits.last())
    }
}

/// A row of digits in a base, without a superfluous zero in front.
pub open spec fn is_plain_numeral(digits: Seq<char>, base: nat) -> bool {
    &&& digits.len() > 0
    &&& forall|i: int| 0 <= i < digits.len() ==> digit_value(#[trigger] digits[i]) < base
    &&& digits.len() > 1 ==> digits[0] != '0'
}

proof fn lemma_numeral_reads_back(n: nat, base: nat)
    requires
        2 <= base <= 16,
    ensures
        is_plain_numeral(numeral(n, base), base),
        value_of(numeral(n, base), base) == n,
        n > 0 ==> numeral(n, base)[0] != '0',
    decreases n,
{
    let digits = numeral(n, base);
    if n < base {
        assert(digits =~= seq![digit_char(n)]);
        assert(digits.drop_last() =~= seq![]);
        assert(value_of(digits.drop_last(), base) == 0);
        assert(0 * base == 0) by (nonlinear_arith);
        assert(digits.last() == digit_char(n));
    } else {
        assert(0 < n / base < n && n % base < base && n / base * base + n % base == n)
            by (nonlinear_arith)
            requires
                n >= base,
                base >= 2,
        ;
        lemma_numeral_reads_back(n / base, base);
        let head = numeral(n / base, base);
        assert(digits =~= head.push(digit_char(n % base)));
        assert(digits.drop_last() =~= head);
        assert forall|i: int| 0 <= i < digits.len() implies digit_value(#[trigger] digits[i])
            < base by {
            if i < head.len() {
                assert(digits[i] == head[i]);
            }
        }
    }
}

/// A numeral that was written reads back: its digits stand for the number, all
/// of them belong to the base, and none in front is superfluous.
pub proof fn law_numerals_read_back(n: u64, base: u64, text: String)
    requires
        2 <= base <= 16,
        call_ensures(numeral_text, (n, base), text),
    ensures
        is_plain_numeral(text@, base as nat),
        value_of(text@, base as nat) == n,
{
    lemma_numeral_reads_back(n as nat, base as nat);
}

/// A decimal numeral that was written reads back: a minus sign stands in front
/// exactly of the negative ones, and the digits stand for the magnitude.
pub proof fn law_decimals_read_back(n: i64, text: String)
    requires
        call_ensures(decimal_text, (n,), text),
    ensures
        n >= 0 ==> is_plain_numeral(text@, 10) && value_of(text@, 10) == n,
        n < 0 ==> text@.len() > 1 && text@[0] == '-' && is_plain_numeral(text@.skip(1), 10)
            && value_of(text@.skip(1), 10) == -n,
{
    reveal_strlit("-");
    if n >= 0 {
        lemma_numeral_reads_back(n as nat, 10);
    } else {
        lemma_numeral_reads_back((-n) as nat, 10);
        assert(text@.skip(1) =~= numeral((-n) as nat, 10));
    }
}

/// Two texts that were joined stand one behind the other, whole.
pub proof fn law_joined_texts_stand_in_order(head: &str, tail: &str, text: String)
    requires
        call_ensures(joined, (head, tail), text),
    ensures
        text@.len() == head@.len() + tail@.len(),
        forall|i: int| 0 <= i < head@.len() ==> text@[i] == head@[i],
        forall|i: int| 0 <= i < tail@.len() ==> text@[head@.len() + i] == tail@[i],
{
}

/// The numerals of the numbers below ten are single digits.
pub proof fn lemma_single_digits()
    ensures
        decimal(0) == "0"@,
        decimal(1) == "1"@,
        decimal(4) == "4"@,
        decimal(5) == "5"@,
{
    reveal_strlit("0");
    reveal_strlit("1");
    reveal_strlit("4");
    reveal_strlit("5");
    assert(decimal(0) =~= "0"@);
    assert(decimal(1) =~= "1"@);
    assert(decimal(4) =~= "4"@);
    assert(decimal(5) =~= "5"@);
}

/// Two texts are the same exactly where they have the same characters.
pub proof fn law_same_texts_have_the_same_characters(a: &str, b: &str, same: bool)
    requires
        call_ensures(same_text, (a, b), same),
    ensures
        same <==> a@.len() == b@.len() && forall|i: int| 0 <= i < a@.len() ==> a@[i] == b@[i],
{
    if a@.len() == b@.len() && forall|i: int| 0 <= i < a@.len() ==> a@[i] == b@[i] {
        assert(a@ =~= b@);
    }
}

} // verus!
