//! The files that received packets are dumped to.

use vstd::prelude::*;
use vstd::string::StringExecFns;

verus! {

/// The decimal digit of a number below ten.
pub open spec fn digit(d: nat) -> char {
    (48 + d) as char
}

/// A number in decimal notation.
pub open spec fn decimal(n: nat) -> Seq<char>
    decreases n,
{
    if n < 10 {
        seq![digit(n)]
    } else {
        decimal(n / 10).push(digit(n % 10))
    }
}

fn digit_text(d: u32) -> (r: &'static str)
    requires
        d < 10,
    ensures
        r@ == seq![digit(d as nat)],
{
    proof {
        reveal_strlit("0");
        reveal_strlit("1");
        reveal_strlit("2");
        reveal_strlit("3");
        reveal_strlit("4");
        reveal_strlit("5");
        reveal_strlit("6");
        reveal_strlit("7");
        reveal_strlit("8");
        reveal_strlit("9");
    }
    if d == 0 {
        "0"
    } else if d == 1 {
        "1"
    } else if d == 2 {
        "2"
    } else if d == 3 {
        "3"
    } else if d == 4 {
        "4"
    } else if d == 5 {
        "5"
    } else if d == 6 {
        "6"
    } else if d == 7 {
        "7"
    } else if d == 8 {
        "8"
    } else {
        "9"
    }
}

fn append_decimal(text: &mut String, n: u32)
    ensures
        final(text)@ == old(text)@ + decimal(n as nat),
    decreases n,
{
    if n < 10 {
        text.append(digit_text(n));
    } else {
        append_decimal(text, n / 10);
        text.append(digit_text(n % 10));
        assert(text@ =~= old(text)@ + decimal((n / 10) as nat).push(digit((n % 10) as nat)));
    }
}

/// The file in `directory` that packet number `number` is dumped to.
pub fn packet_path(directory: &str, number: u32) -> (r: String)
    ensures
        r@ == directory@ + "/"@ + decimal(number as nat) + ".pkt"@,
{
    let mut path = directory.to_owned();
    path.append("/");
    append_decimal(&mut path, number);
    path.append(".pkt");
    path
}

/// Different numbers are written differently.
pub proof fn decimals_differ(n: nat, m: nat)
    requires
        n != m,
    ensures
        decimal(n) != decimal(m),
    decreases n,
{
    lemma_decimal_last(n);
    lemma_decimal_last(m);
    if decimal(n) == decimal(m) {
        assert(n % 10 == m % 10);
        if n < 10 {
            lemma_decimal_len(m / 10);
        } else if m < 10 {
            lemma_decimal_len(n / 10);
        } else {
            decimals_differ(n / 10, m / 10);
            assert(decimal(n).drop_last() =~= decimal(n / 10));
            assert(decimal(m).drop_last() =~= decimal(m / 10));
        }
    }
}

proof fn lemma_decimal_len(n: nat)
    ensures
        decimal(n).len() > 0,
{
}

proof fn lemma_decimal_last(n: nat)
    ensures
        decimal(n).len() > 0,
        decimal(n).last() as int == 48 + n % 10,
        n >= 10 ==> decimal(n).len() == decimal(n / 10).len() + 1,
{
}

/// No two packets are dumped to the same file.
pub proof fn packets_have_their_own_files(directory: Seq<char>, n: nat, m: nat)
    requires
        n != m,
    ensures
        directory + "/"@ + decimal(n) + ".pkt"@ != directory + "/"@ + decimal(m) + ".pkt"@,
{
    decimals_differ(n, m);
    let front = directory + "/"@;
    let one = front + decimal(n) + ".pkt"@;
    let other = front + decimal(m) + ".pkt"@;
    if one == other {
        let end = front.len() + decimal(n).len();
        assert(one.len() == end + ".pkt"@.len());
        assert(other.len() == front.len() + decimal(m).len() + ".pkt"@.len());
        assert(one.subrange(front.len() as int, end as int) =~= decimal(n));
        assert(other.subrange(front.len() as int, end as int) =~= decimal(m));
    }
}

/// The number that a text of digits stands for.
pub open spec fn value(text: Seq<char>) -> int
    decreases text.len(),
{
    if text.len() == 0 {
        0
    } else {
        value(text.drop_last()) * 10 + (text.last() as int - '0' as int)
    }
}

/// The decimal notation of a number consists of digits, does not start with a zero unless it
/// is one, and stands for the number.
pub proof fn decimals_stand_for_their_numbers(n: nat)
    ensures
        value(decimal(n)) == n,
        decimal(n).len() > 0,
        n > 0 ==> decimal(n)[0] != '0',
        n == 0 ==> decimal(n) == seq!['0'],
        forall|i: int| 0 <= i < decimal(n).len() ==> '0' <= #[trigger] decimal(n)[i] <= '9',
    decreases n,
{
    reveal_with_fuel(value, 2);
    if n < 10 {
        assert(decimal(n).drop_last() =~= Seq::<char>::empty());
    } else {
        decimals_stand_for_their_numbers(n / 10);
        assert(decimal(n).drop_last() =~= decimal(n / 10));
    }
}

} // verus!
