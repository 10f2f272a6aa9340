//! The decimal rendering of numbers inside messages.

use vstd::prelude::*;
use vstd::string::*;

verus! {

/// The character of a decimal digit.
pub open spec fn digit(d: nat) -> char
    recommends
        d < 10,
{
    (('0' as u32) + d) as char
}

/// The decimal rendering of `n`, without leading zeros.
pub open spec fn decimal(n: nat) -> Seq<char>
    decreases n,
{
    if n < 10 {
        seq![digit(n)]
    } else {
        decimal(n / 10).push(digit(n % 10))
    }
}

/// The text of one decimal digit.
fn digit_text(d: u64) -> (text: &'static str)
    requires
        d < 10,
    ensures
        text@ == seq![digit(d as nat)],
{
    proof {
        reveal_strlit("0");
        reveal_strlit("1");
        reveal_strlit("2");
        reveal_strlit("3");
        reveal_strlit("4");
        reveal_strlit("5");
        reveal_strlit("6");
        reveal_strlit("7");
        reveal_strlit("8");
        reveal_strlit("9");
    }
    match d {
        0 => "0",
        1 => "1",
        2 => "2",
        3 => "3",
        4 => "4",
        5 => "5",
        6 => "6",
        7 => "7",
        8 => "8",
        _ => "9",
    }
}

/// Renders `n` in decimal.
pub fn render_decimal(n: u64) -> (text: String)
    ensures
        text@ == decimal(n as nat),
    decreases n,
{
    if n < 10 {
        digit_text(n).to_owned()
    } else {
        let rendered = render_decimal(n / 10).concat(digit_text(n % 10));
        assert(rendered@ =~= decimal((n / 10) as nat).push(digit((n % 10) as nat)));
        rendered
    }
}

/// A rendered number consists of decimal digits without leading zeros, and read as a decimal
/// numeral it is the number.
pub proof fn law_a_rendered_number_reads_back(n: u64, text: String)
    requires
        call_ensures(render_decimal, (n,), text),
    ensures
        text@.len() > 0,
        forall|i: int| 0 <= i < text@.len() ==> '0' <= #[trigger] text@[i] && text@[i] <= '9',
        text@.len() > 1 ==> text@[0] != '0',
        text@.fold_left(0int, |value: int, c: char| 10 * value + (c as int - '0' as int)) == n,
{
    lemma_decimal_reads_back(
        n as nat,
        |value: int, c: char| 10 * value + (c as int - '0' as int),
    );
}

/// What [`law_a_rendered_number_reads_back`] says of any number.
proof fn lemma_decimal_reads_back(n: nat, read: spec_fn(int, char) -> int)
    requires
        forall|value: int, c: char| #[trigger]
            read(value, c) == 10 * value + (c as int - '0' as int),
    ensures
        decimal(n).len() > 0,
        forall|i: int|
            0 <= i < decimal(n).len() ==> '0' <= #[trigger] decimal(n)[i] && decimal(n)[i] <= '9',
        n > 0 ==> decimal(n)[0] != '0',
        decimal(n).len() > 1 ==> decimal(n)[0] != '0',
        decimal(n).fold_left(0int, read) == n,
    decreases n,
{
    if n < 10 {
        assert(decimal(n).drop_last() =~= Seq::empty());
        assert(decimal(n).drop_last().fold_left(0int, read) == 0);
        assert(decimal(n).fold_left(0int, read) == read(0, digit(n)));
    } else {
        lemma_decimal_reads_back(n / 10, read);
        assert(decimal(n).drop_last() =~= decimal(n / 10));
        assert(decimal(n).fold_left(0int, read) == read((n / 10) as int, digit(n % 10)));
    }
}

/// Different numbers are rendered differently.
pub proof fn law_numbers_are_told_apart(a: nat, b: nat)
    requires
        decimal(a) == decimal(b),
    ensures
        a == b,
{
    let read = |value: int, c: char| 10 * value + (c as int - '0' as int);
    lemma_decimal_reads_back(a, read);
    lemma_decimal_reads_back(b, read);
}

} // verus!
