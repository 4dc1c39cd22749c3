use vstd::prelude::*;
use vstd::string::StringExecFns;

verus! {

/// The character that stands for a digit.
pub open spec fn digit_char(digit: int) -> char {
    if digit == 0 {
        '0'
    } else if digit == 1 {
        '1'
    } else if digit == 2 {
        '2'
    } else if digit == 3 {
        '3'
    } else if digit == 4 {
        '4'
    } else if digit == 5 {
        '5'
    } else if digit == 6 {
        '6'
    } else if digit == 7 {
        '7'
    } else if digit == 8 {
        '8'
    } else {
        '9'
    }
}

/// A number as it is written in decimal digits, without leading zeros.
pub open spec fn decimal_digits(number: nat) -> Seq<char>
    decreases number,
{
    if number < 10 {
        seq![digit_char(number as int)]
    } else {
        decimal_digits(number / 10).push(digit_char((number % 10) as int))
    }
}

/// The text that stands for a digit.
fn digit_text(digit: u8) -> (text: &'static str)
    requires
        digit < 10,
    ensures
        text@ == seq![digit_char(digit as int)],
{
    proof {
        reveal_strlit("0");
        reveal_strlit("1");
        reveal_strlit("2");
        reveal_strlit("3");
        reveal_strlit("4");
        reveal_strlit("5");
        reveal_strlit("6");
        reveal_strlit("7");
        reveal_strlit("8");
        reveal_strlit("9");
    }
    let text = match digit {
        0 => "0",
        1 => "1",
        2 => "2",
        3 => "3",
        4 => "4",
        5 => "5",
        6 => "6",
        7 => "7",
        8 => "8",
        _ => "9",
    };
    assert(text@ =~= seq![digit_char(digit as int)]);
    text
}

/// Writes a number in decimal digits.
pub fn to_decimal(number: u64) -> (text: String)
    ensures
        text@ == decimal_digits(number as nat),
{
    let mut digits: Vec<u8> = Vec::new();
    digits.push((number % 10) as u8);
    let mut rest = number / 10;
    let ghost mut written: Seq<char> = seq![digit_char((number % 10) as int)];
    proof {
        assert(Seq::<char>::empty() + written =~= written);
        assert(decimal_digits(number as nat) =~= (if rest > 0 {
            decimal_digits(rest as nat)
        } else {
            Seq::<char>::empty()
        }) + written);
    }
    while rest > 0
        invariant
            digits@.len() == written.len(),
            digits@.len() > 0,
            forall|i: int| 0 <= i < digits@.len() ==> #[trigger] digits@[i] < 10,
            forall|i: int|
                0 <= i < written.len() ==> #[trigger] written[i] == digit_char(
                    digits@[digits@.len() - 1 - i] as int,
                ),
            decimal_digits(number as nat) == (if rest > 0 {
                decimal_digits(rest as nat)
            } else {
                Seq::<char>::empty()
            }) + written,
        decreases rest,
    {
        let digit = (rest % 10) as u8;
        let ghost before = written;
        digits.push(digit);
        proof {
            written = seq![digit_char(digit as int)] + before;
            let more = rest / 10;
            let head = if more > 0 {
                decimal_digits(more as nat)
            } else {
                Seq::<char>::empty()
            };
            assert(decimal_digits(rest as nat) =~= head + seq![digit_char(digit as int)]);
            assert((head + seq![digit_char(digit as int)]) + before =~= head + written);
            assert forall|i: int| 0 <= i < written.len() implies #[trigger] written[i]
                == digit_char(digits@[digits@.len() - 1 - i] as int) by {
                if i > 0 {
                    assert(written[i] == before[i - 1]);
                }
            }
        }
        rest = rest / 10;
    }
    let mut text = String::new();
    let mut left = digits.len();
    proof {
        assert(Seq::<char>::empty() + written =~= written);
        assert(written.take(0) =~= Seq::<char>::empty());
    }
    while left > 0
        invariant
            left <= digits@.len(),
            digits@.len() == written.len(),
            forall|i: int| 0 <= i < digits@.len() ==> #[trigger] digits@[i] < 10,
            forall|i: int|
                0 <= i < written.len() ==> #[trigger] written[i] == digit_char(
                    digits@[digits@.len() - 1 - i] as int,
                ),
            text@ == written.take(digits@.len() - left),
        decreases left,
    {
        left -= 1;
        let ghost so_far = text@;
        text.append(digit_text(digits[left]));
        proof {
            let done = digits@.len() - left;
            assert(written[done - 1] == digit_char(digits@[left as int] as int));
            assert(text@ =~= written.take(done));
        }
    }
    proof {
        assert(written.take(written.len() as int) =~= written);
    }
    text
}

} // verus!
