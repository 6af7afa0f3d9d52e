//! What the web front-end's requests ask of the bot.
use vstd::prelude::*;
use vstd::string::*;

use crate::shared::Message;

verus! {

/// A decimal digit.
pub open spec fn is_digit(c: char) -> bool {
    '0' <= c <= '9'
}

/// The value of a decimal digit.
pub open spec fn digit_value(c: char) -> nat {
    (c as int - '0' as int) as nat
}

/// The number that a string of decimal digits writes, most significant digit first.
pub open spec fn decimal_value(s: Seq<char>) -> nat
    decreases s.len(),
{
    if s.len() == 0 {
        0
    } else {
        decimal_value(s.drop_last()) * 10 + digit_value(s.last())
    }
}

/// The digits of a number: one `+` in front may stand before them.
pub open spec fn unsigned_digits(s: Seq<char>) -> Seq<char> {
    if s.len() > 0 && s[0] == '+' {
        s.drop_first()
    } else {
        s
    }
}

/// What reading `s` as a `u64` gives, as `str::parse::<u64>` does it: an optional `+`,
/// then at least one decimal digit and nothing else, with a value that fits.
pub open spec fn parsed_u64(s: Seq<char>) -> Option<u64> {
    let d = unsigned_digits(s);
    if d.len() > 0 && (forall|i: int| 0 <= i < d.len() ==> is_digit(#[trigger] d[i]))
        && decimal_value(d) <= u64::MAX {
        Some(decimal_value(d) as u64)
    } else {
        None
    }
}

/// The decimal digits of `n`, without leading zeros (`0` is written `0`).
pub open spec fn decimal_digits(n: nat) -> Seq<char>
    decreases n,
{
    if n < 10 {
        seq![digit_char(n)]
    } else {
        decimal_digits(n / 10).push(digit_char(n % 10))
    }
}

/// The digit that writes `d`, below ten.
pub open spec fn digit_char(d: nat) -> char {
    ('0' as int + d) as char
}

proof fn lemma_decimal_value_grows(s: Seq<char>, i: int)
    requires
        0 <= i <= s.len(),
    ensures
        decimal_value(s.take(i)) <= decimal_value(s),
    decreases s.len(),
{
    if i < s.len() {
        assert(s.drop_last().take(i) =~= s.take(i));
        lemma_decimal_value_grows(s.drop_last(), i);
    } else {
        assert(s.take(i) =~= s);
    }
}

proof fn lemma_decimal_digits(n: nat)
    ensures
        decimal_digits(n).len() > 0,
        decimal_digits(n)[0] != '+',
        forall|i: int| 0 <= i < decimal_digits(n).len() ==> is_digit(#[trigger] decimal_digits(n)[i]),
        decimal_value(decimal_digits(n)) == n,
    decreases n,
{
    if n < 10 {
        let d = decimal_digits(n);
        assert(d.drop_last() =~= Seq::<char>::empty());
        assert(decimal_value(d.drop_last()) == 0);
        assert(digit_value(d.last()) == n);
        assert(decimal_value(d) == n);
    } else {
        lemma_decimal_digits(n / 10);
        let d = decimal_digits(n);
        assert(d.drop_last() =~= decimal_digits(n / 10));
        assert(digit_value(d.last()) == n % 10);
        assert((n / 10) * 10 + n % 10 == n) by (nonlinear_arith);
        assert(decimal_value(d) == decimal_value(d.drop_last()) * 10 + digit_value(d.last()));
        assert forall|i: int| 0 <= i < d.len() implies is_digit(#[trigger] d[i]) by {
            if i < d.len() - 1 {
                assert(d[i] == decimal_digits(n / 10)[i]);
            }
        }
    }
}

/// Reading back the decimal digits of an id gives the id: every id the front-end can
/// write is understood.
pub proof fn lemma_parse_decimal_digits(n: u64)
    ensures
        parsed_u64(decimal_digits(n as nat)) == Some(n),
        parsed_u64(seq!['+'] + decimal_digits(n as nat)) == Some(n),
{
    lemma_decimal_digits(n as nat);
    let d = decimal_digits(n as nat);
    assert(unsigned_digits(d) == d);
    assert((seq!['+'] + d).drop_first() =~= d);
}

proof fn lemma_decimal_value_leading_zero(d: Seq<char>)
    ensures
        decimal_value(seq!['0'] + d) == decimal_value(d),
    decreases d.len(),
{
    if d.len() > 0 {
        assert((seq!['0'] + d).drop_last() =~= seq!['0'] + d.drop_last());
        lemma_decimal_value_leading_zero(d.drop_last());
        assert((seq!['0'] + d).last() == d.last());
    } else {
        let z = seq!['0'] + d;
        assert(z.drop_last() =~= Seq::<char>::empty());
        assert(decimal_value(z.drop_last()) == 0);
        assert(z.last() == '0');
        assert(digit_value('0') == 0);
    }
}

/// Leading zeros do not change the id that is read, however many there are.
pub proof fn lemma_parse_leading_zero(d: Seq<char>)
    requires
        d.len() > 0,
        d[0] != '+',
    ensures
        parsed_u64(seq!['0'] + d) == parsed_u64(d),
{
    let z = seq!['0'] + d;
    lemma_decimal_value_leading_zero(d);
    assert(unsigned_digits(z) == z);
    assert(unsigned_digits(d) == d);
    if forall|i: int| 0 <= i < d.len() ==> is_digit(#[trigger] d[i]) {
        assert forall|i: int| 0 <= i < z.len() implies is_digit(#[trigger] z[i]) by {
            if i > 0 {
                assert(z[i] == d[i - 1]);
            }
        }
    } else {
        let i = choose|i: int| 0 <= i < d.len() && !is_digit(#[trigger] d[i]);
        assert(z[i + 1] == d[i]);
    }
}

/// Nothing is read from a text with a character that is no digit (a single `+` in front
/// aside), nor from an empty text or a lone `+`.
pub proof fn lemma_parse_refuses(s: Seq<char>, i: int)
    ensures
        parsed_u64(Seq::<char>::empty()) is None,
        parsed_u64(seq!['+']) is None,
        0 <= i < unsigned_digits(s).len() && !is_digit(unsigned_digits(s)[i]) ==> parsed_u64(
            s,
        ) is None,
{
    assert(seq!['+'].drop_first() =~= Seq::<char>::empty());
}

/// Reads the decimal id that the front-end sent, as `str::parse::<u64>` does.
pub fn parse_channel_id(text: &str) -> (r: Option<u64>)
    ensures
        r == parsed_u64(text@),
{
    let n = text.unicode_len();
    let mut start: usize = 0;
    if n > 0 && text.get_char(0) == '+' {
        start = 1;
    }
    let ghost d = unsigned_digits(text@);
    proof {
        assert(d =~= text@.subrange(start as int, n as int));
    }
    if start == n {
        return None;
    }
    let mut value: u64 = 0;
    let mut i: usize = start;
    while i < n
        invariant
            start <= i <= n,
            n == text@.len(),
            d =~= text@.subrange(start as int, n as int),
            d == unsigned_digits(text@),
            forall|k: int| 0 <= k < i - start ==> is_digit(#[trigger] d[k]),
            value == decimal_value(d.take(i - start)),
        decreases n - i,
    {
        let c = text.get_char(i);
        proof {
            assert(d[i - start] == c);
            assert(d.take(i - start + 1).drop_last() =~= d.take(i - start));
        }
        if !('0' <= c && c <= '9') {
            proof {
                assert(!is_digit(d[i - start]));
            }
            return None;
        }
        let digit = (c as u32 - '0' as u32) as u64;
        proof {
            assert(d.take(i - start + 1).last() == c);
            assert(digit_value(c) == digit);
            assert(decimal_value(d.take(i - start + 1)) == value * 10 + digit);
        }
        match value.checked_mul(10) {
            None => {
                proof {
                    lemma_decimal_value_grows(d, i - start + 1);
                }
                return None;
            },
            Some(tens) => match tens.checked_add(digit) {
                None => {
                    proof {
                        lemma_decimal_value_grows(d, i - start + 1);
                    }
                    return None;
                },
                Some(next) => {
                    value = next;
                },
            },
        }
        i = i + 1;
    }
    proof {
        assert(d.take(n - start) =~= d);
    }
    Some(value)
}

/// The request to switch to the channel whose id the front-end sent; `None` where the
/// text is no id (the front-end then asks for nothing).
pub fn change_channel_request(text: &str) -> (r: Option<Message>)
    ensures
        match parsed_u64(text@) {
            Some(id) => r == Some(Message::ChangeChannel(id)),
            None => r is None,
        },
{
    match parse_channel_id(text) {
        Some(id) => Some(Message::ChangeChannel(id)),
        None => None,
    }
}

/// The request to post the text the front-end sent in the selected channel.
pub fn send_request(content: &str) -> (r: Message)
    ensures
        r matches Message::Send(s) && s@ == content@,
{
    Message::Send(content.to_owned())
}

} // verus!
