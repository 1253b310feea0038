//! The ids of menu entries.

use vstd::prelude::*;
use vstd::string::StrSliceExecFns;

verus! {

/// Whether a character is a digit.
pub open spec fn is_digit(c: char) -> bool {
    '0' <= c && c <= '9'
}

/// The number that a text of digits writes.
pub open spec fn digits_value(digits: Seq<char>) -> nat
    decreases digits.len(),
{
    if digits.len() == 0 {
        0
    } else {
        digits_value(digits.drop_last()) * 10 + (digits.last() as nat - '0' as nat) as nat
    }
}

/// The digits of a number: the text without the sign that may stand before it.
pub open spec fn digits_of(text: Seq<char>) -> Seq<char> {
    if text.len() > 0 && text[0] == '+' {
        text.skip(1)
    } else {
        text
    }
}

/// The number that a text writes: digits, at least one, with or without a plus sign before them.
pub open spec fn number(text: Seq<char>) -> Option<nat> {
    let digits = digits_of(text);
    if digits.len() > 0 && (forall|i: int| 0 <= i < digits.len() ==> is_digit(#[trigger] digits[i])) {
        Some(digits_value(digits))
    } else {
        None
    }
}

/// The number that a text writes, unless it exceeds `max`.
pub open spec fn number_up_to(text: Seq<char>, max: int) -> Option<nat> {
    match number(text) {
        Some(n) => if n <= max {
            Some(n)
        } else {
            None
        },
        None => None,
    }
}

/// The window and the entry that the id of a menu entry stands for: two numbers with a bar between
/// them.
pub open spec fn menu_entry(id: Seq<char>) -> Option<(nat, nat)> {
    let bar = id.index_of_first('|');
    match bar {
        Some(at) => match (
            number_up_to(id.take(at), u64::MAX as int),
            number_up_to(id.skip(at + 1), usize::MAX as int),
        ) {
            (Some(window), Some(entry)) => Some((window, entry)),
            _ => None,
        },
        None => None,
    }
}

proof fn lemma_prefix_value(digits: Seq<char>, k: int)
    requires
        0 <= k <= digits.len(),
    ensures
        digits_value(digits.take(k)) <= digits_value(digits),
    decreases digits.len(),
{
    if k < digits.len() {
        lemma_prefix_value(digits.drop_last(), k);
        assert(digits.drop_last().take(k) =~= digits.take(k));
    } else {
        assert(digits.take(k) =~= digits);
    }
}

fn digit(c: char) -> (d: Option<u64>)
    ensures
        is_digit(c) <==> d is Some,
        d matches Some(d) ==> d == c as nat - '0' as nat && d < 10,
{
    if '0' <= c && c <= '9' {
        Some(c as u64 - '0' as u64)
    } else {
        None
    }
}

/// The number that the characters from `from` up to `to` write, unless it exceeds `max`.
fn parse_number(text: &str, from: usize, to: usize, max: u64) -> (result: Option<u64>)
    requires
        from <= to <= text@.len(),
    ensures
        match result {
            Some(n) => number_up_to(text@.subrange(from as int, to as int), max as int) == Some(
                n as nat,
            ),
            None => number_up_to(text@.subrange(from as int, to as int), max as int) is None,
        },
{
    let ghost part = text@.subrange(from as int, to as int);
    let ghost digits = digits_of(part);
    let mut i: usize = from;
    if from < to && text.get_char(from) == '+' {
        i = from + 1;
    }
    let start: usize = i;
    if start == to {
        return None;
    }
    assert(digits =~= text@.subrange(start as int, to as int));
    let mut value: u64 = 0;
    assert(digits.take(0) =~= Seq::empty());
    while i < to
        invariant
            from <= start <= i <= to <= text@.len(),
            digits == text@.subrange(start as int, to as int),
            digits == digits_of(part),
            part == text@.subrange(from as int, to as int),
            value <= max,
            value == digits_value(digits.take(i - start)),
            forall|k: int| 0 <= k < i - start ==> is_digit(#[trigger] digits[k]),
        decreases to - i,
    {
        let c = text.get_char(i);
        assert(c == digits[i - start]);
        match digit(c) {
            Some(d) => {
                proof {
                    assert(digits.take(i - start + 1).drop_last() =~= digits.take(i - start));
                    lemma_prefix_value(digits, i - start + 1);
                }
                if value > max / 10 {
                    return None;
                }
                let ten: u64 = value * 10;
                if d > max - ten {
                    return None;
                }
                value = ten + d;
            },
            None => {
                return None;
            },
        }
        i = i + 1;
    }
    assert(digits.take(i - start) =~= digits);
    Some(value)
}

/// The window and the entry that the id of a menu entry stands for.
pub fn parse_menu_id(id: &str) -> (result: Option<(u64, usize)>)
    ensures
        match result {
            Some((window, entry)) => menu_entry(id@) == Some((window as nat, entry as nat)),
            None => menu_entry(id@) is None,
        },
{
    let length: usize = id.unicode_len();
    let mut at: usize = 0;
    while at < length && id.get_char(at) != '|'
        invariant
            length == id@.len(),
            at <= length,
            forall|k: int| 0 <= k < at ==> id@[k] != '|',
        ensures
            at <= length,
            forall|k: int| 0 <= k < at ==> id@[k] != '|',
            at < length ==> id@[at as int] == '|',
        decreases length - at,
    {
        at = at + 1;
    }
    proof {
        id@.index_of_first_ensures('|');
    }
    if at == length {
        return None;
    }
    assert(id@.take(at as int) =~= id@.subrange(0, at as int));
    assert(id@.skip(at + 1) =~= id@.subrange(at + 1, length as int));
    match (
        parse_number(id, 0, at, u64::MAX),
        parse_number(id, at + 1, length, usize::MAX as u64),
    ) {
        (Some(window), Some(entry)) => Some((window, entry as usize)),
        _ => None,
    }
}

/// A number as it is usually written: without a sign, and without a zero in front.
pub open spec fn decimal(n: nat) -> Seq<char>
    decreases n,
{
    if n < 10 {
        seq![('0' as nat + n) as char]
    } else {
        decimal(n / 10).push(('0' as nat + n % 10) as char)
    }
}

proof fn lemma_decimal(n: nat)
    ensures
        decimal(n).len() > 0,
        forall|i: int| 0 <= i < decimal(n).len() ==> is_digit(#[trigger] decimal(n)[i]),
        digits_value(decimal(n)) == n,
    decreases n,
{
    if n < 10 {
        let d = ('0' as nat + n) as char;
        assert(seq![d].drop_last() =~= Seq::empty());
        reveal_with_fuel(digits_value, 2);
    } else {
        let d = ('0' as nat + n % 10) as char;
        lemma_decimal(n / 10);
        assert(decimal(n).drop_last() =~= decimal(n / 10));
        assert(is_digit(d) && d as nat - '0' as nat == n % 10);
    }
}

/// Each window and each entry has an id that stands for the two: their numbers as they are usually
/// written, with a bar between them.
pub proof fn law_every_entry_has_an_id(window: u64, entry: usize)
    ensures
        menu_entry(decimal(window as nat) + seq!['|'] + decimal(entry as nat)) == Some(
            (window as nat, entry as nat),
        ),
{
    let (w, e) = (decimal(window as nat), decimal(entry as nat));
    let id = w + seq!['|'] + e;
    lemma_decimal(window as nat);
    lemma_decimal(entry as nat);
    let at = w.len() as int;
    id.index_of_first_ensures('|');
    assert(id[at] == '|');
    assert forall|i: int| 0 <= i < at implies id[i] != '|' by {
        assert(id[i] == w[i]);
        assert(is_digit(w[i]));
    }
    assert(id.index_of_first('|') == Some(at));
    assert(id.take(at) =~= w);
    assert(id.skip(at + 1) =~= e);
    assert(is_digit(w[0]) && is_digit(e[0]));
}

/// The digits say the number, place by place, and a plus sign or zeros before them do not change it.
pub proof fn law_numbers(digits: Seq<char>, d: char)
    requires
        forall|i: int| 0 <= i < digits.len() ==> is_digit(#[trigger] digits[i]),
        '0' <= d && d <= '9',
    ensures
        number(digits.push(d)) == Some(
            (10 * (if digits.len() == 0 {
                0
            } else {
                number(digits)->0
            }) + (d as nat - '0' as nat)) as nat,
        ),
        digits.len() > 0 ==> number(seq!['+'] + digits) == number(digits) && number(digits) is Some,
        digits.len() > 0 ==> number(seq!['0'] + digits) == number(digits),
{
    let longer = digits.push(d);
    assert(longer.drop_last() =~= digits);
    assert(is_digit(longer[0])) by {
        if digits.len() > 0 {
            assert(is_digit(digits[0]));
        }
    }
    assert forall|i: int| 0 <= i < longer.len() implies is_digit(#[trigger] longer[i]) by {
        if i < digits.len() {
            assert(is_digit(digits[i]));
        }
    }
    if digits.len() > 0 {
        assert(is_digit(digits[0]));
        assert((seq!['+'] + digits).skip(1) =~= digits);
        lemma_zero_in_front(digits);
        let zero = seq!['0'] + digits;
        assert forall|i: int| 0 <= i < zero.len() implies is_digit(#[trigger] zero[i]) by {
            if i > 0 {
                assert(is_digit(digits[i - 1]));
            }
        }
    }
}

proof fn lemma_zero_in_front(digits: Seq<char>)
    ensures
        digits_value(seq!['0'] + digits) == digits_value(digits),
    decreases digits.len(),
{
    let zero = seq!['0'] + digits;
    if digits.len() == 0 {
        assert(zero.drop_last() =~= Seq::empty());
        reveal_with_fuel(digits_value, 2);
    } else {
        assert(zero.drop_last() =~= seq!['0'] + digits.drop_last());
        lemma_zero_in_front(digits.drop_last());
    }
}

/// An id stands for nothing without a bar; with nothing, or anything but digits and a plus sign in
/// front of them, on one of the sides of the first bar; or with a number that is too large for a
/// window or for an entry. In every other case it stands for the numbers on the two sides.
pub proof fn law_other_ids_stand_for_nothing(window: Seq<char>, entry: Seq<char>)
    requires
        !window.contains('|'),
    ensures
        menu_entry(window) is None,
        menu_entry(window + seq!['|'] + entry) == match (number(window), number(entry)) {
            (Some(w), Some(e)) if w <= 0xffff_ffff_ffff_ffff && e <= usize::MAX => Some((w, e)),
            _ => None,
        },
        number(window) is Some <==> (window.len() > 0 && (forall|i: int|
            0 <= i < window.len() && !(i == 0 && window[0] == '+' && window.len() > 1) ==> '0'
                <= #[trigger] window[i] <= '9')),
{
    window.index_of_first_ensures('|');
    let id = window + seq!['|'] + entry;
    let at = window.len() as int;
    id.index_of_first_ensures('|');
    assert(id[at] == '|');
    assert forall|i: int| 0 <= i < at implies id[i] != '|' by {
        assert(id[i] == window[i]);
        assert(window.contains(window[i]));
    }
    assert(id.index_of_first('|') == Some(at));
    assert(id.take(at) =~= window);
    assert(id.skip(at + 1) =~= entry);
    let digits = digits_of(window);
    if number(window) is Some {
        assert forall|i: int|
            0 <= i < window.len() && !(i == 0 && window[0] == '+' && window.len() > 1) implies '0'
            <= #[trigger] window[i] <= '9' by {
            if window[0] == '+' {
                assert(is_digit(digits[i - 1]));
            } else {
                assert(is_digit(digits[i]));
            }
        }
    }
    if window.len() > 0 && (forall|i: int|
        0 <= i < window.len() && !(i == 0 && window[0] == '+' && window.len() > 1) ==> '0'
            <= #[trigger] window[i] <= '9') {
        assert forall|i: int| 0 <= i < digits.len() implies is_digit(#[trigger] digits[i]) by {
            if window[0] == '+' {
                assert('0' <= window[i + 1] <= '9');
            } else {
                assert('0' <= window[i] <= '9');
            }
        }
        if window.len() == 1 {
            assert('0' <= window[0] <= '9');
        }
    }
}

} // verus!
