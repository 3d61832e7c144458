//! Addresses as text: four numbers up to 255 with dots between them, as an
//! IPv4 address is written, and the ports that go with them.

use vstd::prelude::*;

verus! {

/// The highest port.
pub const MAX_PORT: usize = 65535;

/// The number that a digit stands for; `None` for any other character.
pub open spec fn digit_of(c: char) -> Option<nat> {
    if c == '0' {
        Some(0)
    } else if c == '1' {
        Some(1)
    } else if c == '2' {
        Some(2)
    } else if c == '3' {
        Some(3)
    } else if c == '4' {
        Some(4)
    } else if c == '5' {
        Some(5)
    } else if c == '6' {
        Some(6)
    } else if c == '7' {
        Some(7)
    } else if c == '8' {
        Some(8)
    } else if c == '9' {
        Some(9)
    } else {
        None
    }
}

/// The number that a text of digits writes in decimal.
pub open spec fn number(text: Seq<char>) -> nat
    decreases text.len(),
{
    if text.len() == 0 {
        0
    } else {
        number(text.drop_last()) * 10 + match digit_of(text.last()) {
            Some(d) => d,
            None => 0,
        }
    }
}

/// One of the four numbers of an address: one to three digits, without a
/// zero in front of another digit, that write a number up to 255.
pub open spec fn is_octet(text: Seq<char>) -> bool {
    &&& 1 <= text.len() <= 3
    &&& forall|k: int| 0 <= k < text.len() ==> digit_of(#[trigger] text[k]) is Some
    &&& (text.len() > 1 ==> text[0] != '0')
    &&& number(text) <= 255
}

/// The position of the first dot in `text`, or -1 when it has none.
pub open spec fn first_dot(text: Seq<char>) -> int
    decreases text.len(),
{
    if text.len() == 0 {
        -1
    } else if text[0] == '.' {
        0
    } else {
        let later = first_dot(text.drop_first());
        if later < 0 {
            -1
        } else {
            later + 1
        }
    }
}

/// Whether `text` is `count` numbers up to 255 with one dot between each two
/// of them.
pub open spec fn dotted(text: Seq<char>, count: nat) -> bool
    decreases count,
{
    if count == 0 {
        false
    } else if count == 1 {
        is_octet(text)
    } else {
        let dot = first_dot(text);
        &&& 0 <= dot < text.len()
        &&& is_octet(text.subrange(0, dot))
        &&& dotted(text.subrange(dot + 1, text.len() as int), (count - 1) as nat)
    }
}

/// Whether `text` writes an IPv4 address: four numbers up to 255 with dots
/// between them.
pub open spec fn is_ipv4(text: Seq<char>) -> bool {
    dotted(text, 4)
}

/// The first dot of a text stands right behind a stretch without one.
pub proof fn lemma_first_dot(text: Seq<char>, k: int)
    requires
        0 <= k <= text.len(),
        forall|j: int| 0 <= j < k ==> text[j] != '.',
        k < text.len() ==> text[k] == '.',
    ensures
        first_dot(text) == if k < text.len() {
            k
        } else {
            -1
        },
    decreases k,
{
    if k > 0 {
        let rest = text.drop_first();
        assert forall|j: int| 0 <= j < k - 1 implies rest[j] != '.' by {
            assert(rest[j] == text[j + 1]);
        }
        lemma_first_dot(rest, k - 1);
    }
}

/// The number that a character stands for, if it is a digit.
fn digit_value(c: char) -> (digit: Option<u8>)
    ensures
        match digit {
            Some(d) => digit_of(c) == Some(d as nat),
            None => digit_of(c) is None,
        },
{
    if c == '0' {
        Some(0)
    } else if c == '1' {
        Some(1)
    } else if c == '2' {
        Some(2)
    } else if c == '3' {
        Some(3)
    } else if c == '4' {
        Some(4)
    } else if c == '5' {
        Some(5)
    } else if c == '6' {
        Some(6)
    } else if c == '7' {
        Some(7)
    } else if c == '8' {
        Some(8)
    } else if c == '9' {
        Some(9)
    } else {
        None
    }
}

/// Whether the characters of `text` from `start` up to `end` are one of the
/// four numbers of an address.
fn is_octet_at(text: &str, start: usize, end: usize) -> (ok: bool)
    requires
        start <= end <= text@.len(),
    ensures
        ok == is_octet(text@.subrange(start as int, end as int)),
{
    let ghost piece = text@.subrange(start as int, end as int);
    let length: usize = end - start;
    if length == 0 || length > 3 {
        return false;
    }
    if length > 1 && text.get_char(start) == '0' {
        assert(piece[0] == '0');
        return false;
    }
    let mut value: u32 = 0;
    let mut i: usize = start;
    while i < end
        invariant
            start <= i <= end <= text@.len(),
            end - start <= 3,
            piece == text@.subrange(start as int, end as int),
            value == number(text@.subrange(start as int, i as int)),
            i - start == 0 ==> value == 0,
            i - start == 1 ==> value <= 9,
            i - start == 2 ==> value <= 99,
            i - start == 3 ==> value <= 999,
            forall|k: int| 0 <= k < i - start ==> digit_of(#[trigger] piece[k]) is Some,
        decreases end - i,
    {
        proof {
            let longer = text@.subrange(start as int, i + 1);
            assert(longer.drop_last() == text@.subrange(start as int, i as int));
            assert(longer.last() == text@[i as int]);
            assert(piece[i - start] == text@[i as int]);
        }
        match digit_value(text.get_char(i)) {
            None => {
                return false;
            },
            Some(digit) => {
                value = value * 10 + digit as u32;
            },
        }
        i += 1;
    }
    value <= 255
}

/// Whether `text` writes an IPv4 address.
pub fn is_ipv4_text(text: &str) -> (ok: bool)
    ensures
        ok == is_ipv4(text@),
{
    let n: usize = text.unicode_len();
    let mut start: usize = 0;
    let mut remaining: usize = 4;
    assert(text@.subrange(0, n as int) == text@);
    loop
        invariant
            start <= n,
            n == text@.len(),
            1 <= remaining <= 4,
            is_ipv4(text@) == dotted(text@.subrange(start as int, n as int), remaining as nat),
        decreases remaining,
    {
        let ghost rest = text@.subrange(start as int, n as int);
        let mut end: usize = start;
        while end < n && text.get_char(end) != '.'
            invariant
                start <= end <= n,
                n == text@.len(),
                forall|j: int| start <= j < end ==> text@[j] != '.',
            decreases n - end,
        {
            end += 1;
        }
        proof {
            assert forall|j: int| 0 <= j < end - start implies rest[j] != '.' by {
                assert(rest[j] == text@[start + j]);
            }
            lemma_first_dot(rest, end - start);
            if end < n {
                assert(rest[end - start] == '.');
                assert(rest.subrange(0, end - start) == text@.subrange(start as int, end as int));
                assert(rest.subrange(end - start + 1, rest.len() as int) == text@.subrange(
                    end + 1,
                    n as int,
                ));
            } else {
                assert(rest == text@.subrange(start as int, end as int));
            }
        }
        if remaining == 1 {
            if end < n {
                assert(digit_of(rest[end - start]) is None);
                return false;
            }
            return is_octet_at(text, start, end);
        }
        if end == n {
            return false;
        }
        if !is_octet_at(text, start, end) {
            return false;
        }
        start = end + 1;
        remaining = remaining - 1;
    }
}

} // verus!
