use vstd::prelude::*;
use vstd::string::*;

verus! {

/// An ASCII decimal digit.
pub open spec fn is_digit(c: char) -> bool {
    0x30 <= (c as u32) && (c as u32) <= 0x39
}

pub open spec fn all_digits(s: Seq<char>) -> bool {
    forall|i: int| 0 <= i < s.len() ==> is_digit(#[trigger] s[i])
}

/// The number that a string of decimal digits writes.
pub open spec fn digits_value(s: Seq<char>) -> int
    decreases s.len(),
{
    if s.len() == 0 {
        0
    } else {
        digits_value(s.drop_last()) * 10 + ((s.last() as u32) - 0x30)
    }
}

/// The integer that `s` writes: an optional `+` or `-`, then one or more digits.
pub open spec fn int_of(s: Seq<char>) -> Option<int> {
    let signed = s.len() > 0 && (s[0] == '-' || s[0] == '+');
    let body = if signed {
        s.subrange(1, s.len() as int)
    } else {
        s
    };
    if body.len() > 0 && all_digits(body) {
        if s[0] == '-' {
            Some(-digits_value(body))
        } else {
            Some(digits_value(body))
        }
    } else {
        None
    }
}

/// What `i64::from_str` makes of `s`: the integer it writes, when that fits.
pub open spec fn i64_of(s: Seq<char>) -> Option<i64> {
    match int_of(s) {
        Some(v) => if i64::MIN <= v <= i64::MAX {
            Some(v as i64)
        } else {
            None
        },
        None => None,
    }
}

proof fn lemma_digits_value_nonneg(s: Seq<char>)
    requires
        all_digits(s),
    ensures
        digits_value(s) >= 0,
    decreases s.len(),
{
    if s.len() > 0 {
        let t = s.drop_last();
        assert(all_digits(t)) by {
            assert forall|i: int| 0 <= i < t.len() implies is_digit(#[trigger] t[i]) by {
                assert(t[i] == s[i]);
            }
        }
        lemma_digits_value_nonneg(t);
        assert(is_digit(s[s.len() - 1]));
    }
}

proof fn lemma_digits_value_prefix(s: Seq<char>, k: int)
    requires
        all_digits(s),
        0 <= k <= s.len(),
    ensures
        digits_value(s.subrange(0, k)) <= digits_value(s),
    decreases s.len(),
{
    if k == s.len() {
        assert(s.subrange(0, k) =~= s);
    } else {
        let t = s.drop_last();
        assert(all_digits(t)) by {
            assert forall|i: int| 0 <= i < t.len() implies is_digit(#[trigger] t[i]) by {
                assert(t[i] == s[i]);
            }
        }
        lemma_digits_value_prefix(t, k);
        lemma_digits_value_nonneg(t);
        assert(t.subrange(0, k) =~= s.subrange(0, k));
        assert(is_digit(s[s.len() - 1]));
    }
}

/// The `i64` that `v[lo..hi]` writes, as `i64::from_str` reads it.
pub fn i64_in(v: &Vec<char>, lo: usize, hi: usize) -> (r: Option<i64>)
    requires
        lo <= hi <= v@.len(),
    ensures
        r == i64_of(v@.subrange(lo as int, hi as int)),
{
    let ghost s = v@.subrange(lo as int, hi as int);
    let mut k: usize = lo;
    let mut neg = false;
    if k < hi && v[k] == '-' {
        neg = true;
        k = k + 1;
    } else if k < hi && v[k] == '+' {
        k = k + 1;
    }
    let start = k;
    let ghost body = v@.subrange(start as int, hi as int);
    assert(body =~= if s.len() > 0 && (s[0] == '-' || s[0] == '+') {
        s.subrange(1, s.len() as int)
    } else {
        s
    });
    if start == hi {
        return None;
    }
    let mut acc: u64 = 0;
    assert(v@.subrange(start as int, start as int) =~= Seq::<char>::empty());
    while k < hi
        invariant
            lo <= start <= k <= hi <= v@.len(),
            body == v@.subrange(start as int, hi as int),
            s == v@.subrange(lo as int, hi as int),
            body == (if s.len() > 0 && (s[0] == '-' || s[0] == '+') {
                s.subrange(1, s.len() as int)
            } else {
                s
            }),
            neg == (s.len() > 0 && s[0] == '-'),
            acc as int == digits_value(v@.subrange(start as int, k as int)),
            acc <= 9223372036854775808u64,
            forall|i: int| start <= i < k ==> is_digit(#[trigger] v@[i]),
        decreases hi - k,
    {
        let c = v[k];
        if !((c as u32) >= 0x30 && (c as u32) <= 0x39) {
            assert(body[k - start] == v@[k as int]);
            assert(!is_digit(body[k - start]));
            assert(!all_digits(body));
            assert(int_of(s) is None);
            return None;
        }
        let nxt: u128 = acc as u128 * 10 + ((c as u32) - 0x30) as u128;
        assert(v@.subrange(start as int, k + 1).drop_last() =~= v@.subrange(start as int, k as int));
        assert(v@.subrange(start as int, k + 1).last() == c);
        assert(nxt as int == digits_value(v@.subrange(start as int, k + 1)));
        if nxt > 9223372036854775808u128 {
            proof {
                if all_digits(body) {
                    assert(v@.subrange(start as int, k + 1) =~= body.subrange(0, k + 1 - start));
                    lemma_digits_value_prefix(body, k + 1 - start);
                    assert(digits_value(body) > 9223372036854775808);
                    assert(int_of(s) == Some(digits_value(body)) || int_of(s) == Some(-digits_value(body)));
                }
            }
            return None;
        }
        acc = nxt as u64;
        k = k + 1;
    }
    assert(all_digits(body)) by {
        assert forall|i: int| 0 <= i < body.len() implies is_digit(#[trigger] body[i]) by {
            assert(body[i] == v@[start + i]);
        }
    }
    if neg {
        if acc == 9223372036854775808u64 {
            Some(i64::MIN)
        } else {
            Some(-(acc as i64))
        }
    } else if acc <= 9223372036854775807u64 {
        Some(acc as i64)
    } else {
        None
    }
}

/// The decimal digit `d` as a character.
pub open spec fn digit_char(d: int) -> char {
    if d == 0 { '0' }
    else if d == 1 { '1' }
    else if d == 2 { '2' }
    else if d == 3 { '3' }
    else if d == 4 { '4' }
    else if d == 5 { '5' }
    else if d == 6 { '6' }
    else if d == 7 { '7' }
    else if d == 8 { '8' }
    else { '9' }
}

/// `n` written in decimal, without leading zeros.
pub open spec fn decimal(n: nat) -> Seq<char>
    decreases n,
{
    if n < 10 {
        seq![digit_char(n as int)]
    } else {
        decimal(n / 10).push(digit_char((n % 10) as int))
    }
}

fn digit_str(d: u64) -> (r: &'static str)
    requires
        d < 10,
    ensures
        r@ == seq![digit_char(d as int)],
{
    proof {
        reveal_strlit("0");
        reveal_strlit("1");
        reveal_strlit("2");
        reveal_strlit("3");
        reveal_strlit("4");
        reveal_strlit("5");
        reveal_strlit("6");
        reveal_strlit("7");
        reveal_strlit("8");
        reveal_strlit("9");
    }
    match d {
        0 => "0",
        1 => "1",
        2 => "2",
        3 => "3",
        4 => "4",
        5 => "5",
        6 => "6",
        7 => "7",
        8 => "8",
        _ => "9",
    }
}

/// Appends `n` in decimal to `out`.
pub fn push_decimal(out: &mut String, n: u64)
    ensures
        final(out)@ == old(out)@ + decimal(n as nat),
    decreases n,
{
    if n >= 10 {
        push_decimal(out, n / 10);
    }
    out.append(digit_str(n % 10));
    proof {
        if n >= 10 {
            assert(old(out)@ + decimal((n / 10) as nat) + seq![digit_char((n % 10) as int)]
                =~= old(out)@ + decimal(n as nat));
        }
    }
}

} // verus!
