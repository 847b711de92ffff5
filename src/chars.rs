use vstd::prelude::*;
use vstd::string::*;
use vstd::std_specs::iter::IteratorSpec;

verus! {

broadcast use vstd::string::axiom_spec_iter, vstd::string::next_postcondition;

/// Whitespace as `char::is_whitespace` knows it: the Unicode `White_Space` property.
pub open spec fn is_space(c: char) -> bool {
    let u = c as u32;
    (0x9 <= u && u <= 0xD) || u == 0x20 || u == 0x85 || u == 0xA0 || u == 0x1680 || (0x2000 <= u
        && u <= 0x200A) || u == 0x2028 || u == 0x2029 || u == 0x202F || u == 0x205F || u == 0x3000
}

/// `s` without its leading whitespace.
pub open spec fn trim_start(s: Seq<char>) -> Seq<char>
    decreases s.len(),
{
    if s.len() > 0 && is_space(s[0]) {
        trim_start(s.subrange(1, s.len() as int))
    } else {
        s
    }
}

/// `s` without its trailing whitespace.
pub open spec fn trim_end(s: Seq<char>) -> Seq<char>
    decreases s.len(),
{
    if s.len() > 0 && is_space(s[s.len() - 1]) {
        trim_end(s.subrange(0, s.len() - 1))
    } else {
        s
    }
}

/// `s` without whitespace at either end.
pub open spec fn trim(s: Seq<char>) -> Seq<char> {
    trim_end(trim_start(s))
}

/// The ASCII lower-case form of a character's code; other characters keep theirs.
pub open spec fn lower_code(c: char) -> u32 {
    let u = c as u32;
    if 0x41 <= u && u <= 0x5A {
        (u + 0x20) as u32
    } else {
        u
    }
}

/// Equality up to ASCII case, as `str::eq_ignore_ascii_case` has it.
pub open spec fn eq_ascii_nocase(a: Seq<char>, b: Seq<char>) -> bool {
    a.len() == b.len() && forall|i: int| 0 <= i < a.len() ==> lower_code(#[trigger] a[i]) == lower_code(b[i])
}

pub fn is_space_char(c: char) -> (r: bool)
    ensures
        r == is_space(c),
{
    let u = c as u32;
    (0x9 <= u && u <= 0xD) || u == 0x20 || u == 0x85 || u == 0xA0 || u == 0x1680 || (0x2000 <= u
        && u <= 0x200A) || u == 0x2028 || u == 0x2029 || u == 0x202F || u == 0x205F || u == 0x3000
}

/// The characters of `s`, in order.
pub fn to_chars(s: &str) -> (v: Vec<char>)
    ensures
        v@ == s@,
{
    let mut it = s.chars();
    let mut v: Vec<char> = Vec::new();
    loop
        invariant
            it.obeys_prophetic_iter_laws(),
            v@ + it.remaining() == s@,
        decreases s@.len() - v@.len(),
    {
        match it.next() {
            Some(c) => {
                v.push(c);
                assert(v@ + it.remaining() =~= s@);
            },
            None => {
                assert(v@ =~= s@);
                return v;
            },
        }
    }
}

/// The bounds, inside `lo..hi`, of `v[lo..hi]` without whitespace at either end.
pub fn trim_range(v: &Vec<char>, lo: usize, hi: usize) -> (r: (usize, usize))
    requires
        lo <= hi <= v@.len(),
    ensures
        lo <= r.0 <= r.1 <= hi,
        v@.subrange(r.0 as int, r.1 as int) == trim(v@.subrange(lo as int, hi as int)),
{
    let mut i: usize = lo;
    while i < hi && is_space_char(v[i])
        invariant
            lo <= i <= hi <= v@.len(),
            trim_start(v@.subrange(lo as int, hi as int)) == trim_start(
                v@.subrange(i as int, hi as int),
            ),
        decreases hi - i,
    {
        assert(v@.subrange(i as int, hi as int).subrange(1, (hi - i) as int) =~= v@.subrange(
            i + 1,
            hi as int,
        ));
        i = i + 1;
    }
    assert(trim_start(v@.subrange(i as int, hi as int)) == v@.subrange(i as int, hi as int));
    let mut j: usize = hi;
    while j > i && is_space_char(v[j - 1])
        invariant
            lo <= i <= j <= hi <= v@.len(),
            trim(v@.subrange(lo as int, hi as int)) == trim_end(v@.subrange(i as int, j as int)),
        decreases j - i,
    {
        assert(v@.subrange(i as int, j as int).subrange(0, (j - i - 1) as int) =~= v@.subrange(
            i as int,
            j - 1,
        ));
        j = j - 1;
    }
    (i, j)
}

/// Whether `v[lo..hi]` equals `lit` up to ASCII case.
pub fn eq_nocase(v: &Vec<char>, lo: usize, hi: usize, lit: &str) -> (r: bool)
    requires
        lo <= hi <= v@.len(),
    ensures
        r == eq_ascii_nocase(v@.subrange(lo as int, hi as int), lit@),
{
    let n = lit.unicode_len();
    if hi - lo != n {
        return false;
    }
    let mut k: usize = 0;
    while k < n
        invariant
            lo <= hi <= v@.len(),
            n == lit@.len(),
            hi - lo == n,
            k <= n,
            forall|i: int| 0 <= i < k ==> lower_code(v@[lo + i]) == lower_code(lit@[i]),
        decreases n - k,
    {
        let a = v[lo + k] as u32;
        let b = lit.get_char(k) as u32;
        let la = if 0x41 <= a && a <= 0x5A { a + 0x20 } else { a };
        let lb = if 0x41 <= b && b <= 0x5A { b + 0x20 } else { b };
        if la != lb {
            assert(lower_code(v@.subrange(lo as int, hi as int)[k as int]) != lower_code(lit@[k as int]));
            return false;
        }
        k = k + 1;
    }
    assert forall|i: int| 0 <= i < v@.subrange(lo as int, hi as int).len() implies lower_code(
        #[trigger] v@.subrange(lo as int, hi as int)[i],
    ) == lower_code(lit@[i]) by {
        assert(v@.subrange(lo as int, hi as int)[i] == v@[lo + i]);
    }
    true
}

} // verus!
