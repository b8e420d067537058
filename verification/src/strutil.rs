//! Character-exact string helpers: equality, prefix and suffix tests, and
//! first/last occurrence searches, each pinned to its view.

use vstd::prelude::*;

verus! {

/// `pat` occurs in `s` at position `i`.
pub open spec fn sub_at(s: Seq<char>, pat: Seq<char>, i: int) -> bool {
    0 <= i && i + pat.len() <= s.len() && s.subrange(i, i + pat.len() as int) == pat
}

/// `pat` occurs somewhere in `s`.
pub open spec fn has_sub(s: Seq<char>, pat: Seq<char>) -> bool {
    exists|i: int| sub_at(s, pat, i)
}

/// `i` is the first occurrence of `pat` in `s`.
pub open spec fn first_sub_at(s: Seq<char>, pat: Seq<char>, i: int) -> bool {
    sub_at(s, pat, i) && (forall|j: int| 0 <= j < i ==> !sub_at(s, pat, j))
}

/// `i` is the first position at or after `from` where `c` stands.
pub open spec fn first_char_at_from(s: Seq<char>, c: char, from: int, i: int) -> bool {
    from <= i < s.len() && s[i] == c && (forall|j: int| from <= j < i ==> s[j] != c)
}

/// `c` stands somewhere at or after `from`.
pub open spec fn has_char_from(s: Seq<char>, c: char, from: int) -> bool {
    exists|i: int| from <= i < s.len() && s[i] == c
}

/// `i` is the last position where `c` stands.
pub open spec fn last_char_at(s: Seq<char>, c: char, i: int) -> bool {
    0 <= i < s.len() && s[i] == c && (forall|j: int| i < j < s.len() ==> s[j] != c)
}

/// Character-wise string equality.
pub fn str_eq(a: &str, b: &str) -> (r: bool)
    ensures
        r == (a@ == b@),
{
    let alen = a.unicode_len();
    let blen = b.unicode_len();
    if alen != blen {
        return false;
    }
    let mut i: usize = 0;
    while i < alen
        invariant
            alen == a@.len(),
            alen == b@.len(),
            i <= alen,
            forall|j: int| 0 <= j < i ==> a@[j] == b@[j],
        decreases alen - i,
    {
        if a.get_char(i) != b.get_char(i) {
            return false;
        }
        i += 1;
    }
    proof {
        assert(a@ =~= b@);
    }
    true
}

/// Whether `s` begins with `prefix`.
pub fn starts_with_str(s: &str, prefix: &str) -> (r: bool)
    ensures
        r == (prefix@.len() <= s@.len() && s@.subrange(0, prefix@.len() as int) == prefix@),
{
    let slen = s.unicode_len();
    let plen = prefix.unicode_len();
    if plen > slen {
        return false;
    }
    let mut i: usize = 0;
    while i < plen
        invariant
            slen == s@.len(),
            plen == prefix@.len(),
            plen <= slen,
            i <= plen,
            forall|j: int| 0 <= j < i ==> s@[j] == prefix@[j],
        decreases plen - i,
    {
        if s.get_char(i) != prefix.get_char(i) {
            proof {
                assert(s@.subrange(0, plen as int)[i as int] != prefix@[i as int]);
            }
            return false;
        }
        i += 1;
    }
    proof {
        assert(s@.subrange(0, plen as int) =~= prefix@);
    }
    true
}

/// Whether `s` ends with `suffix`.
pub fn ends_with_str(s: &str, suffix: &str) -> (r: bool)
    ensures
        r == (suffix@.len() <= s@.len() && s@.subrange(
            s@.len() - suffix@.len(),
            s@.len() as int,
        ) == suffix@),
{
    let slen = s.unicode_len();
    let xlen = suffix.unicode_len();
    if xlen > slen {
        return false;
    }
    let off = slen - xlen;
    let mut i: usize = 0;
    while i < xlen
        invariant
            slen == s@.len(),
            xlen == suffix@.len(),
            xlen <= slen,
            off == slen - xlen,
            i <= xlen,
            forall|j: int| 0 <= j < i ==> s@[off + j] == suffix@[j],
        decreases xlen - i,
    {
        if s.get_char(off + i) != suffix.get_char(i) {
            proof {
                assert(s@.subrange(off as int, slen as int)[i as int] != suffix@[i as int]);
            }
            return false;
        }
        i += 1;
    }
    proof {
        assert(s@.subrange(off as int, slen as int) =~= suffix@);
    }
    true
}

/// Whether `pat` occurs at position `i` of `s`.
fn match_at(s: &str, pat: &str, i: usize) -> (r: bool)
    requires
        i + pat@.len() <= s@.len(),
    ensures
        r == sub_at(s@, pat@, i as int),
{
    let slen = s.unicode_len();
    let plen = pat.unicode_len();
    let mut j: usize = 0;
    while j < plen
        invariant
            slen == s@.len(),
            plen == pat@.len(),
            i + plen <= slen,
            j <= plen,
            forall|k: int| 0 <= k < j ==> s@[i + k] == pat@[k],
        decreases plen - j,
    {
        if s.get_char(i + j) != pat.get_char(j) {
            proof {
                assert(s@.subrange(i as int, i as int + plen as int)[j as int] != pat@[j as int]);
            }
            return false;
        }
        j += 1;
    }
    proof {
        assert(s@.subrange(i as int, i as int + plen as int) =~= pat@);
    }
    true
}

/// First occurrence of `pat` in `s`, if any.
pub fn find_sub(s: &str, pat: &str) -> (r: Option<usize>)
    ensures
        r matches Some(i) ==> first_sub_at(s@, pat@, i as int),
        r is None ==> !has_sub(s@, pat@),
{
    let slen = s.unicode_len();
    let plen = pat.unicode_len();
    if plen > slen {
        return None;
    }
    if plen == 0 {
        proof {
            assert(s@.subrange(0, 0) =~= pat@);
        }
        return Some(0);
    }
    let last = slen - plen;
    let mut i: usize = 0;
    while i <= last
        invariant
            slen == s@.len(),
            plen == pat@.len(),
            1 <= plen <= slen,
            last == slen - plen,
            i <= last + 1,
            forall|j: int| 0 <= j < i ==> !sub_at(s@, pat@, j),
        decreases last - i + 1,
    {
        if match_at(s, pat, i) {
            return Some(i);
        }
        i += 1;
    }
    proof {
        assert forall|j: int| !sub_at(s@, pat@, j) by {
            if 0 <= j <= last {
                assert(!sub_at(s@, pat@, j));
            }
        }
    }
    None
}

/// Whether `pat` occurs anywhere in `s`.
pub fn contains_sub(s: &str, pat: &str) -> (r: bool)
    ensures
        r == has_sub(s@, pat@),
{
    match find_sub(s, pat) {
        Some(_) => true,
        None => false,
    }
}

/// First position at or after `from` where `c` stands, if any.
pub fn find_char_from(s: &str, c: char, from: usize) -> (r: Option<usize>)
    requires
        from <= s@.len(),
    ensures
        r matches Some(i) ==> first_char_at_from(s@, c, from as int, i as int),
        r is None ==> !has_char_from(s@, c, from as int),
{
    let slen = s.unicode_len();
    let mut i: usize = from;
    while i < slen
        invariant
            slen == s@.len(),
            from <= i <= slen,
            forall|j: int| from <= j < i ==> s@[j] != c,
        decreases slen - i,
    {
        if s.get_char(i) == c {
            return Some(i);
        }
        i += 1;
    }
    None
}

/// Last position where `c` stands, if any.
pub fn rfind_char(s: &str, c: char) -> (r: Option<usize>)
    ensures
        r matches Some(i) ==> last_char_at(s@, c, i as int),
        r is None ==> !has_char_from(s@, c, 0),
{
    let slen = s.unicode_len();
    let mut i: usize = slen;
    while i > 0
        invariant
            slen == s@.len(),
            i <= slen,
            forall|j: int| i <= j < slen ==> s@[j] != c,
        decreases i,
    {
        i -= 1;
        if s.get_char(i) == c {
            return Some(i);
        }
    }
    None
}

/// The digit character of a value below ten.
pub open spec fn digit_char(d: int) -> char {
    if d == 0 {
        '0'
    } else if d == 1 {
        '1'
    } else if d == 2 {
        '2'
    } else if d == 3 {
        '3'
    } else if d == 4 {
        '4'
    } else if d == 5 {
        '5'
    } else if d == 6 {
        '6'
    } else if d == 7 {
        '7'
    } else if d == 8 {
        '8'
    } else {
        '9'
    }
}

/// The decimal text of a non-negative number, most significant digit first.
pub open spec fn decimal_of(n: int) -> Seq<char>
    recommends
        n >= 0,
    decreases n,
{
    if n < 10 {
        seq![digit_char(n)]
    } else {
        decimal_of(n / 10).push(digit_char(n % 10))
    }
}

/// The digits of `ds`, least significant first, read back as text.
spec fn digits_reversed(ds: Seq<u8>) -> Seq<char>
    decreases ds.len(),
{
    if ds.len() == 0 {
        Seq::empty()
    } else {
        seq![digit_char(ds.last() as int)] + digits_reversed(ds.drop_last())
    }
}

/// Reading reversed digits peels the first digit off the back.
proof fn lemma_digits_reversed_first(s: Seq<u8>)
    requires
        s.len() >= 1,
    ensures
        digits_reversed(s) == digits_reversed(s.drop_first()) + seq![digit_char(s.first() as int)],
    decreases s.len(),
{
    if s.len() == 1 {
        assert(s.drop_first() =~= Seq::<u8>::empty());
        assert(s.drop_last() =~= Seq::<u8>::empty());
        assert(digits_reversed(Seq::<u8>::empty()) == Seq::<char>::empty());
        assert(s.last() == s.first());
        assert(digits_reversed(s) == seq![digit_char(s.last() as int)] + digits_reversed(
            s.drop_last(),
        ));
        assert(digits_reversed(s) =~= digits_reversed(s.drop_first()) + seq![
            digit_char(s.first() as int),
        ]);
    } else {
        let d = s.drop_last();
        lemma_digits_reversed_first(d);
        assert(s.drop_first().last() == s.last());
        assert(s.drop_first().drop_last() =~= d.drop_first());
        assert(d.first() == s.first());
        assert(digits_reversed(s.drop_first()) == seq![digit_char(s.last() as int)]
            + digits_reversed(d.drop_first()));
        assert(digits_reversed(s) =~= digits_reversed(s.drop_first()) + seq![
            digit_char(s.first() as int),
        ]);
    }
}

/// The one-character text of a digit.
fn digit_str(d: u8) -> (r: &'static str)
    requires
        d < 10,
    ensures
        r@ == seq![digit_char(d as int)],
{
    proof {
        reveal_strlit("0");
        reveal_strlit("1");
        reveal_strlit("2");
        reveal_strlit("3");
        reveal_strlit("4");
        reveal_strlit("5");
        reveal_strlit("6");
        reveal_strlit("7");
        reveal_strlit("8");
        reveal_strlit("9");
    }
    let r = match d {
        0 => "0",
        1 => "1",
        2 => "2",
        3 => "3",
        4 => "4",
        5 => "5",
        6 => "6",
        7 => "7",
        8 => "8",
        _ => "9",
    };
    proof {
        assert(r@ =~= seq![digit_char(d as int)]);
    }
    r
}

/// Render a number in decimal.
pub fn decimal_string(n: usize) -> (r: String)
    ensures
        r@ == decimal_of(n as int),
{
    if n < 10 {
        let mut out = String::new();
        out.append(digit_str(n as u8));
        proof {
            assert(out@ =~= decimal_of(n as int));
        }
        return out;
    }
    let mut digits: Vec<u8> = Vec::new();
    let mut m = n;
    while m > 0
        invariant
            m >= 0,
            m > 0 ==> decimal_of(n as int) == decimal_of(m as int) + digits_reversed(digits@),
            m == 0 ==> decimal_of(n as int) == digits_reversed(digits@),
            m == 0 ==> digits@.len() > 0,
            forall|i: int| 0 <= i < digits@.len() ==> digits@[i] < 10,
        decreases m,
    {
        let ghost pre = digits@;
        let ghost m0 = m as int;
        let d = (m % 10) as u8;
        digits.push(d);
        m = m / 10;
        proof {
            assert(digits@.drop_last() =~= pre);
            assert(digits@.last() == d);
            assert(digits_reversed(digits@) == seq![digit_char(d as int)] + digits_reversed(pre));
            if m > 0 {
                assert(decimal_of(m0) == decimal_of(m0 / 10).push(digit_char(m0 % 10)));
                assert(decimal_of(m0) + digits_reversed(pre) =~= decimal_of(m as int)
                    + digits_reversed(digits@));
            } else {
                assert(m0 < 10);
                assert(decimal_of(m0) =~= seq![digit_char(d as int)]);
                assert(decimal_of(m0) + digits_reversed(pre) =~= digits_reversed(digits@));
            }
        }
    }
    let mut out = String::new();
    let len = digits.len();
    let mut i: usize = len;
    proof {
        assert(digits@.subrange(len as int, len as int) =~= Seq::<u8>::empty());
    }
    while i > 0
        invariant
            len == digits@.len(),
            i <= len,
            forall|j: int| 0 <= j < digits@.len() ==> digits@[j] < 10,
            out@ == digits_reversed(digits@.subrange(i as int, len as int)),
        decreases i,
    {
        i -= 1;
        let ghost tail = digits@.subrange(i as int + 1, len as int);
        out.append(digit_str(digits[i]));
        proof {
            let s = digits@.subrange(i as int, len as int);
            assert(s.first() == digits@[i as int]);
            assert(s.drop_first() =~= tail);
            lemma_digits_reversed_first(s);
        }
    }
    proof {
        assert(digits@.subrange(0, len as int) =~= digits@);
    }
    out
}

} // verus!
