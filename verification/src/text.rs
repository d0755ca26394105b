//! Character-sequence utilities: substring tests, lexicographic key order,
//! and decimal rendering, all specified over `Seq<char>`.

use vstd::prelude::*;

verus! {

/// `p` is a prefix of `k`.
pub open spec fn prefix_matches(p: Seq<char>, k: Seq<char>) -> bool {
    p.len() <= k.len() && k.subrange(0, p.len() as int) == p
}

/// `p` is a suffix of `k`.
pub open spec fn suffix_matches(p: Seq<char>, k: Seq<char>) -> bool {
    p.len() <= k.len() && k.subrange(k.len() - p.len(), k.len() as int) == p
}

/// `p` occurs in `k` starting at position `i`.
pub open spec fn occurs_at(p: Seq<char>, k: Seq<char>, i: int) -> bool {
    0 <= i && i + p.len() <= k.len() && k.subrange(i, i + p.len()) == p
}

/// `p` occurs somewhere in `k`.
pub open spec fn has_substring(p: Seq<char>, k: Seq<char>) -> bool {
    exists|i: int| occurs_at(p, k, i)
}

/// Lexicographic order on character sequences by Unicode scalar value,
/// the order in which the catalog keeps its keys.
pub open spec fn lex_le(a: Seq<char>, b: Seq<char>) -> bool
    decreases a.len(),
{
    if a.len() == 0 {
        true
    } else if b.len() == 0 {
        false
    } else if (a[0] as u32) < (b[0] as u32) {
        true
    } else if (a[0] as u32) > (b[0] as u32) {
        false
    } else {
        lex_le(a.drop_first(), b.drop_first())
    }
}

/// Dropping an equal prefix does not change the lexicographic comparison.
proof fn lemma_lex_le_agree(a: Seq<char>, b: Seq<char>, i: int)
    requires
        0 <= i <= a.len(),
        i <= b.len(),
        forall|j: int| 0 <= j < i ==> a[j] == b[j],
    ensures
        lex_le(a, b) == lex_le(a.skip(i), b.skip(i)),
    decreases i,
{
    if i > 0 {
        lemma_lex_le_agree(a.drop_first(), b.drop_first(), i - 1);
        assert(a.skip(i) =~= a.drop_first().skip(i - 1));
        assert(b.skip(i) =~= b.drop_first().skip(i - 1));
    } else {
        assert(a.skip(0) =~= a);
        assert(b.skip(0) =~= b);
    }
}

/// Any two sequences are comparable.
pub proof fn lemma_lex_le_total(a: Seq<char>, b: Seq<char>)
    ensures
        lex_le(a, b) || lex_le(b, a),
    decreases a.len(),
{
    if a.len() > 0 && b.len() > 0 && (a[0] as u32) == (b[0] as u32) {
        lemma_lex_le_total(a.drop_first(), b.drop_first());
    }
}

/// Lexicographic order is transitive.
pub proof fn lemma_lex_le_trans(a: Seq<char>, b: Seq<char>, c: Seq<char>)
    requires
        lex_le(a, b),
        lex_le(b, c),
    ensures
        lex_le(a, c),
    decreases a.len(),
{
    if a.len() > 0 && b.len() > 0 && c.len() > 0 && (a[0] as u32) == (b[0] as u32)
        && (b[0] as u32) == (c[0] as u32) {
        lemma_lex_le_trans(a.drop_first(), b.drop_first(), c.drop_first());
    }
}

/// Does `pat` occur in `key` at position `i`?
pub(crate) fn occurs_here(key: &str, pat: &str, i: usize) -> (r: bool)
    requires
        i + pat@.len() <= key@.len(),
    ensures
        r == occurs_at(pat@, key@, i as int),
{
    let kl = key.unicode_len();
    let pl = pat.unicode_len();
    let mut j: usize = 0;
    while j < pl
        invariant
            j <= pl,
            kl == key@.len(),
            pl == pat@.len(),
            i + pl <= kl,
            forall|t: int| 0 <= t < j ==> key@[i + t] == pat@[t],
        decreases pl - j,
    {
        if key.get_char(i + j) != pat.get_char(j) {
            proof {
                if occurs_at(pat@, key@, i as int) {
                    assert(key@.subrange(i as int, i + pat@.len())[j as int] == pat@[j as int]);
                }
            }
            return false;
        }
        j += 1;
    }
    proof {
        assert(key@.subrange(i as int, i + pat@.len()) =~= pat@);
    }
    true
}

/// Literal prefix test: does `key` start with `pat`?
pub fn str_starts_with(key: &str, pat: &str) -> (r: bool)
    ensures
        r == prefix_matches(pat@, key@),
{
    let kl = key.unicode_len();
    let pl = pat.unicode_len();
    if pl > kl {
        return false;
    }
    let r = occurs_here(key, pat, 0);
    proof {
        assert(key@.subrange(0, pat@.len() as int) == key@.subrange(0int, 0 + pat@.len() as int));
    }
    r
}

/// Literal suffix test: does `key` end with `pat`?
pub fn str_ends_with(key: &str, pat: &str) -> (r: bool)
    ensures
        r == suffix_matches(pat@, key@),
{
    let kl = key.unicode_len();
    let pl = pat.unicode_len();
    if pl > kl {
        return false;
    }
    let r = occurs_here(key, pat, kl - pl);
    proof {
        assert(key@.len() - pat@.len() + pat@.len() == key@.len());
        assert(key@.subrange(key@.len() - pat@.len(), key@.len() as int)
            =~= key@.subrange(key@.len() - pat@.len(), key@.len() - pat@.len() + pat@.len()));
    }
    r
}

/// Literal substring test: does `pat` occur anywhere in `key`?
pub fn str_contains_sub(key: &str, pat: &str) -> (r: bool)
    ensures
        r == has_substring(pat@, key@),
{
    let kl = key.unicode_len();
    let pl = pat.unicode_len();
    if pl > kl {
        return false;
    }
    if pl == 0 {
        proof {
            assert(occurs_at(pat@, key@, 0)) by {
                assert(key@.subrange(0, 0) =~= pat@);
            };
        }
        return true;
    }
    let end = kl - pl + 1;
    let mut i: usize = 0;
    while i < end
        invariant
            0 < pl <= kl,
            kl == key@.len(),
            pl == pat@.len(),
            end == kl - pl + 1,
            i <= end,
            forall|t: int| 0 <= t < i ==> !occurs_at(pat@, key@, t),
        decreases end - i,
    {
        if occurs_here(key, pat, i) {
            return true;
        }
        i += 1;
    }
    false
}

/// Character-for-character string equality.
pub fn str_eq_str(a: &str, b: &str) -> (r: bool)
    ensures
        r == (a@ == b@),
{
    let al = a.unicode_len();
    let bl = b.unicode_len();
    if al != bl {
        return false;
    }
    let r = occurs_here(b, a, 0);
    proof {
        if r {
            assert(b@.subrange(0int, 0 + a@.len() as int) =~= b@);
        } else {
            if a@ == b@ {
                assert(occurs_at(a@, b@, 0)) by {
                    assert(b@.subrange(0int, 0 + a@.len() as int) =~= a@);
                };
            }
        }
    }
    r
}

/// Lexicographic comparison of two strings: `a <= b` in key order.
pub fn str_le(a: &str, b: &str) -> (r: bool)
    ensures
        r == lex_le(a@, b@),
{
    let al = a.unicode_len();
    let bl = b.unicode_len();
    let min: usize = if al < bl { al } else { bl };
    let mut i: usize = 0;
    while i < min
        invariant
            i <= min,
            al == a@.len(),
            bl == b@.len(),
            min == if al < bl { al } else { bl },
            forall|j: int| 0 <= j < i ==> a@[j] == b@[j],
        decreases min - i,
    {
        let ca = a.get_char(i);
        let cb = b.get_char(i);
        if ca != cb {
            proof {
                lemma_lex_le_agree(a@, b@, i as int);
            }
            return (ca as u32) < (cb as u32);
        }
        i += 1;
    }
    proof {
        lemma_lex_le_agree(a@, b@, min as int);
    }
    al <= bl
}

/// The decimal digit character for `d`.
pub open spec fn dec_digit(d: int) -> char {
    if d == 0 { '0' }
    else if d == 1 { '1' }
    else if d == 2 { '2' }
    else if d == 3 { '3' }
    else if d == 4 { '4' }
    else if d == 5 { '5' }
    else if d == 6 { '6' }
    else if d == 7 { '7' }
    else if d == 8 { '8' }
    else { '9' }
}

/// The usual decimal rendering of `n`, with no leading zeroes.
pub open spec fn dec_str_of(n: nat) -> Seq<char>
    decreases n,
{
    if n < 10 {
        seq![dec_digit(n as int)]
    } else {
        dec_str_of(n / 10).push(dec_digit((n % 10) as int))
    }
}

/// Relies on `String::push`: appends exactly the given character.
pub assume_specification[ String::push ](s: &mut String, ch: char)
    ensures
        final(s)@ == old(s)@.push(ch),
;

fn digit_char(d: usize) -> (c: char)
    requires
        d < 10,
    ensures
        c == dec_digit(d as int),
{
    match d {
        0 => '0',
        1 => '1',
        2 => '2',
        3 => '3',
        4 => '4',
        5 => '5',
        6 => '6',
        7 => '7',
        8 => '8',
        _ => '9',
    }
}

/// Renders `n` in decimal.
pub fn usize_to_string(n: usize) -> (r: String)
    ensures
        r@ == dec_str_of(n as nat),
    decreases n,
{
    if n < 10 {
        let mut s = String::new();
        s.push(digit_char(n));
        s
    } else {
        let mut s = usize_to_string(n / 10);
        s.push(digit_char(n % 10));
        s
    }
}

} // verus!
