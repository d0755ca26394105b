//! Parses the remote store's restore header into a `RestoreState`.
//!
//! The header is matched case-insensitively (ASCII): an ongoing request
//! marks the object as restoring; an expiry date, when its timestamp
//! parses, marks it as restoring until then; a finished request with no
//! readable expiry counts as available; anything else as expired.

use vstd::prelude::*;

use crate::models::RestoreState;
use crate::text::{has_substring, occurs_at, occurs_here, str_contains_sub};

verus! {

/// ASCII lowercasing of one character; other characters pass through.
pub open spec fn ascii_lower_char(c: char) -> char {
    if 'A' <= c && c <= 'Z' {
        (((c as u8) + 32) as char)
    } else {
        c
    }
}

/// ASCII lowercasing of a character sequence.
pub open spec fn ascii_lower_seq(s: Seq<char>) -> Seq<char> {
    s.map_values(|c: char| ascii_lower_char(c))
}

/// Lowercases the ASCII letters of a string.
pub fn ascii_lowercase_str(s: &str) -> (r: String)
    ensures
        r@ == ascii_lower_seq(s@),
{
    let n = s.unicode_len();
    let mut r = String::new();
    let mut i: usize = 0;
    while i < n
        invariant
            i <= n,
            n == s@.len(),
            r@ == ascii_lower_seq(s@).take(i as int),
        decreases n - i,
    {
        let c = s.get_char(i);
        let lowered: char = if c >= 'A' && c <= 'Z' {
            (((c as u8) + 32) as char)
        } else {
            c
        };
        r.push(lowered);
        proof {
            assert(ascii_lower_seq(s@).take(i + 1)
                =~= ascii_lower_seq(s@).take(i as int).push(ascii_lower_char(s@[i as int])));
        }
        i += 1;
    }
    proof {
        assert(ascii_lower_seq(s@).take(s@.len() as int) =~= ascii_lower_seq(s@));
    }
    r
}

/// The index of the first occurrence of `p` in `k`, if any.
pub open spec fn first_sub_at(p: Seq<char>, k: Seq<char>) -> Option<int>
    decreases k.len(),
{
    if occurs_at(p, k, 0) {
        Some(0)
    } else if k.len() == 0 {
        None
    } else {
        match first_sub_at(p, k.drop_first()) {
            Some(i) => Some(i + 1),
            None => None,
        }
    }
}

proof fn lemma_first_sub_skip(p: Seq<char>, k: Seq<char>, i: int)
    requires
        0 <= i <= k.len(),
        forall|t: int| 0 <= t < i ==> !occurs_at(p, k, t),
    ensures
        first_sub_at(p, k) == match first_sub_at(p, k.skip(i)) {
            Some(j) => Some(i + j),
            None => None::<int>,
        },
    decreases i,
{
    if i > 0 {
        assert(!occurs_at(p, k, 0));
        assert(k.len() > 0);
        assert forall|t: int| 0 <= t < i - 1 implies !occurs_at(p, k.drop_first(), t) by {
            if 0 <= t && t + p.len() <= k.drop_first().len() {
                assert(k.drop_first().subrange(t, t + p.len())
                    =~= k.subrange(t + 1, t + 1 + p.len()));
                assert(!occurs_at(p, k, t + 1));
            }
        }
        lemma_first_sub_skip(p, k.drop_first(), i - 1);
        assert(k.skip(i) =~= k.drop_first().skip(i - 1));
    } else {
        assert(k.skip(0) =~= k);
    }
}

/// A first occurrence is an occurrence.
proof fn lemma_first_sub_occurs(p: Seq<char>, k: Seq<char>)
    requires
        first_sub_at(p, k) is Some,
    ensures
        occurs_at(p, k, first_sub_at(p, k)->0),
    decreases k.len(),
{
    if occurs_at(p, k, 0) {
    } else {
        lemma_first_sub_occurs(p, k.drop_first());
        let j = first_sub_at(p, k.drop_first())->0;
        assert(k.drop_first().subrange(j, j + p.len()) =~= k.subrange(j + 1, j + 1 + p.len()));
    }
}

/// The index of the first occurrence of `pat` in `key`, if any.
fn find_first_sub(key: &str, pat: &str) -> (r: Option<usize>)
    ensures
        match r {
            Some(i) => first_sub_at(pat@, key@) == Some(i as int),
            None => first_sub_at(pat@, key@) is None,
        },
{
    let kl = key.unicode_len();
    let pl = pat.unicode_len();
    if pl == 0 {
        proof {
            assert(key@.subrange(0, 0) =~= pat@);
            assert(occurs_at(pat@, key@, 0));
        }
        return Some(0);
    }
    if pl > kl {
        proof {
            lemma_first_sub_skip(pat@, key@, key@.len() as int);
            assert(key@.skip(key@.len() as int) =~= Seq::<char>::empty());
            assert(!occurs_at(pat@, Seq::<char>::empty(), 0));
        }
        return None;
    }
    let end = kl - pl;
    let mut i: usize = 0;
    loop
        invariant
            0 < pl <= kl,
            kl == key@.len(),
            pl == pat@.len(),
            end == kl - pl,
            i <= end + 1,
            i <= kl,
            forall|t: int| 0 <= t < i ==> !occurs_at(pat@, key@, t),
        decreases end + 1 - i,
    {
        if i > end {
            proof {
                assert forall|t: int| 0 <= t implies !occurs_at(pat@, key@, t) by {
                    if t + pat@.len() <= key@.len() {
                        assert(t <= end);
                    }
                }
                lemma_first_sub_skip(pat@, key@, key@.len() as int);
                assert(key@.skip(key@.len() as int) =~= Seq::<char>::empty());
                assert(!occurs_at(pat@, Seq::<char>::empty(), 0));
            }
            return None;
        }
        if occurs_here(key, pat, i) {
            proof {
                lemma_first_sub_skip(pat@, key@, i as int);
                assert(key@.skip(i as int).subrange(0, pat@.len() as int)
                    =~= key@.subrange(i as int, i + pat@.len()));
                assert(occurs_at(pat@, key@.skip(i as int), 0));
            }
            return Some(i);
        }
        i += 1;
    }
}

/// The characters of `t` before its first double quote (all of `t` when it
/// has none).
pub open spec fn up_to_quote(t: Seq<char>) -> Seq<char>
    decreases t.len(),
{
    if t.len() == 0 {
        t
    } else if t[0] == '"' {
        Seq::empty()
    } else {
        seq![t[0]] + up_to_quote(t.drop_first())
    }
}

/// Copies the characters of `s`, starting at `from`, up to the first double
/// quote.
fn take_until_quote(s: &str, from: usize) -> (r: String)
    requires
        from <= s@.len(),
    ensures
        r@ == up_to_quote(s@.skip(from as int)),
{
    let n = s.unicode_len();
    let mut r = String::new();
    let mut i: usize = from;
    while i < n
        invariant
            from <= i <= n,
            n == s@.len(),
            r@ + up_to_quote(s@.skip(i as int)) == up_to_quote(s@.skip(from as int)),
        decreases n - i,
    {
        let c = s.get_char(i);
        if c == '"' {
            proof {
                assert(up_to_quote(s@.skip(i as int)) =~= Seq::<char>::empty());
                assert(r@ =~= r@ + up_to_quote(s@.skip(i as int)));
            }
            return r;
        }
        let ghost pre = r@;
        r.push(c);
        proof {
            assert(s@.skip(i as int).drop_first() =~= s@.skip(i + 1));
            assert(up_to_quote(s@.skip(i as int))
                == seq![s@[i as int]] + up_to_quote(s@.skip(i + 1)));
            assert(pre.push(c) + up_to_quote(s@.skip(i + 1))
                =~= pre + up_to_quote(s@.skip(i as int)));
        }
        i += 1;
    }
    proof {
        assert(s@.skip(n as int) =~= Seq::<char>::empty());
        assert(r@ =~= r@ + up_to_quote(s@.skip(n as int)));
    }
    r
}

/// The raw expiry text of a (lowered) restore header: the characters after
/// the first `expiry-date="` marker, up to the next double quote.
pub open spec fn expiry_segment(v: Seq<char>) -> Option<Seq<char>> {
    match first_sub_at("expiry-date=\""@, v) {
        Some(i) => Some(up_to_quote(v.skip(i + "expiry-date=\""@.len()))),
        None => None,
    }
}

/// Extracts the raw expiry text, if the header carries one.
fn extract_expiry(v: &str) -> (r: Option<String>)
    ensures
        match r {
            Some(out) => expiry_segment(v@) matches Some(seg) && out@ == seg,
            None => expiry_segment(v@) is None,
        },
{
    let marker = "expiry-date=\"";
    let n = v.unicode_len();
    match find_first_sub(v, marker) {
        Some(i) => {
            let ml = marker.unicode_len();
            proof {
                lemma_first_sub_occurs(marker@, v@);
                assert(i + ml <= n);
            }
            Some(take_until_quote(v, i + ml))
        }
        None => None,
    }
}

/// What chrono's RFC 2822 parser yields for this text, rendered as an RFC
/// 3339 UTC timestamp; absent when the text does not parse as a date.
pub uninterp spec fn rfc2822_to_rfc3339_utc(s: Seq<char>) -> Option<Seq<char>>;

/// Relies on chrono's `DateTime::parse_from_rfc2822`, `with_timezone`
/// (to UTC) and `to_rfc3339`: whether the text parses, and the rendered
/// timestamp, depend on the text alone.
#[verifier::external_body]
fn rfc2822_to_utc_iso(s: &str) -> (r: Option<String>)
    ensures
        r is Some <==> rfc2822_to_rfc3339_utc(s@) is Some,
        r matches Some(out) ==> out@ == rfc2822_to_rfc3339_utc(s@)->0,
{
    chrono::DateTime::parse_from_rfc2822(s)
        .ok()
        .map(|dt| dt.with_timezone(&chrono::Utc).to_rfc3339())
}

/// The state a (lowered) restore header describes. Checked in this order:
/// an ongoing request; an expiry date (restoring until then when the
/// timestamp parses, otherwise plainly available); a finished request; and
/// failing all of those, an expired restore.
pub open spec fn restore_header_describes(v: Seq<char>, st: RestoreState) -> bool {
    if has_substring("ongoing-request=\"true\""@, v) {
        st == (RestoreState::InProgress { expiry: None })
    } else if expiry_segment(v) is Some {
        match rfc2822_to_rfc3339_utc(expiry_segment(v)->0) {
            Some(iso) => st matches RestoreState::InProgress { expiry: Some(e) } && e@ == iso,
            None => st is Available,
        }
    } else if has_substring("ongoing-request=\"false\""@, v) {
        st is Available
    } else {
        st is Expired
    }
}

/// Parses the remote store's restore header: `None` input (no header) means
/// the restore state is unknown; otherwise the header, lowered, is read as
/// `restore_header_describes` says.
pub fn parse_restore_state(raw: Option<&str>) -> (r: Option<RestoreState>)
    ensures
        match raw {
            None => r is None,
            Some(h) => match r {
                Some(st) => restore_header_describes(ascii_lower_seq(h@), st),
                None => false,
            },
        },
{
    let value = match raw {
        Some(h) => h,
        None => {
            return None;
        }
    };
    let v = ascii_lowercase_str(value);
    if str_contains_sub(v.as_str(), "ongoing-request=\"true\"") {
        return Some(RestoreState::InProgress { expiry: None });
    }
    match extract_expiry(v.as_str()) {
        Some(seg) => {
            match rfc2822_to_utc_iso(seg.as_str()) {
                Some(iso) => Some(RestoreState::InProgress { expiry: Some(iso) }),
                None => Some(RestoreState::Available),
            }
        }
        None => {
            if str_contains_sub(v.as_str(), "ongoing-request=\"false\"") {
                Some(RestoreState::Available)
            } else {
                Some(RestoreState::Expired)
            }
        }
    }
}

} // verus!
