//! The computing parts of the operation handlers.
//!
//! The handlers themselves run external commands, fetch pages over HTTP and
//! read files; that I/O lives outside the verified library.  What is
//! verified here is everything the handlers decide by computation alone:
//! how the `env` argument is parsed into an environment map, how the
//! `headers` argument is parsed into header pairs, how the `timeout`
//! argument is read as a number, and which fetched pages count as an
//! error answer.

use vstd::prelude::*;

use crate::strutil::contains_spec;
use crate::strutil::split_once_char;
use crate::strutil::split_once_spec;
use crate::strutil::str_contains;
use crate::strutil::string_from_chars;
use crate::strutil::strings_view;

verus! {

/// Splitting at every occurrence of `sep`, with the current segment
/// accumulated in `cur`: empty segments are kept, and there is always at
/// least one segment.
pub open spec fn split_on_rec(s: Seq<char>, sep: char, cur: Seq<char>) -> Seq<Seq<char>>
    decreases s.len(),
{
    if s.len() == 0 {
        seq![cur]
    } else if s[0] == sep {
        seq![cur] + split_on_rec(s.skip(1), sep, Seq::<char>::empty())
    } else {
        split_on_rec(s.skip(1), sep, cur.push(s[0]))
    }
}

/// The segments of `s` between occurrences of `sep`, in order.
pub open spec fn split_on(s: Seq<char>, sep: char) -> Seq<Seq<char>> {
    split_on_rec(s, sep, Seq::<char>::empty())
}

/// [`split_once_spec`] applied to each comma-separated segment: every
/// segment must contain `=`; its parts become one pair.  Nothing is
/// produced when some segment has no `=`.
pub open spec fn env_pairs_rec(segs: Seq<Seq<char>>) -> Option<Seq<(Seq<char>, Seq<char>)>>
    decreases segs.len(),
{
    if segs.len() == 0 {
        Some(Seq::<(Seq<char>, Seq<char>)>::empty())
    } else {
        match split_once_spec(segs[0], '=') {
            None => None,
            Some(kv) => match env_pairs_rec(segs.skip(1)) {
                None => None,
                Some(rest) => Some(seq![kv] + rest),
            },
        }
    }
}

/// The environment entries described by `s` in `key=value,key=value`
/// format, in order, or nothing when some segment has no `=`.
pub open spec fn parse_env_spec(s: Seq<char>) -> Option<Seq<(Seq<char>, Seq<char>)>> {
    env_pairs_rec(split_on(s, ','))
}

/// The character-level contents of a sequence of string pairs.
pub open spec fn pairs_view(ps: Seq<(String, String)>) -> Seq<(Seq<char>, Seq<char>)> {
    Seq::new(ps.len(), |i: int| (ps[i].0@, ps[i].1@))
}

/// `rest` with `pre` prepended, when there is anything to prepend to.
pub open spec fn opt_prepend(
    pre: Seq<(Seq<char>, Seq<char>)>,
    rest: Option<Seq<(Seq<char>, Seq<char>)>>,
) -> Option<Seq<(Seq<char>, Seq<char>)>> {
    match rest {
        None => None,
        Some(r) => Some(pre + r),
    }
}

/// Collects the segments of `s` between occurrences of `sep`, in order,
/// empty segments included.
fn split_segments(s: &str, sep: char) -> (r: Vec<String>)
    ensures
        strings_view(r@) == split_on(s@, sep),
{
    let n = s.unicode_len();
    let mut segs: Vec<String> = Vec::new();
    let mut cur: Vec<char> = Vec::new();
    let mut i: usize = 0;
    proof {
        assert(s@.skip(0) =~= s@);
        assert(strings_view(segs@) + split_on_rec(s@, sep, cur@) =~= split_on(s@, sep));
    }
    while i < n
        invariant
            n == s@.len(),
            i <= n,
            split_on(s@, sep) == strings_view(segs@) + split_on_rec(s@.skip(i as int), sep, cur@),
        decreases n - i,
    {
        let ghost rest = s@.skip(i as int);
        let ghost old_segs = segs@;
        let ghost old_cur = cur@;
        let c = s.get_char(i);
        proof {
            assert(rest[0] == c);
            assert(rest.skip(1) =~= s@.skip(i as int + 1));
        }
        if c == sep {
            let seg = string_from_chars(&cur);
            segs.push(seg);
            cur = Vec::new();
            proof {
                assert(strings_view(segs@) =~= strings_view(old_segs) + seq![old_cur]);
                assert(strings_view(segs@) + split_on_rec(s@.skip(i as int + 1), sep, cur@)
                    =~= strings_view(old_segs) + (seq![old_cur] + split_on_rec(
                    s@.skip(i as int + 1),
                    sep,
                    Seq::<char>::empty(),
                )));
            }
        } else {
            cur.push(c);
        }
        i = i + 1;
    }
    proof {
        assert(s@.skip(n as int) =~= Seq::<char>::empty());
    }
    let ghost old_segs = segs@;
    let ghost old_cur = cur@;
    let seg = string_from_chars(&cur);
    segs.push(seg);
    proof {
        assert(strings_view(segs@) =~= strings_view(old_segs) + seq![old_cur]);
        assert(strings_view(segs@) =~= split_on(s@, sep));
    }
    segs
}

/// Parse the environment variables string in `key=value,key=value` format.
///
/// Each comma-separated segment is split at its first `=` into one
/// (name, value) pair, returned in segment order.  A segment without `=`
/// makes the whole string invalid: the name of the offending argument,
/// `env`, is returned instead.
pub fn parse_env(env: &str) -> (r: Result<Vec<(String, String)>, String>)
    ensures
        (match r {
            Ok(pairs) => parse_env_spec(env@) == Some(pairs_view(pairs@)),
            Err(e) => parse_env_spec(env@) is None && e@ == "env"@,
        }),
{
    let segs = split_segments(env, ',');
    let ghost all = strings_view(segs@);
    let mut pairs: Vec<(String, String)> = Vec::new();
    proof {
        assert(pairs_view(pairs@) =~= Seq::<(Seq<char>, Seq<char>)>::empty());
        assert(all.skip(0) =~= all);
    }
    let mut p: usize = 0;
    while p < segs.len()
        invariant
            p <= segs@.len(),
            all == strings_view(segs@),
            parse_env_spec(env@) == opt_prepend(pairs_view(pairs@), env_pairs_rec(
                all.skip(p as int),
            )),
        decreases segs@.len() - p,
    {
        let ghost rest = all.skip(p as int);
        let ghost pv = pairs_view(pairs@);
        proof {
            assert(rest[0] == segs@[p as int]@);
            assert(rest.skip(1) =~= all.skip(p as int + 1));
        }
        let seg = &segs[p];
        match split_once_char(seg.as_str(), '=') {
            Some(kv) => {
                let ghost kv_spec = (kv.0@, kv.1@);
                pairs.push(kv);
                proof {
                    assert(pairs_view(pairs@) =~= pv + seq![kv_spec]);
                    match env_pairs_rec(all.skip(p as int + 1)) {
                        None => {},
                        Some(r) => {
                            assert((pv + seq![kv_spec]) + r =~= pv + (seq![kv_spec] + r));
                        },
                    }
                }
            },
            None => {
                return Err(String::from_str("env"));
            },
        }
        p = p + 1;
    }
    proof {
        assert(all.skip(segs@.len() as int) =~= Seq::<Seq<char>>::empty());
        assert(pairs_view(pairs@) + Seq::<(Seq<char>, Seq<char>)>::empty() =~= pairs_view(
            pairs@,
        ));
    }
    Ok(pairs)
}

/// Splitting all segments agrees with splitting once: the first segment is
/// what stands before the first separator, and the remaining segments are
/// those of what stands after it.
proof fn lemma_split_on_rec_once(s: Seq<char>, sep: char, cur: Seq<char>)
    ensures
        (match split_once_spec(s, sep) {
            None => split_on_rec(s, sep, cur) == seq![cur + s],
            Some(ab) => split_on_rec(s, sep, cur) == seq![cur + ab.0] + split_on(ab.1, sep),
        }),
    decreases s.len(),
{
    if s.len() == 0 {
        assert(cur + s =~= cur);
        assert(seq![cur + s] =~= seq![cur]);
    } else if s[0] == sep {
        assert(cur + Seq::<char>::empty() =~= cur);
        assert(seq![cur + Seq::<char>::empty()] =~= seq![cur]);
    } else {
        lemma_split_on_rec_once(s.skip(1), sep, cur.push(s[0]));
        match split_once_spec(s.skip(1), sep) {
            None => {
                assert(cur.push(s[0]) + s.skip(1) =~= cur + s);
                assert(seq![cur.push(s[0]) + s.skip(1)] =~= seq![cur + s]);
            },
            Some(ab) => {
                assert(cur.push(s[0]) + ab.0 =~= cur + (seq![s[0]] + ab.0));
                assert(seq![cur.push(s[0]) + ab.0] =~= seq![cur + (seq![s[0]] + ab.0)]);
            },
        }
    }
}

/// Splitting yields at least one segment.
proof fn lemma_split_on_rec_len(s: Seq<char>, sep: char, cur: Seq<char>)
    ensures
        split_on_rec(s, sep, cur).len() >= 1,
    decreases s.len(),
{
    if s.len() == 0 {
    } else if s[0] == sep {
        lemma_split_on_rec_len(s.skip(1), sep, Seq::<char>::empty());
    } else {
        lemma_split_on_rec_len(s.skip(1), sep, cur.push(s[0]));
    }
}

/// The (name, value) pair of one header segment: the trimmed text before
/// the first `:`, and the trimmed text between the first and second `:`
/// (empty when the segment has no `:`).
pub open spec fn header_pair(seg: Seq<char>) -> (Seq<char>, Seq<char>) {
    let parts = split_on(seg, ':');
    (
        crate::strutil::trim_spec(parts[0]),
        if parts.len() > 1 {
            crate::strutil::trim_spec(parts[1])
        } else {
            Seq::<char>::empty()
        },
    )
}

/// The header pairs described by `s`: one [`header_pair`] per
/// comma-separated segment.
pub open spec fn headers_spec(s: Seq<char>) -> Seq<(Seq<char>, Seq<char>)> {
    split_on(s, ',').map_values(|seg: Seq<char>| header_pair(seg))
}

/// Parse the `headers` argument: comma-separated segments, each giving one
/// header as a name before the first `:` and a value between the first
/// and second `:`, both trimmed of surrounding white space.
pub fn parse_headers(headers: &str) -> (r: Vec<(String, String)>)
    ensures
        r@.len() == headers_spec(headers@).len(),
        forall|i: int|
            0 <= i < r@.len() ==> ((#[trigger] r@[i]).0@, r@[i].1@) == headers_spec(headers@)[i],
{
    let segs = split_segments(headers, ',');
    let ghost all = strings_view(segs@);
    let mut pairs: Vec<(String, String)> = Vec::new();
    let mut p: usize = 0;
    while p < segs.len()
        invariant
            p <= segs@.len(),
            all == strings_view(segs@),
            all == split_on(headers@, ','),
            pairs@.len() == p,
            forall|i: int|
                0 <= i < p ==> ((#[trigger] pairs@[i]).0@, pairs@[i].1@) == headers_spec(
                    headers@,
                )[i],
        decreases segs@.len() - p,
    {
        let seg = &segs[p];
        let ghost seg_spec = seg@;
        proof {
            assert(headers_spec(headers@)[p as int] == header_pair(seg_spec));
        }
        match split_once_char(seg.as_str(), ':') {
            None => {
                proof {
                    lemma_split_on_rec_once(seg_spec, ':', Seq::<char>::empty());
                    assert(Seq::<char>::empty() + seg_spec =~= seg_spec);
                    assert(seq![Seq::<char>::empty() + seg_spec] =~= seq![seg_spec]);
                    assert(split_on(seg_spec, ':') == seq![seg_spec]);
                }
                let name = crate::strutil::str_trim(seg.as_str());
                let value = String::new();
                pairs.push((name, value));
            },
            Some(parts) => {
                let (before, rest) = parts;
                proof {
                    lemma_split_on_rec_once(seg_spec, ':', Seq::<char>::empty());
                    assert(Seq::<char>::empty() + before@ =~= before@);
                    assert(seq![Seq::<char>::empty() + before@] =~= seq![before@]);
                    assert(split_on(seg_spec, ':') == seq![before@] + split_on(rest@, ':'));
                    lemma_split_on_rec_len(rest@, ':', Seq::<char>::empty());
                    assert(split_on(seg_spec, ':')[0] == before@);
                    assert(split_on(seg_spec, ':').len() > 1);
                    assert(split_on(seg_spec, ':')[1] == split_on(rest@, ':')[0]);
                }
                let name = crate::strutil::str_trim(before.as_str());
                let value = match split_once_char(rest.as_str(), ':') {
                    None => {
                        proof {
                            lemma_split_on_rec_once(rest@, ':', Seq::<char>::empty());
                            assert(Seq::<char>::empty() + rest@ =~= rest@);
                            assert(seq![Seq::<char>::empty() + rest@] =~= seq![rest@]);
                            assert(split_on(rest@, ':')[0] == rest@);
                        }
                        crate::strutil::str_trim(rest.as_str())
                    },
                    Some(second) => {
                        proof {
                            lemma_split_on_rec_once(rest@, ':', Seq::<char>::empty());
                            assert(Seq::<char>::empty() + second.0@ =~= second.0@);
                            assert(seq![Seq::<char>::empty() + second.0@] =~= seq![second.0@]);
                            assert(split_on(rest@, ':')[0] == second.0@);
                        }
                        crate::strutil::str_trim(second.0.as_str())
                    },
                };
                pairs.push((name, value));
            },
        }
        p = p + 1;
    }
    pairs
}

/// A decimal digit.
pub open spec fn is_digit(c: char) -> bool {
    48 <= c as u32 <= 57
}

/// The digit part of a decimal string: the whole string, or what follows a
/// single leading `+`.
pub open spec fn digits_of(s: Seq<char>) -> Seq<char> {
    if s.len() > 0 && s[0] == '+' {
        s.skip(1)
    } else {
        s
    }
}

/// Whether every character is a decimal digit.
pub open spec fn all_digits(s: Seq<char>) -> bool {
    forall|i: int| 0 <= i < s.len() ==> is_digit(#[trigger] s[i])
}

/// The number a sequence of decimal digits denotes.
pub open spec fn dec_value(s: Seq<char>) -> int
    decreases s.len(),
{
    if s.len() == 0 {
        0
    } else {
        dec_value(s.drop_last()) * 10 + (s.last() as u32 - 48)
    }
}

/// A string that `parse_u64` accepts: at least one digit after the
/// optional leading `+`, and nothing but digits.
pub open spec fn valid_u64_str(s: Seq<char>) -> bool {
    digits_of(s).len() > 0 && all_digits(digits_of(s))
}

/// The number a digit sequence denotes is never negative.
proof fn lemma_dec_value_nonneg(s: Seq<char>)
    requires
        all_digits(s),
    ensures
        dec_value(s) >= 0,
    decreases s.len(),
{
    if s.len() > 0 {
        assert forall|i: int| 0 <= i < s.drop_last().len() implies is_digit(
            #[trigger] s.drop_last()[i],
        ) by {
            assert(s.drop_last()[i] == s[i]);
        }
        lemma_dec_value_nonneg(s.drop_last());
        assert(is_digit(s.last()));
    }
}

/// Reading more digits never makes the number smaller.
proof fn lemma_dec_value_prefix(s: Seq<char>, j: int)
    requires
        all_digits(s),
        0 <= j <= s.len(),
    ensures
        dec_value(s) >= dec_value(s.take(j)),
    decreases s.len() - j,
{
    if j == s.len() {
        assert(s.take(j) =~= s);
    } else {
        assert forall|i: int| 0 <= i < s.take(j).len() implies is_digit(
            #[trigger] s.take(j)[i],
        ) by {
            assert(s.take(j)[i] == s[i]);
        }
        lemma_dec_value_nonneg(s.take(j));
        assert(s.take(j + 1).drop_last() =~= s.take(j));
        assert(s.take(j + 1).last() == s[j]);
        assert(is_digit(s[j]));
        assert(dec_value(s.take(j + 1)) == dec_value(s.take(j)) * 10 + (s[j] as u32 - 48));
        assert(dec_value(s.take(j + 1)) >= dec_value(s.take(j)));
        lemma_dec_value_prefix(s, j + 1);
    }
}

/// Reads a decimal `u64`, as the `timeout` arguments are read: an optional
/// leading `+`, then at least one digit, and a value that fits.
pub fn parse_u64(s: &str) -> (r: Option<u64>)
    ensures
        (match r {
            Some(v) => valid_u64_str(s@) && v as int == dec_value(digits_of(s@)),
            None => !valid_u64_str(s@) || dec_value(digits_of(s@)) > u64::MAX,
        }),
{
    let n = s.unicode_len();
    let mut start: usize = 0;
    if n > 0 && s.get_char(0) == '+' {
        start = 1;
    }
    let ghost d = digits_of(s@);
    proof {
        if start == 1 {
            assert(d =~= s@.skip(1));
        } else {
            assert(d =~= s@);
            assert(d =~= s@.skip(0));
        }
    }
    if start == n {
        return None;
    }
    let mut acc: u64 = 0;
    let mut i: usize = start;
    proof {
        assert(d.take(0) =~= Seq::<char>::empty());
    }
    while i < n
        invariant
            n == s@.len(),
            start <= i <= n,
            start <= 1,
            d == digits_of(s@),
            d == s@.skip(start as int),
            all_digits(d.take(i as int - start as int)),
            acc as int == dec_value(d.take(i as int - start as int)),
        decreases n - i,
    {
        let ghost j = i as int - start as int;
        let c = s.get_char(i);
        proof {
            assert(d[j] == s@[i as int]);
        }
        let u = c as u32;
        if u < 48 || u > 57 {
            proof {
                assert(!is_digit(d[j]));
                assert(!all_digits(d));
            }
            return None;
        }
        let digit = (u - 48) as u64;
        let with_ten = match acc.checked_mul(10) {
            Some(x) => x,
            None => {
                proof {
                    if all_digits(d) {
                        assert(d.take(j + 1).drop_last() =~= d.take(j));
                        assert(d.take(j + 1).last() == d[j]);
                        assert(dec_value(d.take(j + 1)) == acc as int * 10 + (c as u32 - 48));
                        lemma_dec_value_prefix(d, j + 1);
                    }
                }
                return None;
            },
        };
        let next = match with_ten.checked_add(digit) {
            Some(y) => y,
            None => {
                proof {
                    if all_digits(d) {
                        assert(d.take(j + 1).drop_last() =~= d.take(j));
                        assert(d.take(j + 1).last() == d[j]);
                        assert(dec_value(d.take(j + 1)) == acc as int * 10 + (c as u32 - 48));
                        lemma_dec_value_prefix(d, j + 1);
                    }
                }
                return None;
            },
        };
        acc = next;
        i = i + 1;
        proof {
            assert(d.take(j + 1).drop_last() =~= d.take(j));
            assert(d.take(j + 1).last() == d[j]);
            assert forall|i2: int| 0 <= i2 < j + 1 implies is_digit(
                #[trigger] d.take(j + 1)[i2],
            ) by {
                if i2 < j {
                    assert(d.take(j + 1)[i2] == d.take(j)[i2]);
                } else {
                    assert(d.take(j + 1)[i2] == d[j]);
                }
            }
        }
    }
    proof {
        assert(d.take(n as int - start as int) =~= d);
    }
    Some(acc)
}

/// Whether a fetched page is an error answer rather than a help page: it
/// is empty, or it carries the provider's "Unknown topic" notice, or a
/// "No manual entry" notice.
pub fn fetch_page_is_error(response: &str) -> (r: bool)
    ensures
        r == (response@.len() == 0 || contains_spec(response@, "Unknown topic"@) || contains_spec(
            response@,
            "No manual entry"@,
        )),
{
    response.unicode_len() == 0 || str_contains(response, "Unknown topic") || str_contains(
        response,
        "No manual entry",
    )
}

} // verus!
