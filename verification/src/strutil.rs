//! Small string helpers shared by the parsing modules: character
//! classification, buffer-to-string conversion and prefix tests.

use vstd::assert_by_contradiction;
use vstd::prelude::*;

verus! {

/// Unicode white space: the characters with the `White_Space` property,
/// the separators recognised by the command splitter.
pub open spec fn is_space(c: char) -> bool {
    let u = c as u32;
    u == 0x9 || u == 0xA || u == 0xB || u == 0xC || u == 0xD || u == 0x20 || u == 0x85
        || u == 0xA0 || u == 0x1680 || (0x2000 <= u && u <= 0x200A) || u == 0x2028 || u == 0x2029
        || u == 0x202F || u == 0x205F || u == 0x3000
}

/// Executable test for [`is_space`].
pub fn is_space_char(c: char) -> (r: bool)
    ensures
        r == is_space(c),
{
    let u = c as u32;
    u == 0x9 || u == 0xA || u == 0xB || u == 0xC || u == 0xD || u == 0x20 || u == 0x85
        || u == 0xA0 || u == 0x1680 || (0x2000 <= u && u <= 0x200A) || u == 0x2028 || u == 0x2029
        || u == 0x202F || u == 0x205F || u == 0x3000
}

/// The character-level contents of a string-valued map.
pub open spec fn map_view(m: Map<Seq<char>, String>) -> Map<Seq<char>, Seq<char>> {
    m.map_values(|v: String| v@)
}

/// Inserting into a string-valued map inserts the characters of the value
/// into its character-level contents.
pub proof fn lemma_map_view_insert(m: Map<Seq<char>, String>, k: Seq<char>, v: String)
    ensures
        map_view(m.insert(k, v)) =~= map_view(m).insert(k, v@),
{
}

/// The character-level contents of a sequence of strings.
pub open spec fn strings_view(ts: Seq<String>) -> Seq<Seq<char>> {
    Seq::new(ts.len(), |i: int| ts[i]@)
}

/// Relies on std's `FromIterator<char> for String`: collecting a sequence of
/// characters yields a string with exactly those characters, in order.
#[verifier::external_body]
pub(crate) fn string_from_chars(v: &Vec<char>) -> (r: String)
    ensures
        r@ == v@,
{
    v.iter().collect()
}

/// Appends every character of `s` to `out`.
pub(crate) fn push_str_chars(out: &mut Vec<char>, s: &str)
    ensures
        final(out)@ == old(out)@ + s@,
{
    let n = s.unicode_len();
    let mut j: usize = 0;
    while j < n
        invariant
            n == s@.len(),
            j <= n,
            out@ == old(out)@ + s@.take(j as int),
        decreases n - j,
    {
        out.push(s.get_char(j));
        j = j + 1;
        proof {
            assert(s@.take(j as int) =~= s@.take(j as int - 1).push(s@[j as int - 1]));
        }
    }
    proof {
        assert(s@.take(n as int) =~= s@);
    }
}

/// Whether `p` begins with `prefix`.
pub open spec fn starts_with_spec(p: Seq<char>, prefix: Seq<char>) -> bool {
    p.len() >= prefix.len() && p.subrange(0, prefix.len() as int) == prefix
}

/// Executable test for [`starts_with_spec`].
pub fn str_starts_with(s: &str, prefix: &str) -> (r: bool)
    ensures
        r == starts_with_spec(s@, prefix@),
{
    let n = s.unicode_len();
    let m = prefix.unicode_len();
    if n < m {
        proof {
            assert(!starts_with_spec(s@, prefix@));
        }
        return false;
    }
    let mut j: usize = 0;
    while j < m
        invariant
            n == s@.len(),
            m == prefix@.len(),
            m <= n,
            j <= m,
            forall|i: int| 0 <= i < j ==> s@[i] == prefix@[i],
        decreases m - j,
    {
        if s.get_char(j) != prefix.get_char(j) {
            proof {
                assert(s@.subrange(0, m as int)[j as int] != prefix@[j as int]);
            }
            return false;
        }
        j = j + 1;
    }
    proof {
        assert(s@.subrange(0, m as int) =~= prefix@);
    }
    true
}

/// Whether `needle` occurs contiguously anywhere in `p`.
pub open spec fn contains_spec(p: Seq<char>, needle: Seq<char>) -> bool {
    exists|k: int|
        0 <= k <= p.len() - needle.len() && #[trigger] p.subrange(k, k + needle.len() as int)
            == needle
}

/// Whether `needle` stands at position `k` of `s`.
fn match_at(s: &str, k: usize, needle: &str) -> (r: bool)
    requires
        k + needle@.len() <= s@.len(),
    ensures
        r == (s@.subrange(k as int, k as int + needle@.len() as int) == needle@),
{
    let n = s.unicode_len();
    let m = needle.unicode_len();
    let mut j: usize = 0;
    while j < m
        invariant
            n == s@.len(),
            m == needle@.len(),
            k + m <= n,
            j <= m,
            forall|i: int| 0 <= i < j ==> s@[k + i] == needle@[i],
        decreases m - j,
    {
        if s.get_char(k + j) != needle.get_char(j) {
            proof {
                assert(s@.subrange(k as int, k as int + m as int)[j as int] != needle@[j as int]);
            }
            return false;
        }
        j = j + 1;
    }
    proof {
        assert(s@.subrange(k as int, k as int + m as int) =~= needle@);
    }
    true
}

/// Executable test for [`contains_spec`].
pub fn str_contains(s: &str, needle: &str) -> (r: bool)
    ensures
        r == contains_spec(s@, needle@),
{
    let n = s.unicode_len();
    let m = needle.unicode_len();
    if m > n {
        return false;
    }
    if m == 0 {
        proof {
            assert(contains_spec(s@, needle@)) by {
                assert(s@.subrange(0, 0 + needle@.len() as int) =~= needle@);
            }
        }
        return true;
    }
    let mut k: usize = 0;
    while k <= n - m
        invariant
            n == s@.len(),
            m == needle@.len(),
            0 < m <= n,
            k <= n - m + 1,
            forall|k2: int|
                0 <= k2 < k ==> #[trigger] s@.subrange(k2, k2 + m as int) != needle@,
        decreases n - k,
    {
        if match_at(s, k, needle) {
            proof {
                assert(s@.subrange(k as int, k as int + m as int) == needle@);
            }
            return true;
        }
        k = k + 1;
    }
    proof {
        assert_by_contradiction!(!contains_spec(s@, needle@), {
            let k2 = choose|k2: int|
                0 <= k2 <= s@.len() - needle@.len() && #[trigger] s@.subrange(
                    k2,
                    k2 + needle@.len() as int,
                ) == needle@;
            assert(s@.subrange(k2, k2 + m as int) != needle@);
        });
    }
    false
}

/// `s` without leading white space.
pub open spec fn trim_start_spec(s: Seq<char>) -> Seq<char>
    decreases s.len(),
{
    if s.len() > 0 && is_space(s[0]) {
        trim_start_spec(s.skip(1))
    } else {
        s
    }
}

/// `s` without trailing white space.
pub open spec fn trim_end_spec(s: Seq<char>) -> Seq<char>
    decreases s.len(),
{
    if s.len() > 0 && is_space(s.last()) {
        trim_end_spec(s.drop_last())
    } else {
        s
    }
}

/// `s` without leading and trailing white space.
pub open spec fn trim_spec(s: Seq<char>) -> Seq<char> {
    trim_end_spec(trim_start_spec(s))
}

/// Executable trimming: [`trim_spec`].
pub fn str_trim(s: &str) -> (r: String)
    ensures
        r@ == trim_spec(s@),
{
    let n = s.unicode_len();
    let mut a: usize = 0;
    proof {
        assert(s@.skip(0) =~= s@);
    }
    while a < n && is_space_char(s.get_char(a))
        invariant
            n == s@.len(),
            a <= n,
            trim_start_spec(s@.skip(a as int)) == trim_start_spec(s@),
        decreases n - a,
    {
        proof {
            assert(s@.skip(a as int)[0] == s@[a as int]);
            assert(s@.skip(a as int).skip(1) =~= s@.skip(a as int + 1));
        }
        a = a + 1;
    }
    proof {
        if a < n {
            assert(s@.skip(a as int)[0] == s@[a as int]);
        }
        assert(trim_start_spec(s@) == s@.skip(a as int));
    }
    let ghost t = s@.skip(a as int);
    let mut b: usize = n;
    proof {
        assert(t.take(n as int - a as int) =~= t);
    }
    while b > a && is_space_char(s.get_char(b - 1))
        invariant
            n == s@.len(),
            a <= b <= n,
            t == s@.skip(a as int),
            trim_end_spec(t.take(b as int - a as int)) == trim_end_spec(t),
        decreases b,
    {
        proof {
            assert(t.take(b as int - a as int).last() == s@[b as int - 1]);
            assert(t.take(b as int - a as int).drop_last() =~= t.take(b as int - 1 - a as int));
        }
        b = b - 1;
    }
    proof {
        if b > a {
            assert(t.take(b as int - a as int).last() == s@[b as int - 1]);
        }
        assert(trim_end_spec(t) == t.take(b as int - a as int));
    }
    let mut out: Vec<char> = Vec::new();
    let mut j: usize = a;
    while j < b
        invariant
            n == s@.len(),
            a <= j <= b <= n,
            out@ == s@.subrange(a as int, j as int),
        decreases b - j,
    {
        out.push(s.get_char(j));
        j = j + 1;
        proof {
            assert(s@.subrange(a as int, j as int) =~= s@.subrange(a as int, j as int - 1).push(
                s@[j as int - 1],
            ));
        }
    }
    proof {
        assert(s@.subrange(a as int, b as int) =~= t.take(b as int - a as int));
    }
    string_from_chars(&out)
}

/// Splitting at the first occurrence of `sep`: the part before and the part
/// after, or nothing when `sep` does not occur.
pub open spec fn split_once_spec(s: Seq<char>, sep: char) -> Option<(Seq<char>, Seq<char>)>
    decreases s.len(),
{
    if s.len() == 0 {
        None
    } else if s[0] == sep {
        Some((Seq::<char>::empty(), s.skip(1)))
    } else {
        match split_once_spec(s.skip(1), sep) {
            None => None,
            Some(parts) => Some((seq![s[0]] + parts.0, parts.1)),
        }
    }
}

/// When `sep` first occurs at position `j`, splitting once cuts there.
proof fn lemma_split_once_found(s: Seq<char>, sep: char, j: int)
    requires
        0 <= j < s.len(),
        s[j] == sep,
        forall|i: int| 0 <= i < j ==> s[i] != sep,
    ensures
        split_once_spec(s, sep) == Some((s.take(j), s.skip(j + 1))),
    decreases j,
{
    if j == 0 {
        assert(s.take(0) =~= Seq::<char>::empty());
    } else {
        assert(s[0] != sep);
        assert(s.skip(1)[j - 1] == s[j]);
        assert forall|i: int| 0 <= i < j - 1 implies s.skip(1)[i] != sep by {
            assert(s.skip(1)[i] == s[i + 1]);
        }
        lemma_split_once_found(s.skip(1), sep, j - 1);
        assert(seq![s[0]] + s.skip(1).take(j - 1) =~= s.take(j));
        assert(s.skip(1).skip(j) =~= s.skip(j + 1));
    }
}

/// When `sep` does not occur, splitting once yields nothing.
proof fn lemma_split_once_none(s: Seq<char>, sep: char)
    requires
        forall|i: int| 0 <= i < s.len() ==> s[i] != sep,
    ensures
        split_once_spec(s, sep) is None,
    decreases s.len(),
{
    if s.len() > 0 {
        assert forall|i: int| 0 <= i < s.skip(1).len() implies s.skip(1)[i] != sep by {
            assert(s.skip(1)[i] == s[i + 1]);
        }
        lemma_split_once_none(s.skip(1), sep);
    }
}

/// Executable splitting at the first occurrence of `sep`:
/// [`split_once_spec`].
pub fn split_once_char(s: &str, sep: char) -> (r: Option<(String, String)>)
    ensures
        (match r {
            Some(parts) => split_once_spec(s@, sep) == Some((parts.0@, parts.1@)),
            None => split_once_spec(s@, sep) is None,
        }),
{
    let n = s.unicode_len();
    let mut j: usize = 0;
    while j < n
        invariant
            n == s@.len(),
            j <= n,
            forall|i: int| 0 <= i < j ==> s@[i] != sep,
        decreases n - j,
    {
        if s.get_char(j) == sep {
            let mut before: Vec<char> = Vec::new();
            let mut a: usize = 0;
            while a < j
                invariant
                    n == s@.len(),
                    j < n,
                    a <= j,
                    before@ == s@.subrange(0, a as int),
                decreases j - a,
            {
                before.push(s.get_char(a));
                a = a + 1;
                proof {
                    assert(s@.subrange(0, a as int) =~= s@.subrange(0, a as int - 1).push(
                        s@[a as int - 1],
                    ));
                }
            }
            let mut after: Vec<char> = Vec::new();
            let mut b: usize = j + 1;
            while b < n
                invariant
                    n == s@.len(),
                    j < n,
                    j + 1 <= b <= n,
                    after@ == s@.subrange(j as int + 1, b as int),
                decreases n - b,
            {
                after.push(s.get_char(b));
                b = b + 1;
                proof {
                    assert(s@.subrange(j as int + 1, b as int) =~= s@.subrange(
                        j as int + 1,
                        b as int - 1,
                    ).push(s@[b as int - 1]));
                }
            }
            proof {
                lemma_split_once_found(s@, sep, j as int);
                assert(before@ =~= s@.take(j as int));
                assert(after@ =~= s@.skip(j as int + 1));
            }
            return Some((string_from_chars(&before), string_from_chars(&after)));
        }
        j = j + 1;
    }
    proof {
        lemma_split_once_none(s@, sep);
    }
    None
}

} // verus!
