use vstd::prelude::*;
use vstd::utf8::is_ascii_chars;

verus! {

/// What `str::to_lowercase` gives for a string (Unicode lowercase mapping).
pub uninterp spec fn lowercased(s: Seq<char>) -> Seq<char>;

/// A character with the Unicode `White_Space` property.
pub open spec fn is_white_space(c: char) -> bool {
    ||| ('\u{9}' <= c && c <= '\u{d}')
    ||| c == ' '
    ||| c == '\u{85}'
    ||| c == '\u{a0}'
    ||| c == '\u{1680}'
    ||| ('\u{2000}' <= c && c <= '\u{200a}')
    ||| c == '\u{2028}'
    ||| c == '\u{2029}'
    ||| c == '\u{202f}'
    ||| c == '\u{205f}'
    ||| c == '\u{3000}'
}

/// `s` without its leading white space.
pub open spec fn without_leading_white_space(s: Seq<char>) -> Seq<char>
    decreases s.len(),
{
    if s.len() > 0 && is_white_space(s[0]) {
        without_leading_white_space(s.skip(1))
    } else {
        s
    }
}

/// `s` without its trailing white space.
pub open spec fn without_trailing_white_space(s: Seq<char>) -> Seq<char>
    decreases s.len(),
{
    if s.len() > 0 && is_white_space(s.last()) {
        without_trailing_white_space(s.drop_last())
    } else {
        s
    }
}

/// `s` without leading and trailing white space.
pub open spec fn trimmed(s: Seq<char>) -> Seq<char> {
    without_trailing_white_space(without_leading_white_space(s))
}

/// ASCII lowercase of one character: `A`..=`Z` become `a`..=`z`, every other
/// character stays.
pub open spec fn ascii_lower_char(c: char) -> char {
    if 'A' <= c && c <= 'Z' {
        ((c as u32) + 32) as char
    } else {
        c
    }
}

/// ASCII lowercase of a string, character by character.
pub open spec fn ascii_lowercase(s: Seq<char>) -> Seq<char> {
    s.map_values(|c: char| ascii_lower_char(c))
}

/// `s` with every trailing `.` removed.
pub open spec fn without_trailing_dots(s: Seq<char>) -> Seq<char>
    decreases s.len(),
{
    if s.len() > 0 && s.last() == '.' {
        without_trailing_dots(s.drop_last())
    } else {
        s
    }
}

/// Calls `str::to_lowercase`. Its result is named `lowercased`; on an ASCII
/// string the Unicode lowercase mapping is the ASCII one (`A`..=`Z` to
/// `a`..=`z`, every other ASCII character unchanged), and the contract says
/// so. Nothing is said of non-ASCII input beyond the name.
#[verifier::external_body]
pub(crate) fn to_lowercase(s: &str) -> (r: String)
    ensures
        r@ == lowercased(s@),
        is_ascii_chars(s@) ==> r@ == ascii_lowercase(s@),
{
    s.to_lowercase()
}

/// Whether `c` has the Unicode `White_Space` property.
pub fn is_white_space_char(c: char) -> (r: bool)
    ensures
        r == is_white_space(c),
{
    ('\u{9}' <= c && c <= '\u{d}') || c == ' ' || c == '\u{85}' || c == '\u{a0}' || c == '\u{1680}'
        || ('\u{2000}' <= c && c <= '\u{200a}') || c == '\u{2028}' || c == '\u{2029}' || c
        == '\u{202f}' || c == '\u{205f}' || c == '\u{3000}'
}

/// `s` without leading and trailing white space, as `str::trim` gives it.
pub fn trim(s: &str) -> (r: &str)
    ensures
        r@ == trimmed(s@),
{
    let cs = chars_of(s);
    let n = cs.len();
    let mut a: usize = 0;
    assert(s@.skip(0) =~= s@);
    while a < n && is_white_space_char(cs[a])
        invariant
            cs@ == s@,
            n == cs@.len(),
            a <= n,
            without_leading_white_space(s@) == without_leading_white_space(s@.skip(a as int)),
        decreases n - a,
    {
        assert(s@.skip(a as int).skip(1) =~= s@.skip(a + 1));
        a = a + 1;
    }
    let ghost lead = s@.skip(a as int);
    assert(without_leading_white_space(lead) == lead);
    let mut b: usize = n;
    assert(s@.subrange(a as int, n as int) =~= lead);
    while b > a && is_white_space_char(cs[b - 1])
        invariant
            cs@ == s@,
            n == cs@.len(),
            a <= b <= n,
            without_trailing_white_space(lead) == without_trailing_white_space(
                s@.subrange(a as int, b as int),
            ),
        decreases b,
    {
        assert(s@.subrange(a as int, b as int).drop_last() =~= s@.subrange(a as int, b - 1));
        b = b - 1;
    }
    let r = s.substring_char(a, b);
    proof {
        let sub = s@.subrange(a as int, b as int);
        if sub.len() > 0 {
            assert(sub.last() == s@[b - 1]);
        }
        assert(without_trailing_white_space(sub) == sub);
        assert(r@ =~= sub);
    }
    r
}

/// ASCII text stays ASCII when leading white space is removed.
pub proof fn lemma_ascii_without_leading_white_space(s: Seq<char>)
    requires
        is_ascii_chars(s),
    ensures
        is_ascii_chars(without_leading_white_space(s)),
    decreases s.len(),
{
    if s.len() > 0 && is_white_space(s[0]) {
        assert(forall|i: int| 0 <= i < s.skip(1).len() ==> s.skip(1)[i] == s[i + 1]);
        lemma_ascii_without_leading_white_space(s.skip(1));
    }
}

/// ASCII text stays ASCII when trailing white space is removed.
pub proof fn lemma_ascii_without_trailing_white_space(s: Seq<char>)
    requires
        is_ascii_chars(s),
    ensures
        is_ascii_chars(without_trailing_white_space(s)),
    decreases s.len(),
{
    if s.len() > 0 && is_white_space(s.last()) {
        assert(forall|i: int| 0 <= i < s.drop_last().len() ==> s.drop_last()[i] == s[i]);
        lemma_ascii_without_trailing_white_space(s.drop_last());
    }
}

/// ASCII text stays ASCII when trailing dots are removed.
pub proof fn lemma_ascii_without_trailing_dots(s: Seq<char>)
    requires
        is_ascii_chars(s),
    ensures
        is_ascii_chars(without_trailing_dots(s)),
    decreases s.len(),
{
    if s.len() > 0 && s.last() == '.' {
        assert(forall|i: int| 0 <= i < s.drop_last().len() ==> s.drop_last()[i] == s[i]);
        lemma_ascii_without_trailing_dots(s.drop_last());
    }
}

/// The characters of `s`, in order.
pub fn chars_of(s: &str) -> (out: Vec<char>)
    ensures
        out@ == s@,
{
    let mut out: Vec<char> = Vec::new();
    for c in it: s.chars()
        invariant
            it.seq() == s@,
            out@ == it.seq().take(it.index() as int),
    {
        out.push(c);
    }
    out
}

/// Whether two strings hold the same characters.
pub fn same_text(a: &str, b: &str) -> (r: bool)
    ensures
        r == (a@ == b@),
{
    let ca = chars_of(a);
    let cb = chars_of(b);
    if ca.len() != cb.len() {
        return false;
    }
    let n = ca.len();
    let mut i: usize = 0;
    while i < n
        invariant
            ca@ == a@,
            cb@ == b@,
            n == ca@.len(),
            n == cb@.len(),
            i <= n,
            forall|j: int| 0 <= j < i ==> ca@[j] == cb@[j],
        decreases n - i,
    {
        if ca[i] != cb[i] {
            return false;
        }
        i = i + 1;
    }
    assert(ca@ =~= cb@);
    true
}

proof fn lemma_trailing_dots_of_prefix(s: Seq<char>, k: int)
    requires
        0 <= k <= s.len(),
        forall|j: int| k <= j < s.len() ==> s[j] == '.',
    ensures
        without_trailing_dots(s) == without_trailing_dots(s.take(k)),
    decreases s.len() - k,
{
    if k < s.len() {
        assert(s.drop_last() =~= s.take(s.len() - 1));
        lemma_trailing_dots_of_prefix(s.drop_last(), k);
        assert(s.drop_last().take(k) =~= s.take(k));
    } else {
        assert(s.take(k) =~= s);
    }
}

/// `s` with every trailing `.` removed, as `str::trim_end_matches('.')` does.
pub fn trim_trailing_dots(s: &str) -> (r: &str)
    ensures
        r@ == without_trailing_dots(s@),
        r@ == s@.take(r@.len() as int),
        forall|i: int| r@.len() <= i < s@.len() ==> s@[i] == '.',
        r@.len() == 0 || r@.last() != '.',
{
    let cs = chars_of(s);
    let mut k: usize = cs.len();
    while k > 0 && cs[k - 1] == '.'
        invariant
            k <= cs@.len(),
            cs@ == s@,
            forall|j: int| k <= j < cs@.len() ==> cs@[j] == '.',
        decreases k,
    {
        k = k - 1;
    }
    proof {
        lemma_trailing_dots_of_prefix(s@, k as int);
        let p = s@.take(k as int);
        if p.len() > 0 {
            assert(p.last() == s@[k - 1]);
        }
    }
    let r = s.substring_char(0, k);
    assert(r@ =~= s@.take(k as int));
    proof {
        law_trailing_dots_only_are_removed(s@);
    }
    r
}

/// Where the trailing dots of `s` begin.
proof fn lemma_trailing_dots_cut(s: Seq<char>) -> (k: int)
    ensures
        0 <= k <= s.len(),
        without_trailing_dots(s) == s.take(k),
        forall|i: int| k <= i < s.len() ==> s[i] == '.',
        k == 0 || s[k - 1] != '.',
    decreases s.len(),
{
    if s.len() > 0 && s.last() == '.' {
        let k = lemma_trailing_dots_cut(s.drop_last());
        assert(s.drop_last().take(k) =~= s.take(k));
        assert forall|i: int| k <= i < s.len() implies s[i] == '.' by {
            if i < s.len() - 1 {
                assert(s[i] == s.drop_last()[i]);
            }
        }
        if k > 0 {
            assert(s[k - 1] == s.drop_last()[k - 1]);
        }
        k
    } else {
        assert(s.take(s.len() as int) =~= s);
        s.len() as int
    }
}

/// Removing trailing dots removes those and nothing else: the result is a
/// prefix of `s` that does not end in `.`, and every character of `s` after
/// it is a `.`.
pub proof fn law_trailing_dots_only_are_removed(s: Seq<char>)
    ensures
        without_trailing_dots(s).len() <= s.len(),
        without_trailing_dots(s) == s.take(without_trailing_dots(s).len() as int),
        forall|i: int| without_trailing_dots(s).len() <= i < s.len() ==> s[i] == '.',
        without_trailing_dots(s).len() == 0 || without_trailing_dots(s).last() != '.',
{
    let k = lemma_trailing_dots_cut(s);
    assert(without_trailing_dots(s).len() == k);
    if k > 0 {
        assert(without_trailing_dots(s).last() == s[k - 1]);
    }
}

/// Where the leading white space of `s` ends.
proof fn lemma_leading_white_space_cut(s: Seq<char>) -> (a: int)
    ensures
        0 <= a <= s.len(),
        without_leading_white_space(s) == s.skip(a),
        forall|i: int| 0 <= i < a ==> is_white_space(s[i]),
        a == s.len() || !is_white_space(s[a]),
    decreases s.len(),
{
    if s.len() > 0 && is_white_space(s[0]) {
        let a = lemma_leading_white_space_cut(s.skip(1));
        assert(s.skip(1).skip(a) =~= s.skip(a + 1));
        assert forall|i: int| 0 <= i < a + 1 implies is_white_space(s[i]) by {
            if i > 0 {
                assert(s[i] == s.skip(1)[i - 1]);
            }
        }
        if a + 1 < s.len() {
            assert(s[a + 1] == s.skip(1)[a]);
        }
        a + 1
    } else {
        assert(s.skip(0) =~= s);
        0
    }
}

/// Where the trailing white space of `s` begins.
proof fn lemma_trailing_white_space_cut(s: Seq<char>) -> (b: int)
    ensures
        0 <= b <= s.len(),
        without_trailing_white_space(s) == s.take(b),
        forall|i: int| b <= i < s.len() ==> is_white_space(s[i]),
        b == 0 || !is_white_space(s[b - 1]),
    decreases s.len(),
{
    if s.len() > 0 && is_white_space(s.last()) {
        let b = lemma_trailing_white_space_cut(s.drop_last());
        assert(s.drop_last().take(b) =~= s.take(b));
        assert forall|i: int| b <= i < s.len() implies is_white_space(s[i]) by {
            if i < s.len() - 1 {
                assert(s[i] == s.drop_last()[i]);
            }
        }
        if b > 0 {
            assert(s[b - 1] == s.drop_last()[b - 1]);
        }
        b
    } else {
        assert(s.take(s.len() as int) =~= s);
        s.len() as int
    }
}

/// Trimming removes white space at both ends and nothing else: the result is
/// the part of `s` between a run of leading and a run of trailing white
/// space, and when it is not empty it neither begins nor ends with white
/// space.
pub proof fn law_trim_removes_only_outer_white_space(s: Seq<char>)
    ensures
        exists|a: int, b: int|
            {
                &&& 0 <= a <= b <= s.len()
                &&& trimmed(s) == s.subrange(a, b)
                &&& forall|i: int| 0 <= i < a ==> is_white_space(#[trigger] s[i])
                &&& forall|i: int| b <= i < s.len() ==> is_white_space(#[trigger] s[i])
                &&& a < b ==> !is_white_space(s[a]) && !is_white_space(s[b - 1])
            },
{
    let a = lemma_leading_white_space_cut(s);
    let lead = s.skip(a);
    let c = lemma_trailing_white_space_cut(lead);
    let b = a + c;
    assert(lead.take(c) =~= s.subrange(a, b));
    assert forall|i: int| b <= i < s.len() implies is_white_space(#[trigger] s[i]) by {
        assert(s[i] == lead[i - a]);
    }
    if a < b {
        assert(s[a] == lead[0]);
        assert(s[b - 1] == lead[c - 1]);
    }
}

/// ASCII lowercase changes exactly the capital letters `A`..=`Z`, each to
/// the small letter 32 code points above it, and leaves every other
/// character as it is; it keeps the length of a string.
pub proof fn law_ascii_lowercase_changes_only_capitals(s: Seq<char>, c: char)
    ensures
        'A' <= c <= 'Z' ==> ascii_lower_char(c) as u32 == c as u32 + 32,
        !('A' <= c <= 'Z') ==> ascii_lower_char(c) == c,
        ascii_lowercase(s).len() == s.len(),
        forall|i: int| 0 <= i < s.len() ==> #[trigger] ascii_lowercase(s)[i] == ascii_lower_char(s[i]),
{
}

/// Among ASCII characters, white space is exactly tab, line feed, vertical
/// tab, form feed, carriage return and space; letters, digits, `.`, `-` and
/// `#` are never white space.
pub proof fn law_ascii_white_space(c: char)
    ensures
        c <= '\u{7f}' ==> (is_white_space(c) <==> (c == '\t' || c == '\n' || c == '\u{b}' || c
            == '\u{c}' || c == '\r' || c == ' ')),
{
}

} // verus!
