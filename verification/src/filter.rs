use vstd::prelude::*;
use vstd::hash_set::StringHashSet;
use vstd::utf8::is_ascii_chars;

use crate::text::{
    ascii_lower_char, ascii_lowercase, chars_of, lemma_ascii_without_leading_white_space,
    lemma_ascii_without_trailing_dots, lemma_ascii_without_trailing_white_space, lowercased,
    to_lowercase, trim, trim_trailing_dots, trimmed, without_leading_white_space,
    without_trailing_dots,
};

verus! {

broadcast use vstd::hash_set::group_hash_set_axioms;

/// `k` is where a label of `name` begins: the start of the name, or just
/// after a `.` (the end of a name that ends in `.` counts too).
pub open spec fn label_start(name: Seq<char>, k: int) -> bool {
    &&& 0 <= k <= name.len()
    &&& (k == 0 || name[k - 1] == '.')
}

/// A name is caught by a set of blocked domains when the name itself, or the
/// part of it after some `.`, is in the set.
pub open spec fn caught_by(blocked: Set<Seq<char>>, name: Seq<char>) -> bool {
    exists|k: int| label_start(name, k) && #[trigger] blocked.contains(name.skip(k))
}

/// The entry that one line of a blocklist file contributes: none for a blank
/// line or a `#` comment; otherwise the trimmed line without its trailing
/// dots, in lowercase.
pub open spec fn entry_of_line(line: Seq<char>) -> Option<Seq<char>> {
    let t = trimmed(line);
    if t.len() == 0 || t[0] == '#' {
        None
    } else {
        Some(lowercased(without_trailing_dots(t)))
    }
}

/// The entry of a line, with ASCII lowercase in place of Unicode lowercase;
/// for an ASCII line it is the entry the line contributes.
pub open spec fn ascii_entry_of_line(line: Seq<char>) -> Option<Seq<char>> {
    let t = trimmed(line);
    if t.len() == 0 || t[0] == '#' {
        None
    } else {
        Some(ascii_lowercase(without_trailing_dots(t)))
    }
}

/// Every line of the list is ASCII text.
pub open spec fn all_ascii(lines: Seq<String>) -> bool {
    forall|i: int| 0 <= i < lines.len() ==> is_ascii_chars(#[trigger] lines[i]@)
}

/// A set of blocked domains. A domain is blocked when it, or one of its
/// parent domains, is in the set; the comparison ignores case.
pub struct Filter {
    blocked: StringHashSet,
}

impl View for Filter {
    type V = Set<Seq<char>>;

    closed spec fn view(&self) -> Set<Seq<char>> {
        self.blocked@
    }
}

impl Filter {
    /// A filter that blocks exactly the given domains (and their subdomains),
    /// taken as they are.
    pub fn new(domains: Vec<String>) -> (f: Filter)
        ensures
            f@.finite(),
            forall|d: Seq<char>|
                f@.contains(d) <==> exists|i: int| 0 <= i < domains@.len() && #[trigger] domains@[i]@ == d,
    {
        let mut blocked = StringHashSet::new();
        let mut i: usize = 0;
        while i < domains.len()
            invariant
                i <= domains@.len(),
                blocked@.finite(),
                forall|d: Seq<char>|
                    blocked@.contains(d) <==> exists|j: int| 0 <= j < i && #[trigger] domains@[j]@ == d,
            decreases domains@.len() - i,
        {
            let d = domains[i].clone();
            blocked.insert(d);
            proof {
                assert forall|x: Seq<char>|
                    blocked@.contains(x) <==> exists|j: int| 0 <= j < i + 1 && #[trigger] domains@[j]@ == x by {
                    if x == domains@[i as int]@ {
                        assert(domains@[i as int]@ == x);
                    }
                }
            }
            i = i + 1;
        }
        Filter { blocked }
    }

    /// The filter of a blocklist given line by line: one domain per line,
    /// blank lines and lines that start with `#` skipped.
    pub fn from_lines(lines: &Vec<String>) -> (f: Filter)
        ensures
            f@.finite(),
            forall|d: Seq<char>|
                f@.contains(d) <==> exists|i: int|
                    0 <= i < lines@.len() && #[trigger] entry_of_line(lines@[i]@) == Some(d),
            all_ascii(lines@) ==> forall|d: Seq<char>|
                f@.contains(d) <==> exists|i: int|
                    0 <= i < lines@.len() && #[trigger] ascii_entry_of_line(lines@[i]@) == Some(d),
            forall|i: int|
                0 <= i < lines@.len() && trimmed(#[trigger] lines@[i]@).len() > 0 && trimmed(
                    lines@[i]@,
                )[0] != '#' ==> f@.contains(lowercased(without_trailing_dots(trimmed(lines@[i]@)))),
            forall|i: int|
                0 <= i < lines@.len() && is_ascii_chars(#[trigger] lines@[i]@) && trimmed(
                    lines@[i]@,
                ).len() > 0 && trimmed(lines@[i]@)[0] != '#' ==> f@.contains(
                    ascii_lowercase(without_trailing_dots(trimmed(lines@[i]@))),
                ),
    {
        let mut blocked = StringHashSet::new();
        let mut i: usize = 0;
        while i < lines.len()
            invariant
                i <= lines@.len(),
                blocked@.finite(),
                forall|d: Seq<char>|
                    blocked@.contains(d) <==> exists|j: int|
                        0 <= j < i && #[trigger] entry_of_line(lines@[j]@) == Some(d),
                all_ascii(lines@) ==> forall|d: Seq<char>|
                    blocked@.contains(d) <==> exists|j: int|
                        0 <= j < i && #[trigger] ascii_entry_of_line(lines@[j]@) == Some(d),
                forall|j: int|
                    0 <= j < i && is_ascii_chars(#[trigger] lines@[j]@) ==> entry_of_line(lines@[j]@)
                        == ascii_entry_of_line(lines@[j]@),
            decreases lines@.len() - i,
        {
            let entry = blocklist_entry(lines[i].as_str());
            match entry {
                Some(e) => {
                    blocked.insert(e);
                },
                None => {},
            }
            proof {
                assert forall|x: Seq<char>|
                    blocked@.contains(x) <==> exists|j: int|
                        0 <= j < i + 1 && #[trigger] entry_of_line(lines@[j]@) == Some(x) by {
                    if entry_of_line(lines@[i as int]@) == Some(x) {
                        assert(entry_of_line(lines@[i as int]@) == Some(x));
                    }
                }
                if all_ascii(lines@) {
                    assert(is_ascii_chars(lines@[i as int]@));
                    assert forall|x: Seq<char>|
                        blocked@.contains(x) <==> exists|j: int|
                            0 <= j < i + 1 && #[trigger] ascii_entry_of_line(lines@[j]@) == Some(x) by {
                        if ascii_entry_of_line(lines@[i as int]@) == Some(x) {
                            assert(ascii_entry_of_line(lines@[i as int]@) == Some(x));
                        }
                    }
                }
            }
            i = i + 1;
        }
        proof {
            assert forall|i: int|
                0 <= i < lines@.len() && trimmed(#[trigger] lines@[i]@).len() > 0 && trimmed(
                    lines@[i]@,
                )[0] != '#' implies blocked@.contains(
                lowercased(without_trailing_dots(trimmed(lines@[i]@))),
            ) by {
                law_nonblank_line_gives_entry(lines@[i]@);
            }
            assert forall|i: int|
                0 <= i < lines@.len() && is_ascii_chars(#[trigger] lines@[i]@) && trimmed(
                    lines@[i]@,
                ).len() > 0 && trimmed(lines@[i]@)[0] != '#' implies blocked@.contains(
                ascii_lowercase(without_trailing_dots(trimmed(lines@[i]@))),
            ) by {
                law_nonblank_line_gives_entry(lines@[i]@);
                assert(entry_of_line(lines@[i]@) == ascii_entry_of_line(lines@[i]@));
            }
        }
        Filter { blocked }
    }

    /// Whether `domain` is blocked: its lowercase form, or the part of it
    /// after some `.`, is one of the filter's domains.
    pub fn is_blocked(&self, domain: &str) -> (r: bool)
        ensures
            r == caught_by(self@, lowercased(domain@)),
            is_ascii_chars(domain@) ==> r == caught_by(self@, ascii_lowercase(domain@)),
    {
        let lower = to_lowercase(domain);
        let s = lower.as_str();
        let cs = chars_of(s);
        let n = cs.len();
        let mut start: usize = 0;
        loop
            invariant
                cs@ == s@,
                s@ == lower@,
                lower@ == lowercased(domain@),
                is_ascii_chars(domain@) ==> lower@ == ascii_lowercase(domain@),
                n == cs@.len(),
                label_start(cs@, start as int),
                forall|k: int| 0 <= k < start && label_start(cs@, k) ==> !#[trigger] self@.contains(cs@.skip(k)),
            decreases n - start,
        {
            let rest = s.substring_char(start, n);
            assert(rest@ =~= cs@.skip(start as int));
            if self.blocked.contains(rest) {
                assert(self@.contains(cs@.skip(start as int)));
                return true;
            }
            let mut j: usize = start;
            while j < n && cs[j] != '.'
                invariant
                    start <= j <= n,
                    n == cs@.len(),
                    forall|i: int| start <= i < j ==> cs@[i] != '.',
                decreases n - j,
            {
                j = j + 1;
            }
            if j == n {
                assert forall|k: int| label_start(cs@, k) implies !#[trigger] self@.contains(cs@.skip(k)) by {
                    if k > start {
                        assert(cs@[k - 1] != '.');
                    }
                }
                return false;
            }
            start = j + 1;
        }
    }

    /// The number of domains in the filter.
    pub fn len(&self) -> (n: usize)
        ensures
            n == self@.len(),
    {
        self.blocked.len()
    }
}

/// A domain that is itself in the filter (in lowercase form) is blocked.
pub proof fn law_listed_domain_is_blocked(f: Filter, domain: Seq<char>)
    requires
        f@.contains(lowercased(domain)),
    ensures
        caught_by(f@, lowercased(domain)),
{
    assert(lowercased(domain).skip(0) =~= lowercased(domain));
    assert(label_start(lowercased(domain), 0));
}

/// Every subdomain of a blocked ASCII domain is blocked too: if `parent` is
/// blocked, so is `prefix.parent` for any ASCII `prefix`.
pub proof fn law_subdomain_of_blocked_is_blocked(f: Filter, prefix: Seq<char>, parent: Seq<char>)
    requires
        is_ascii_chars(prefix),
        is_ascii_chars(parent),
        caught_by(f@, ascii_lowercase(parent)),
    ensures
        caught_by(f@, ascii_lowercase(prefix + seq!['.'] + parent)),
{
    let lp = ascii_lowercase(parent);
    let name = prefix + seq!['.'] + parent;
    let ln = ascii_lowercase(name);
    let k = choose|k: int| label_start(lp, k) && #[trigger] f@.contains(lp.skip(k));
    let off = prefix.len() + 1;
    assert(ln.skip(off + k) =~= lp.skip(k));
    if k == 0 {
        assert(ln[off - 1] == ascii_lower_char(name[off - 1]));
        assert(name[off - 1] == '.');
    } else {
        assert(ln[off + k - 1] == lp[k - 1]);
    }
    assert(label_start(ln, off + k));
}

/// Blocking ignores ASCII case: an ASCII domain is blocked exactly when its
/// lowercase form is.
pub proof fn law_ascii_case_is_ignored(f: Filter, domain: Seq<char>)
    requires
        is_ascii_chars(domain),
    ensures
        is_ascii_chars(ascii_lowercase(domain)),
        ascii_lowercase(ascii_lowercase(domain)) == ascii_lowercase(domain),
        caught_by(f@, ascii_lowercase(ascii_lowercase(domain))) == caught_by(f@, ascii_lowercase(domain)),
{
    let l = ascii_lowercase(domain);
    assert forall|i: int| 0 <= i < l.len() implies '\0' <= #[trigger] l[i] <= '\u{7f}' by {
        assert('\0' <= domain[i] <= '\u{7f}');
    }
    assert(ascii_lowercase(l) =~= l);
}

/// A filter of one domain blocks exactly that domain and the names that end
/// in `.` followed by it; a name that merely ends in the same characters
/// (`notexample.com` for `example.com`) is not blocked.
pub proof fn law_single_domain_blocks_itself_and_subdomains(domain: Seq<char>, name: Seq<char>)
    ensures
        caught_by(Set::empty().insert(domain), name) <==> (name == domain || (name.len()
            > domain.len() && name[name.len() - domain.len() - 1] == '.' && name.skip(
            name.len() - domain.len(),
        ) == domain)),
{
    let s = Set::<Seq<char>>::empty().insert(domain);
    if caught_by(s, name) {
        let k = choose|k: int| label_start(name, k) && #[trigger] s.contains(name.skip(k));
        assert(name.skip(k) == domain);
        assert(name.skip(k).len() == name.len() - k);
        if k == 0 {
            assert(name =~= name.skip(0));
        } else {
            assert(k == name.len() - domain.len());
            assert(name[k - 1] == '.');
        }
        assert(name == domain || (name.len() > domain.len() && name[name.len() - domain.len() - 1]
            == '.' && name.skip(name.len() - domain.len()) == domain));
    }
    if name == domain {
        assert(name.skip(0) =~= name);
        assert(label_start(name, 0));
        assert(s.contains(name.skip(0)));
        assert(caught_by(s, name));
    }
    if name.len() > domain.len() && name[name.len() - domain.len() - 1] == '.' && name.skip(
        name.len() - domain.len(),
    ) == domain {
        assert(label_start(name, name.len() - domain.len()));
        assert(s.contains(name.skip(name.len() - domain.len())));
        assert(caught_by(s, name));
    }
}

/// Every line whose trimmed text is not empty and does not begin with `#`
/// contributes an entry: the trimmed text without trailing dots, lowercased.
pub proof fn law_nonblank_line_gives_entry(line: Seq<char>)
    requires
        trimmed(line).len() > 0,
        trimmed(line)[0] != '#',
    ensures
        entry_of_line(line) == Some(lowercased(without_trailing_dots(trimmed(line)))),
        ascii_entry_of_line(line) == Some(ascii_lowercase(without_trailing_dots(trimmed(line)))),
{
}

/// Blank lines and `#` comments contribute no entry.
pub proof fn law_blank_or_comment_line_gives_nothing(line: Seq<char>)
    requires
        trimmed(line).len() == 0 || trimmed(line)[0] == '#',
    ensures
        entry_of_line(line) is None,
        ascii_entry_of_line(line) is None,
{
}

/// An empty filter blocks nothing.
pub proof fn law_empty_filter_blocks_nothing(name: Seq<char>)
    ensures
        !caught_by(Set::empty(), name),
{
}

/// The entry that one line of a blocklist file contributes, if any.
pub fn blocklist_entry(line: &str) -> (r: Option<String>)
    ensures
        match r {
            Some(e) => entry_of_line(line@) == Some(e@),
            None => entry_of_line(line@) is None,
        },
        is_ascii_chars(line@) ==> match r {
            Some(e) => ascii_entry_of_line(line@) == Some(e@),
            None => ascii_entry_of_line(line@) is None,
        },
        r is Some <==> (trimmed(line@).len() > 0 && trimmed(line@)[0] != '#'),
        r matches Some(e) ==> e@ == lowercased(without_trailing_dots(trimmed(line@))),
{
    let t = trim(line);
    let cs = chars_of(t);
    if cs.len() == 0 || cs[0] == '#' {
        return None;
    }
    let stripped = trim_trailing_dots(t);
    proof {
        if is_ascii_chars(line@) {
            lemma_ascii_without_leading_white_space(line@);
            lemma_ascii_without_trailing_white_space(without_leading_white_space(line@));
            lemma_ascii_without_trailing_dots(t@);
        }
    }
    Some(to_lowercase(stripped))
}

} // verus!
