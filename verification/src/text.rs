//! Character-level helpers: conversions between strings and character
//! vectors, field and line splitting, trimming and substring search.
//!
//! Whitespace, throughout this library, is the six-character ASCII
//! whitespace set of [`is_space`] — a deliberate restriction.  The
//! kernel tables and process texts parsed here separate columns with
//! plain spaces; a character outside this set, a Unicode space
//! included, is field text, never a separator.

use vstd::prelude::*;
use vstd::string::StrSliceExecFns;
use vstd::string::StringExecFns;

verus! {

/// A separator character between fields: exactly the ASCII whitespace
/// set — space, tab, line feed, carriage return, vertical tab and form
/// feed.  Characters outside it, Unicode spaces included, count as
/// field text; [`split_fields`] and [`trim_spec`] inherit this set.
pub open spec fn is_space(c: char) -> bool {
    c == ' ' || c == '\t' || c == '\n' || c == '\r' || c == '\u{b}' || c == '\u{c}'
}

/// Executable test for [`is_space`].
pub fn space_char(c: char) -> (r: bool)
    ensures
        r == is_space(c),
{
    c == ' ' || c == '\t' || c == '\n' || c == '\r' || c == '\u{b}' || c == '\u{c}'
}

/// The characters of a string, in order.
pub fn chars_of(s: &str) -> (r: Vec<char>)
    ensures
        r@ == s@,
{
    let n = s.unicode_len();
    let mut r: Vec<char> = Vec::new();
    let mut i: usize = 0;
    while i < n
        invariant
            n == s@.len(),
            i <= n,
            r@ == s@.subrange(0, i as int),
        decreases n - i,
    {
        r.push(s.get_char(i));
        assert(r@ =~= s@.subrange(0, i + 1 as int));
        i += 1;
    }
    assert(r@ =~= s@);
    r
}

/// Relies on String::push: appends the given character to the end of the string.
#[verifier::external_body]
fn push_char(s: &mut String, c: char)
    ensures
        final(s)@ == old(s)@.push(c),
{
    s.push(c)
}

/// A `String` holding exactly the given characters.
pub fn string_from_chars(v: &Vec<char>) -> (r: String)
    ensures
        r@ == v@,
{
    let mut r = String::new();
    let mut i: usize = 0;
    while i < v.len()
        invariant
            i <= v.len(),
            r@ == v@.subrange(0, i as int),
        decreases v.len() - i,
    {
        push_char(&mut r, v[i]);
        assert(r@ =~= v@.subrange(0, i + 1 as int));
        i += 1;
    }
    assert(r@ =~= v@);
    r
}

/// Equality of a character vector with a string, character by character.
pub fn eq_str(v: &Vec<char>, s: &str) -> (r: bool)
    ensures
        r == (v@ == s@),
{
    let n = s.unicode_len();
    if v.len() != n {
        assert(v@ != s@) by {
            assert(v@.len() != s@.len());
        }
        return false;
    }
    let mut i: usize = 0;
    while i < n
        invariant
            n == s@.len(),
            v@.len() == n,
            i <= n,
            forall|k: int| 0 <= k < i ==> v@[k] == s@[k],
        decreases n - i,
    {
        if v[i] != s.get_char(i) {
            assert(v@ != s@);
            return false;
        }
        i += 1;
    }
    assert(v@ =~= s@);
    true
}

/// The characters of `v` from `from` (inclusive) to `to` (exclusive).
pub fn sub_chars(v: &Vec<char>, from: usize, to: usize) -> (r: Vec<char>)
    requires
        from <= to <= v@.len(),
    ensures
        r@ == v@.subrange(from as int, to as int),
{
    let mut r: Vec<char> = Vec::new();
    let mut i: usize = from;
    while i < to
        invariant
            from <= i <= to <= v@.len(),
            r@ == v@.subrange(from as int, i as int),
        decreases to - i,
    {
        r.push(v[i]);
        assert(r@ =~= v@.subrange(from as int, i + 1 as int));
        i += 1;
    }
    r
}

/// The fields of `s` from position `i` on, given the characters of the
/// field currently being read: maximal runs of non-whitespace characters.
pub open spec fn fields_acc(s: Seq<char>, i: int, cur: Seq<char>) -> Seq<Seq<char>>
    decreases s.len() - i,
{
    if i < 0 || i >= s.len() {
        if cur.len() == 0 {
            Seq::empty()
        } else {
            seq![cur]
        }
    } else if is_space(s[i]) {
        if cur.len() == 0 {
            fields_acc(s, i + 1, Seq::empty())
        } else {
            seq![cur] + fields_acc(s, i + 1, Seq::empty())
        }
    } else {
        fields_acc(s, i + 1, cur.push(s[i]))
    }
}

/// The whitespace-delimited fields of `s`.
pub open spec fn split_fields(s: Seq<char>) -> Seq<Seq<char>> {
    fields_acc(s, 0, Seq::empty())
}

/// The views of a sequence of character vectors.
pub open spec fn views_of(q: Seq<Vec<char>>) -> Seq<Seq<char>> {
    q.map_values(|v: Vec<char>| v@)
}

/// Splits `v` into its whitespace-delimited fields.
pub fn split_fields_exec(v: &Vec<char>) -> (r: Vec<Vec<char>>)
    ensures
        views_of(r@) == split_fields(v@),
{
    let mut out: Vec<Vec<char>> = Vec::new();
    let mut cur: Vec<char> = Vec::new();
    let mut i: usize = 0;
    while i < v.len()
        invariant
            i <= v.len(),
            split_fields(v@) == views_of(out@) + fields_acc(v@, i as int, cur@),
        decreases v.len() - i,
    {
        let c = v[i];
        if space_char(c) {
            if cur.len() == 0 {
                proof {
                    assert(cur@ =~= Seq::<char>::empty());
                }
            } else {
                let done = cur;
                cur = Vec::new();
                out.push(done);
                assert(views_of(out@) =~= views_of(out@.drop_last()) + seq![done@]);
                assert(views_of(out@) + fields_acc(v@, i + 1 as int, cur@) =~= views_of(
                    out@.drop_last(),
                ) + (seq![done@] + fields_acc(v@, i + 1 as int, Seq::empty())));
            }
        } else {
            cur.push(c);
        }
        i += 1;
    }
    if cur.len() > 0 {
        let done = cur;
        out.push(done);
        assert(views_of(out@) =~= views_of(out@.drop_last()) + seq![done@]);
    }
    assert(views_of(out@) =~= views_of(out@) + Seq::<Seq<char>>::empty());
    out
}

/// One trailing carriage return removed, as the line splitter does.
pub open spec fn strip_cr(t: Seq<char>) -> Seq<char> {
    if t.len() > 0 && t[t.len() - 1] == '\r' {
        t.drop_last()
    } else {
        t
    }
}

/// The lines of `s` from position `i` on, given the characters read of the
/// current line: pieces separated by `'\n'`, each with one trailing `'\r'`
/// removed, and no empty piece after a final newline.
pub open spec fn lines_acc(s: Seq<char>, i: int, cur: Seq<char>) -> Seq<Seq<char>>
    decreases s.len() - i,
{
    if i < 0 || i >= s.len() {
        if cur.len() == 0 {
            Seq::empty()
        } else {
            seq![cur]
        }
    } else if s[i] == '\n' {
        seq![strip_cr(cur)] + lines_acc(s, i + 1, Seq::empty())
    } else {
        lines_acc(s, i + 1, cur.push(s[i]))
    }
}

/// The lines of `s`.
pub open spec fn split_lines(s: Seq<char>) -> Seq<Seq<char>> {
    lines_acc(s, 0, Seq::empty())
}

/// Splits `v` into its lines.
pub fn split_lines_exec(v: &Vec<char>) -> (r: Vec<Vec<char>>)
    ensures
        views_of(r@) == split_lines(v@),
{
    let mut out: Vec<Vec<char>> = Vec::new();
    let mut cur: Vec<char> = Vec::new();
    let mut i: usize = 0;
    while i < v.len()
        invariant
            i <= v.len(),
            split_lines(v@) == views_of(out@) + lines_acc(v@, i as int, cur@),
        decreases v.len() - i,
    {
        let c = v[i];
        if c == '\n' {
            let mut done = cur;
            cur = Vec::new();
            let ghost raw = done@;
            if done.len() > 0 && done[done.len() - 1] == '\r' {
                done.pop();
            }
            assert(done@ == strip_cr(raw));
            out.push(done);
            assert(views_of(out@) =~= views_of(out@.drop_last()) + seq![done@]);
            assert(views_of(out@) + lines_acc(v@, i + 1 as int, cur@) =~= views_of(
                out@.drop_last(),
            ) + (seq![done@] + lines_acc(v@, i + 1 as int, Seq::empty())));
        } else {
            cur.push(c);
        }
        i += 1;
    }
    if cur.len() > 0 {
        let done = cur;
        out.push(done);
        assert(views_of(out@) =~= views_of(out@.drop_last()) + seq![done@]);
    }
    assert(views_of(out@) =~= views_of(out@) + Seq::<Seq<char>>::empty());
    out
}

/// The first position at or after `i` that does not hold whitespace.
pub open spec fn trim_start_idx(s: Seq<char>, i: int) -> int
    decreases s.len() - i,
{
    if 0 <= i < s.len() && is_space(s[i]) {
        trim_start_idx(s, i + 1)
    } else {
        i
    }
}

/// The position after the last character before `j` that is not whitespace.
pub open spec fn trim_end_idx(s: Seq<char>, j: int) -> int
    decreases j,
{
    if 0 < j <= s.len() && is_space(s[j - 1]) {
        trim_end_idx(s, j - 1)
    } else {
        j
    }
}

/// `s` without leading and trailing whitespace.
pub open spec fn trim_spec(s: Seq<char>) -> Seq<char> {
    let a = trim_start_idx(s, 0);
    let b = trim_end_idx(s, s.len() as int);
    if a <= b {
        s.subrange(a, b)
    } else {
        Seq::empty()
    }
}

pub proof fn lemma_trim_end_le(s: Seq<char>, j: int)
    ensures
        trim_end_idx(s, j) <= j,
    decreases j,
{
    if 0 < j <= s.len() && is_space(s[j - 1]) {
        lemma_trim_end_le(s, j - 1);
    }
}

/// Removes leading and trailing whitespace.
pub fn trim_chars(v: &Vec<char>) -> (r: Vec<char>)
    ensures
        r@ == trim_spec(v@),
{
    let mut a: usize = 0;
    while a < v.len() && space_char(v[a])
        invariant
            0 <= a <= v@.len(),
            trim_start_idx(v@, 0) == trim_start_idx(v@, a as int),
            forall|k: int| 0 <= k < a ==> is_space(v@[k]),
        decreases v.len() - a,
    {
        a += 1;
    }
    assert(trim_start_idx(v@, 0) == a);
    if a == v.len() {
        proof {
            if v@.len() > 0 {
                lemma_trim_end_le(v@, v@.len() - 1);
                assert(is_space(v@[v@.len() - 1]));
                assert(trim_end_idx(v@, v@.len() as int) <= v@.len() - 1);
            }
            assert(trim_spec(v@) =~= Seq::<char>::empty());
        }
        return Vec::new();
    }
    let mut b: usize = v.len();
    while b > a && space_char(v[b - 1])
        invariant
            a < b <= v@.len(),
            a < v@.len(),
            !is_space(v@[a as int]),
            trim_end_idx(v@, v@.len() as int) == trim_end_idx(v@, b as int),
        decreases b,
    {
        proof {
            if b - 1 == a {
                assert(false);
            }
        }
        b -= 1;
    }
    assert(trim_end_idx(v@, v@.len() as int) == b);
    sub_chars(v, a, b)
}

/// Every NUL character replaced by a space.
pub open spec fn replace_nul(s: Seq<char>) -> Seq<char> {
    s.map_values(|c: char| if c == '\0' { ' ' } else { c })
}

/// Replaces every NUL character by a space.
pub fn replace_nul_exec(v: &Vec<char>) -> (r: Vec<char>)
    ensures
        r@ == replace_nul(v@),
{
    let mut r: Vec<char> = Vec::new();
    let mut i: usize = 0;
    while i < v.len()
        invariant
            i <= v@.len(),
            r@ == replace_nul(v@).subrange(0, i as int),
        decreases v.len() - i,
    {
        let c = v[i];
        if c == '\0' {
            r.push(' ');
        } else {
            r.push(c);
        }
        assert(r@ =~= replace_nul(v@).subrange(0, i + 1 as int));
        i += 1;
    }
    assert(r@ =~= replace_nul(v@));
    r
}

/// How often `c` occurs in `s`.
pub open spec fn count_char(s: Seq<char>, c: char) -> nat
    decreases s.len(),
{
    if s.len() == 0 {
        0
    } else {
        count_char(s.drop_last(), c) + if s.last() == c {
            1nat
        } else {
            0nat
        }
    }
}

pub proof fn lemma_count_one(s: Seq<char>, c: char, k: int)
    requires
        0 <= k < s.len(),
        s[k] == c,
    ensures
        count_char(s, c) >= 1,
    decreases s.len(),
{
    if k < s.len() - 1 {
        lemma_count_one(s.drop_last(), c, k);
    }
}

pub proof fn lemma_count_two(s: Seq<char>, c: char, k1: int, k2: int)
    requires
        0 <= k1 < k2 < s.len(),
        s[k1] == c,
        s[k2] == c,
    ensures
        count_char(s, c) >= 2,
    decreases s.len(),
{
    if k2 == s.len() - 1 {
        lemma_count_one(s.drop_last(), c, k1);
    } else {
        lemma_count_two(s.drop_last(), c, k1, k2);
    }
}

/// Whether `n` occurs in `h` as a contiguous run of characters.
pub open spec fn contains_seq(h: Seq<char>, n: Seq<char>) -> bool {
    exists|i: int| 0 <= i <= h.len() - n.len() && #[trigger] h.subrange(i, i + n.len()) == n
}

fn match_at(h: &str, n: &str, i: usize) -> (r: bool)
    requires
        i + n@.len() <= h@.len(),
    ensures
        r == (h@.subrange(i as int, i as int + n@.len() as int) == n@),
{
    let hn = h.unicode_len();
    let nn = n.unicode_len();
    let mut j: usize = 0;
    while j < nn
        invariant
            hn == h@.len(),
            nn == n@.len(),
            i + nn <= h@.len(),
            j <= nn,
            forall|k: int| 0 <= k < j ==> h@[i + k] == n@[k],
        decreases nn - j,
    {
        if h.get_char(i + j) != n.get_char(j) {
            assert(h@.subrange(i as int, i as int + n@.len() as int)[j as int] != n@[j as int]);
            return false;
        }
        j += 1;
    }
    assert(h@.subrange(i as int, i as int + n@.len() as int) =~= n@);
    true
}

/// Substring search, the library's own: no step of it is taken on trust.
pub fn contains_str(h: &str, n: &str) -> (r: bool)
    ensures
        r == contains_seq(h@, n@),
{
    let hn = h.unicode_len();
    let nn = n.unicode_len();
    if nn > hn {
        assert(!contains_seq(h@, n@));
        return false;
    }
    if nn == 0 {
        assert(h@.subrange(0, 0 + n@.len() as int) =~= n@);
        assert(contains_seq(h@, n@));
        return true;
    }
    let mut i: usize = 0;
    while i <= hn - nn
        invariant
            hn == h@.len(),
            nn == n@.len(),
            0 < nn <= hn,
            i <= hn - nn + 1,
            forall|k: int|
                0 <= k < i ==> #[trigger] h@.subrange(k, k + n@.len() as int) != n@,
        decreases hn - nn - i + 1,
    {
        if match_at(h, n, i) {
            assert(contains_seq(h@, n@));
            return true;
        }
        i += 1;
    }
    assert(!contains_seq(h@, n@));
    false
}

} // verus!
