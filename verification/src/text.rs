//! Character and substring primitives used throughout the library.

use vstd::prelude::*;

verus! {

/// ASCII lower-casing of one character; other characters are unchanged.
pub open spec fn lower_char(c: char) -> char {
    if 'A' <= c && c <= 'Z' {
        ((c as u8) + 32) as char
    } else {
        c
    }
}

/// ASCII lower-casing of a whole sequence.
pub open spec fn lower_seq(s: Seq<char>) -> Seq<char> {
    s.map_values(|c: char| lower_char(c))
}

/// Executable ASCII lower-casing of one character.
pub fn lower_char_exec(c: char) -> (r: char)
    ensures
        r == lower_char(c),
{
    if 'A' <= c && c <= 'Z' {
        (c as u8 + 32) as char
    } else {
        c
    }
}

/// The pattern `p` occurs in `s` starting at index `i`.
pub open spec fn contains_at(s: Seq<char>, i: int, p: Seq<char>) -> bool {
    0 <= i && i + p.len() <= s.len() && s.subrange(i, i + p.len() as int) == p
}

/// The pattern `p` occurs somewhere in `s`.
pub open spec fn has_sub(s: Seq<char>, p: Seq<char>) -> bool {
    exists|i: int| contains_at(s, i, p)
}

/// `i` is the first occurrence of `p` in `s`.
pub open spec fn first_occurrence(s: Seq<char>, i: int, p: Seq<char>) -> bool {
    contains_at(s, i, p) && forall|k: int| 0 <= k < i ==> !contains_at(s, k, p)
}

/// Whether the fixed-width window of `s` at `i` equals `p`, decided executably.
pub fn matches_at(s: &str, i: usize, p: &str) -> (r: bool)
    requires
        i + p@.len() <= s@.len(),
    ensures
        r == contains_at(s@, i as int, p@),
{
    let slen = s.unicode_len();
    let plen = p.unicode_len();
    let mut k: usize = 0;
    while k < plen
        invariant
            0 <= k <= plen,
            plen == p@.len(),
            slen == s@.len(),
            i + plen <= slen,
            forall|j: int| 0 <= j < k ==> s@[i + j] == p@[j],
        decreases plen - k,
    {
        if s.get_char(i + k) != p.get_char(k) {
            assert(s@.subrange(i as int, i + plen as int)[k as int] != p@[k as int]);
            return false;
        }
        k = k + 1;
    }
    assert(s@.subrange(i as int, i + plen as int) =~= p@);
    true
}

/// Find the first occurrence of `p` in `s` at or after `from`.
///
/// Returns the least index `i >= from` where `p` occurs, if any.
pub fn find_sub_from(s: &str, from: usize, p: &str) -> (r: Option<usize>)
    requires
        p@.len() >= 1,
        from <= s@.len(),
    ensures
        match r {
            Some(i) => {
                &&& from <= i
                &&& contains_at(s@, i as int, p@)
                &&& forall|k: int| from <= k < i ==> !contains_at(s@, k, p@)
            },
            None => forall|k: int| from <= k ==> !contains_at(s@, k, p@),
        },
{
    let slen = s.unicode_len();
    let plen = p.unicode_len();
    if plen > slen {
        return None;
    }
    let last = slen - plen;
    let mut i: usize = from;
    while i <= last
        invariant
            from <= i,
            plen == p@.len(),
            slen == s@.len(),
            plen >= 1,
            last == slen - plen,
            i <= slen,
            forall|k: int| from <= k < i ==> !contains_at(s@, k, p@),
        decreases slen - i,
    {
        if matches_at(s, i, p) {
            return Some(i);
        }
        i = i + 1;
    }
    assert(forall|k: int| i <= k ==> !contains_at(s@, k, p@));
    None
}

/// Find the first occurrence of `p` anywhere in `s`.
pub fn find_sub(s: &str, p: &str) -> (r: Option<usize>)
    requires
        p@.len() >= 1,
    ensures
        match r {
            Some(i) => first_occurrence(s@, i as int, p@),
            None => !has_sub(s@, p@),
        },
{
    let r = find_sub_from(s, 0, p);
    proof {
        if r is None {
            assert forall|i: int| !contains_at(s@, i, p@) by {
                if i < 0 {
                    assert(!contains_at(s@, i, p@));
                }
            }
        }
    }
    r
}

/// The whitespace characters recognised when trimming: the ASCII set.
pub open spec fn is_space(c: char) -> bool {
    c == ' ' || c == '\t' || c == '\n' || c == '\r' || c == '\u{b}' || c == '\u{c}'
}

/// Executable test for [`is_space`].
pub fn is_space_exec(c: char) -> (r: bool)
    ensures
        r == is_space(c),
{
    c == ' ' || c == '\t' || c == '\n' || c == '\r' || c == '\u{b}' || c == '\u{c}'
}

/// `s` with its leading whitespace removed.
pub open spec fn drop_leading(s: Seq<char>) -> Seq<char>
    decreases s.len(),
{
    if s.len() == 0 {
        s
    } else if is_space(s[0]) {
        drop_leading(s.drop_first())
    } else {
        s
    }
}

/// `s` with its trailing whitespace removed.
pub open spec fn drop_trailing(s: Seq<char>) -> Seq<char>
    decreases s.len(),
{
    if s.len() == 0 {
        s
    } else if is_space(s[s.len() - 1]) {
        drop_trailing(s.drop_last())
    } else {
        s
    }
}

/// `s` with leading and trailing whitespace removed.
pub open spec fn trim_spec(s: Seq<char>) -> Seq<char> {
    drop_trailing(drop_leading(s))
}

proof fn lemma_drop_leading_at(s: Seq<char>, a: int)
    requires
        0 <= a <= s.len(),
        forall|j: int| 0 <= j < a ==> is_space(s[j]),
        a < s.len() ==> !is_space(s[a]),
    ensures
        drop_leading(s) == s.subrange(a, s.len() as int),
    decreases a,
{
    if a == 0 {
        if s.len() == 0 {
            assert(drop_leading(s) =~= s.subrange(0, s.len() as int));
        } else {
            assert(drop_leading(s) =~= s.subrange(0, s.len() as int));
        }
    } else {
        assert(is_space(s[0]));
        let t = s.drop_first();
        assert(forall|j: int| 0 <= j < a - 1 ==> is_space(t[j]));
        lemma_drop_leading_at(t, a - 1);
        assert(t.subrange(a - 1, t.len() as int) =~= s.subrange(a, s.len() as int));
    }
}

proof fn lemma_drop_trailing_at(s: Seq<char>, b: int)
    requires
        0 <= b <= s.len(),
        forall|j: int| b <= j < s.len() ==> is_space(s[j]),
        b > 0 ==> !is_space(s[b - 1]),
    ensures
        drop_trailing(s) == s.subrange(0, b),
    decreases s.len() - b,
{
    if b == s.len() {
        if s.len() == 0 {
            assert(drop_trailing(s) =~= s.subrange(0, b));
        } else {
            assert(drop_trailing(s) =~= s.subrange(0, b));
        }
    } else {
        assert(is_space(s[s.len() - 1]));
        let t = s.drop_last();
        assert(forall|j: int| b <= j < t.len() ==> t[j] == s[j]);
        lemma_drop_trailing_at(t, b);
        assert(t.subrange(0, b) =~= s.subrange(0, b));
    }
}

/// No whitespace stands at either end of `s`.
pub open spec fn is_trimmed(s: Seq<char>) -> bool {
    s.len() > 0 ==> (!is_space(s[0]) && !is_space(s[s.len() - 1]))
}

proof fn lemma_drop_leading_props(s: Seq<char>)
    ensures
        drop_leading(s).len() > 0 ==> !is_space(drop_leading(s)[0]),
        drop_leading(s).len() <= s.len(),
        drop_leading(s) == s.subrange(s.len() - drop_leading(s).len(), s.len() as int),
    decreases s.len(),
{
    if s.len() == 0 {
        assert(drop_leading(s) =~= s.subrange(0, 0));
    } else if is_space(s[0]) {
        lemma_drop_leading_props(s.drop_first());
        let t = s.drop_first();
        assert(t.subrange(t.len() - drop_leading(t).len(), t.len() as int) =~= s.subrange(
            s.len() - drop_leading(s).len(),
            s.len() as int,
        ));
    } else {
        assert(drop_leading(s) =~= s.subrange(s.len() - s.len(), s.len() as int));
    }
}

proof fn lemma_drop_trailing_props(s: Seq<char>)
    ensures
        drop_trailing(s).len() > 0 ==> !is_space(drop_trailing(s)[drop_trailing(s).len() - 1]),
        drop_trailing(s).len() <= s.len(),
        drop_trailing(s) == s.subrange(0, drop_trailing(s).len() as int),
    decreases s.len(),
{
    if s.len() == 0 {
        assert(drop_trailing(s) =~= s.subrange(0, 0));
    } else if is_space(s[s.len() - 1]) {
        lemma_drop_trailing_props(s.drop_last());
        assert(s.drop_last().subrange(0, drop_trailing(s).len() as int) =~= s.subrange(
            0,
            drop_trailing(s).len() as int,
        ));
    } else {
        assert(drop_trailing(s) =~= s.subrange(0, s.len() as int));
    }
}

/// The result of a trim carries no whitespace at its ends.
pub proof fn lemma_trim_is_trimmed(s: Seq<char>)
    ensures
        is_trimmed(trim_spec(s)),
{
    lemma_drop_leading_props(s);
    lemma_drop_trailing_props(drop_leading(s));
    let u = drop_leading(s);
    let t = drop_trailing(u);
    if t.len() > 0 {
        assert(t[0] == u[0]);
    }
}

/// Trimming an already-trimmed sequence changes nothing.
pub proof fn lemma_trim_of_trimmed(s: Seq<char>)
    requires
        is_trimmed(s),
    ensures
        trim_spec(s) == s,
{
    lemma_drop_leading_at(s, 0);
    assert(drop_leading(s) =~= s);
    lemma_drop_trailing_at(s, s.len() as int);
    assert(drop_trailing(s) =~= s);
}

/// A trim of `s` is a contiguous piece of `s`.
pub proof fn lemma_trim_subrange(s: Seq<char>)
    ensures
        exists|a: int, b: int|
            0 <= a <= b <= s.len() && trim_spec(s) == #[trigger] s.subrange(a, b),
{
    lemma_drop_leading_props(s);
    lemma_drop_trailing_props(drop_leading(s));
    let u = drop_leading(s);
    let t = drop_trailing(u);
    let a = s.len() - u.len();
    assert(u.subrange(0, t.len() as int) =~= s.subrange(a, a + t.len()));
    assert(0 <= a <= a + t.len() <= s.len() && trim_spec(s) == s.subrange(a, a + t.len()));
}

/// Trimming is idempotent.
pub proof fn lemma_trim_idempotent(s: Seq<char>)
    ensures
        trim_spec(trim_spec(s)) == trim_spec(s),
{
    lemma_trim_is_trimmed(s);
    lemma_trim_of_trimmed(trim_spec(s));
}

/// Remove leading and trailing whitespace from `s`.
pub fn trim(s: &str) -> (r: String)
    ensures
        r@ == trim_spec(s@),
{
    let len = s.unicode_len();
    let mut a: usize = 0;
    while a < len && is_space_exec(s.get_char(a))
        invariant
            0 <= a <= len,
            len == s@.len(),
            forall|j: int| 0 <= j < a ==> is_space(s@[j]),
        decreases len - a,
    {
        a = a + 1;
    }
    let mut b: usize = len;
    while b > a && is_space_exec(s.get_char(b - 1))
        invariant
            a <= b <= len,
            len == s@.len(),
            forall|j: int| 0 <= j < a ==> is_space(s@[j]),
            a < len ==> !is_space(s@[a as int]),
            forall|j: int| b <= j < len ==> is_space(s@[j]),
        decreases b,
    {
        b = b - 1;
    }
    proof {
        lemma_drop_leading_at(s@, a as int);
        let u = s@.subrange(a as int, len as int);
        if b == a {
            lemma_drop_trailing_at(u, 0);
        } else {
            assert(forall|j: int| b - a <= j < u.len() ==> is_space(u[j]));
            assert(!is_space(u[b - a - 1]));
            lemma_drop_trailing_at(u, b - a);
        }
        assert(u.subrange(0, b - a) =~= s@.subrange(a as int, b as int));
    }
    let piece = s.substring_char(a, b);
    piece.to_owned()
}

/// The lines of `s`, split on `'\n'`. A text of n newlines has n + 1 lines;
/// in particular the empty text has one empty line.
pub open spec fn lines_of(s: Seq<char>) -> Seq<Seq<char>>
    decreases s.len(),
{
    if s.len() == 0 {
        seq![Seq::<char>::empty()]
    } else if s[0] == '\n' {
        seq![Seq::<char>::empty()] + lines_of(s.drop_first())
    } else {
        let rest = lines_of(s.drop_first());
        seq![seq![s[0]] + rest[0]] + rest.skip(1)
    }
}

/// Every text has at least one line.
pub proof fn lemma_lines_nonempty(s: Seq<char>)
    ensures
        lines_of(s).len() >= 1,
    decreases s.len(),
{
    if s.len() > 0 {
        lemma_lines_nonempty(s.drop_first());
    }
}

/// Splitting at the first newline: the part before it is the first line and
/// the rest splits on its own. With no newline, the whole text is one line.
pub proof fn lemma_lines_of_split(s: Seq<char>, i: int)
    requires
        0 <= i <= s.len(),
        forall|j: int| 0 <= j < i ==> s[j] != '\n',
        i < s.len() ==> s[i] == '\n',
    ensures
        i == s.len() ==> lines_of(s) == seq![s],
        i < s.len() ==> lines_of(s) == seq![s.subrange(0, i)] + lines_of(
            s.subrange(i + 1, s.len() as int),
        ),
    decreases s.len(),
{
    if s.len() == 0 {
        assert(lines_of(s) =~~= seq![s]);
    } else if i == 0 {
        if i < s.len() {
            assert(s[0] == '\n');
            assert(s.drop_first() =~= s.subrange(1, s.len() as int));
            assert(s.subrange(0, 0) =~= Seq::<char>::empty());
            assert(lines_of(s) =~~= seq![s.subrange(0, 0)] + lines_of(
                s.subrange(1, s.len() as int),
            ));
        }
    } else {
        let t = s.drop_first();
        assert(forall|j: int| 0 <= j < i - 1 ==> t[j] != '\n');
        lemma_lines_of_split(t, i - 1);
        lemma_lines_nonempty(t);
        let rest = lines_of(t);
        if i == s.len() {
            assert(rest == seq![t]);
            assert(rest[0] == t);
            assert(seq![s[0]] + t =~= s);
            assert(rest.skip(1) =~= Seq::<Seq<char>>::empty());
            assert(lines_of(s) =~~= seq![s]);
        } else {
            let head = t.subrange(0, i - 1);
            let tail = t.subrange(i as int, t.len() as int);
            assert(rest == seq![head] + lines_of(tail));
            assert(rest[0] == head);
            assert(seq![s[0]] + head =~= s.subrange(0, i));
            assert(rest.skip(1) =~= lines_of(tail));
            assert(tail =~= s.subrange(i + 1, s.len() as int));
            assert(lines_of(s) =~~= seq![s.subrange(0, i)] + lines_of(
                s.subrange(i + 1, s.len() as int),
            ));
        }
    }
}

/// A one-character pattern occurs at `i` exactly when that character stands there.
pub proof fn lemma_contains_at_single(s: Seq<char>, i: int, p: Seq<char>)
    requires
        p.len() == 1,
    ensures
        contains_at(s, i, p) <==> (0 <= i < s.len() && s[i] == p[0]),
{
    if 0 <= i && i + 1 <= s.len() {
        if s.subrange(i, i + 1) == p {
            assert(s.subrange(i, i + 1)[0] == s[i]);
        }
        if s[i] == p[0] {
            assert(s.subrange(i, i + 1) =~= p);
        }
    }
}

/// Find the first `'\n'` at or after `from`.
fn find_newline(s: &str, from: usize) -> (r: Option<usize>)
    requires
        from <= s@.len(),
    ensures
        match r {
            Some(i) => {
                &&& from <= i < s@.len()
                &&& s@[i as int] == '\n'
                &&& forall|k: int| from <= k < i ==> s@[k] != '\n'
            },
            None => forall|k: int| from <= k < s@.len() ==> s@[k] != '\n',
        },
{
    let nl = "\n";
    proof {
        reveal_strlit("\n");
    }
    let r = find_sub_from(s, from, nl);
    proof {
        match r {
            Some(i) => {
                lemma_contains_at_single(s@, i as int, nl@);
                assert forall|k: int| from <= k < i implies s@[k] != '\n' by {
                    lemma_contains_at_single(s@, k, nl@);
                }
            },
            None => {
                assert forall|k: int| from <= k < s@.len() implies s@[k] != '\n' by {
                    lemma_contains_at_single(s@, k, nl@);
                }
            },
        }
    }
    r
}

/// The lines of the suffix of `s` that starts at `start`.
fn split_lines_from(s: &str, start: usize) -> (v: Vec<String>)
    requires
        start <= s@.len(),
    ensures
        v@.map_values(|t: String| t@) == lines_of(s@.subrange(start as int, s@.len() as int)),
    decreases s@.len() - start,
{
    let len = s.unicode_len();
    let ghost suffix = s@.subrange(start as int, s@.len() as int);
    match find_newline(s, start) {
        None => {
            let line = s.substring_char(start, len).to_owned();
            let v = vec![line];
            proof {
                lemma_lines_of_split(suffix, suffix.len() as int);
                assert(v@.map_values(|t: String| t@) =~= seq![suffix]);
            }
            v
        },
        Some(i) => {
            let line = s.substring_char(start, i).to_owned();
            let mut rest = split_lines_from(s, i + 1);
            let mut v = vec![line];
            v.append(&mut rest);
            proof {
                let k = i - start;
                assert(forall|j: int| 0 <= j < k ==> suffix[j] != '\n');
                assert(suffix[k as int] == '\n');
                lemma_lines_of_split(suffix, k as int);
                assert(suffix.subrange(0, k as int) =~= s@.subrange(start as int, i as int));
                assert(suffix.subrange(k + 1, suffix.len() as int) =~= s@.subrange(
                    i + 1,
                    s@.len() as int,
                ));
                assert(v@.map_values(|t: String| t@) =~= seq![s@.subrange(start as int, i as int)]
                    + lines_of(s@.subrange(i + 1, s@.len() as int)));
            }
            v
        },
    }
}

/// Split `s` into its lines.
pub fn split_lines(s: &str) -> (v: Vec<String>)
    ensures
        v@.map_values(|t: String| t@) == lines_of(s@),
{
    let v = split_lines_from(s, 0);
    proof {
        assert(s@.subrange(0, s@.len() as int) =~= s@);
    }
    v
}

/// Some line of `s` is longer than `limit` characters.
pub open spec fn has_long_line(s: Seq<char>, limit: nat) -> bool {
    exists|j: int| 0 <= j < lines_of(s).len() && #[trigger] lines_of(s)[j].len() > limit
}

/// Decide whether any line of `s` exceeds `limit` characters.
pub fn any_line_longer_than(s: &str, limit: usize) -> (r: bool)
    ensures
        r == has_long_line(s@, limit as nat),
{
    let lines = split_lines(s);
    let ghost ls = lines_of(s@);
    let n = lines.len();
    let mut j: usize = 0;
    while j < n
        invariant
            0 <= j <= n,
            n == lines@.len(),
            ls == lines_of(s@),
            lines@.map_values(|t: String| t@) == ls,
            forall|k: int| 0 <= k < j ==> #[trigger] ls[k].len() <= limit,
        decreases n - j,
    {
        if lines[j].as_str().unicode_len() > limit {
            proof {
                assert(ls.len() == lines@.len());
                assert(ls[j as int] == lines@.map_values(|t: String| t@)[j as int]);
                assert(lines_of(s@)[j as int].len() > limit);
            }
            return true;
        }
        j = j + 1;
    }
    false
}

/// `p` is a suffix of `s`.
pub open spec fn ends_with(s: Seq<char>, p: Seq<char>) -> bool {
    p.len() <= s.len() && s.skip(s.len() - p.len()) == p
}

/// Character-wise string equality.
pub fn str_eq(a: &str, b: &str) -> (r: bool)
    ensures
        r == (a@ == b@),
{
    let alen = a.unicode_len();
    let blen = b.unicode_len();
    if alen != blen {
        return false;
    }
    let r = matches_at(a, 0, b);
    proof {
        if contains_at(a@, 0, b@) {
            assert(a@.subrange(0, blen as int) =~= a@);
        }
        if a@ == b@ {
            assert(a@.subrange(0, blen as int) =~= b@);
        }
    }
    r
}

/// Whether `s` ends with `p`, compared exactly.
pub fn ends_with_exec(s: &str, p: &str) -> (r: bool)
    ensures
        r == ends_with(s@, p@),
{
    let slen = s.unicode_len();
    let plen = p.unicode_len();
    if plen > slen {
        return false;
    }
    let r = matches_at(s, slen - plen, p);
    proof {
        if contains_at(s@, slen - plen, p@) {
            assert(s@.subrange(slen - plen, slen as int) =~= s@.skip(slen - plen));
        }
        if ends_with(s@, p@) {
            assert(s@.skip(slen - plen) =~= s@.subrange(slen - plen, slen as int));
        }
    }
    r
}

/// Whether the window of `s` at `i`, lower-cased, equals `p`.
pub fn matches_at_ci(s: &str, i: usize, p: &str) -> (r: bool)
    requires
        i + p@.len() <= s@.len(),
    ensures
        r == contains_at(lower_seq(s@), i as int, p@),
{
    let slen = s.unicode_len();
    let plen = p.unicode_len();
    let mut k: usize = 0;
    while k < plen
        invariant
            0 <= k <= plen,
            plen == p@.len(),
            slen == s@.len(),
            i + plen <= slen,
            forall|j: int| 0 <= j < k ==> lower_seq(s@)[i + j] == p@[j],
        decreases plen - k,
    {
        if lower_char_exec(s.get_char(i + k)) != p.get_char(k) {
            assert(lower_seq(s@)[i + k] != p@[k as int]);
            assert(lower_seq(s@).subrange(i as int, i + plen as int)[k as int] != p@[k as int]);
            return false;
        }
        k = k + 1;
    }
    assert(lower_seq(s@).subrange(i as int, i + plen as int) =~= p@);
    true
}

/// Find the first occurrence of `p` in the ASCII lower-casing of `s` at
/// or after `from`. `p` itself is expected already in lower case.
pub fn find_ci_from(s: &str, from: usize, p: &str) -> (r: Option<usize>)
    requires
        p@.len() >= 1,
        from <= s@.len(),
    ensures
        match r {
            Some(i) => {
                &&& from <= i
                &&& contains_at(lower_seq(s@), i as int, p@)
                &&& forall|k: int| from <= k < i ==> !contains_at(lower_seq(s@), k, p@)
            },
            None => forall|k: int| from <= k ==> !contains_at(lower_seq(s@), k, p@),
        },
{
    let slen = s.unicode_len();
    let plen = p.unicode_len();
    if plen > slen {
        return None;
    }
    let last = slen - plen;
    let mut i: usize = from;
    while i <= last
        invariant
            from <= i,
            plen == p@.len(),
            slen == s@.len(),
            plen >= 1,
            plen <= slen,
            last == slen - plen,
            i <= slen,
            forall|k: int| from <= k < i ==> !contains_at(lower_seq(s@), k, p@),
        decreases slen - i,
    {
        if matches_at_ci(s, i, p) {
            return Some(i);
        }
        i = i + 1;
    }
    assert(forall|k: int| i <= k ==> !contains_at(lower_seq(s@), k, p@));
    None
}

/// Whether `p` occurs in the ASCII lower-casing of `s`. `p` itself is
/// expected already in lower case.
pub fn contains_ci(s: &str, p: &str) -> (r: bool)
    requires
        p@.len() >= 1,
    ensures
        r == has_sub(lower_seq(s@), p@),
{
    let slen = s.unicode_len();
    let plen = p.unicode_len();
    if plen > slen {
        proof {
            assert forall|k: int| !contains_at(lower_seq(s@), k, p@) by {}
        }
        return false;
    }
    let last = slen - plen;
    let mut i: usize = 0;
    while i <= last
        invariant
            plen == p@.len(),
            slen == s@.len(),
            plen >= 1,
            plen <= slen,
            last == slen - plen,
            i <= slen,
            forall|k: int| 0 <= k < i ==> !contains_at(lower_seq(s@), k, p@),
        decreases slen - i,
    {
        if matches_at_ci(s, i, p) {
            return true;
        }
        i = i + 1;
    }
    proof {
        assert forall|k: int| !contains_at(lower_seq(s@), k, p@) by {}
    }
    false
}

/// Whether the ASCII lower-casing of `s` ends with `p`. `p` itself is
/// expected already in lower case.
pub fn ends_with_ci(s: &str, p: &str) -> (r: bool)
    ensures
        r == ends_with(lower_seq(s@), p@),
{
    let slen = s.unicode_len();
    let plen = p.unicode_len();
    if plen > slen {
        return false;
    }
    let r = matches_at_ci(s, slen - plen, p);
    proof {
        if contains_at(lower_seq(s@), slen - plen, p@) {
            assert(lower_seq(s@).subrange(slen - plen, slen as int) =~= lower_seq(s@).skip(
                slen - plen,
            ));
        }
        if ends_with(lower_seq(s@), p@) {
            assert(lower_seq(s@).skip(slen - plen) =~= lower_seq(s@).subrange(
                slen - plen,
                slen as int,
            ));
        }
    }
    r
}

/// The first line of `s`: everything before the first `'\n'`.
pub fn first_line(s: &str) -> (r: String)
    ensures
        r@ == lines_of(s@)[0],
{
    match find_newline(s, 0) {
        Some(i) => {
            proof {
                lemma_lines_of_split(s@, i as int);
            }
            s.substring_char(0, i).to_owned()
        },
        None => {
            proof {
                lemma_lines_of_split(s@, s@.len() as int);
            }
            s.to_owned()
        },
    }
}

/// The decimal digit character for `d`.
pub open spec fn dec_digit(d: nat) -> char {
    ((48 + d % 10) as u8) as char
}

/// The decimal representation of `n`, most significant digit first.
pub open spec fn dec_str(n: nat) -> Seq<char>
    decreases n,
{
    if n < 10 {
        seq![dec_digit(n)]
    } else {
        dec_str(n / 10) + seq![dec_digit(n % 10)]
    }
}

fn digit_str(d: usize) -> (r: String)
    requires
        d < 10,
    ensures
        r@ == seq![dec_digit(d as nat)],
{
    let r: &str = if d == 0 {
        "0"
    } else if d == 1 {
        "1"
    } else if d == 2 {
        "2"
    } else if d == 3 {
        "3"
    } else if d == 4 {
        "4"
    } else if d == 5 {
        "5"
    } else if d == 6 {
        "6"
    } else if d == 7 {
        "7"
    } else if d == 8 {
        "8"
    } else {
        "9"
    };
    proof {
        reveal_strlit("0");
        reveal_strlit("1");
        reveal_strlit("2");
        reveal_strlit("3");
        reveal_strlit("4");
        reveal_strlit("5");
        reveal_strlit("6");
        reveal_strlit("7");
        reveal_strlit("8");
        reveal_strlit("9");
        assert(r@ =~= seq![dec_digit(d as nat)]);
    }
    r.to_owned()
}

/// Render `n` in decimal.
pub fn usize_to_string(n: usize) -> (r: String)
    ensures
        r@ == dec_str(n as nat),
    decreases n,
{
    if n < 10 {
        digit_str(n)
    } else {
        let mut s = usize_to_string(n / 10);
        let d = digit_str(n % 10);
        s.append(d.as_str());
        s
    }
}

} // verus!
