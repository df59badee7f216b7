//! Isolating the commit message from the backend's free-text reply.
//!
//! The backend is instructed to wrap the message in a triple-backtick
//! fenced block. The extractor returns the trimmed interior of the first
//! such block; when no complete block is found it degrades gracefully and
//! returns the whole reply, trimmed.

use crate::text::{
    contains_at, first_occurrence, has_sub, find_sub, find_sub_from,
    lemma_trim_idempotent, lemma_trim_subrange, trim, trim_spec,
};
use vstd::prelude::*;

verus! {

/// The fence delimiter: three backticks.
pub open spec fn fence() -> Seq<char> {
    seq!['`', '`', '`']
}

/// The first occurrence of `p` in `s`, if any.
pub open spec fn find_first(s: Seq<char>, p: Seq<char>) -> Option<int>
    decreases s.len(),
{
    if p.len() == 0 {
        Some(0)
    } else if s.len() < p.len() {
        None
    } else if s.subrange(0, p.len() as int) == p {
        Some(0)
    } else {
        match find_first(s.drop_first(), p) {
            Some(i) => Some(i + 1),
            None => None,
        }
    }
}

/// An occurrence shifted past a dropped prefix is an occurrence of the suffix.
proof fn lemma_contains_at_shift(s: Seq<char>, off: int, k: int, p: Seq<char>)
    requires
        0 <= off <= s.len(),
        0 <= k,
    ensures
        contains_at(s, off + k, p) <==> contains_at(s.skip(off), k, p),
{
    let t = s.skip(off);
    if off + k + p.len() <= s.len() {
        assert(s.subrange(off + k, off + k + p.len() as int) =~= t.subrange(
            k,
            k + p.len() as int,
        ));
    }
}

/// `find_first` returns exactly the first occurrence.
pub proof fn lemma_find_first_correct(s: Seq<char>, p: Seq<char>)
    requires
        p.len() >= 1,
    ensures
        match find_first(s, p) {
            Some(i) => first_occurrence(s, i, p),
            None => !has_sub(s, p),
        },
    decreases s.len(),
{
    if s.len() < p.len() {
        assert forall|i: int| !contains_at(s, i, p) by {}
    } else if s.subrange(0, p.len() as int) == p {
        assert(contains_at(s, 0, p));
    } else {
        let t = s.drop_first();
        lemma_find_first_correct(t, p);
        assert(!contains_at(s, 0, p));
        assert forall|k: int| 0 <= k implies (contains_at(s, 1 + k, p) <==> contains_at(
            t,
            k,
            p,
        )) by {
            lemma_contains_at_shift(s, 1, k, p);
        }
        match find_first(t, p) {
            Some(i) => {
                assert(contains_at(s, i + 1, p));
                assert forall|k: int| 0 <= k < i + 1 implies !contains_at(s, k, p) by {
                    if k > 0 {
                        lemma_contains_at_shift(s, 1, k - 1, p);
                    }
                }
            },
            None => {
                assert forall|k: int| !contains_at(s, k, p) by {
                    if k > 0 {
                        lemma_contains_at_shift(s, 1, k - 1, p);
                    }
                }
            },
        }
    }
}

/// A first occurrence is unique, so it is what `find_first` returns.
pub proof fn lemma_find_first_of_occurrence(s: Seq<char>, i: int, p: Seq<char>)
    requires
        p.len() >= 1,
        first_occurrence(s, i, p),
    ensures
        find_first(s, p) == Some(i),
{
    lemma_find_first_correct(s, p);
    match find_first(s, p) {
        Some(j) => {
            if j < i {
                assert(contains_at(s, j, p));
            }
            if i < j {
                assert(contains_at(s, i, p));
            }
        },
        None => {
            assert(contains_at(s, i, p));
        },
    }
}

/// What `extract_from_backticks` returns: the trimmed interior of the first
/// complete fenced block, or the whole text trimmed when no block closes.
pub open spec fn extract_spec(s: Seq<char>) -> Seq<char> {
    match find_first(s, fence()) {
        Some(i) => {
            let after = s.skip(i + 3);
            match find_first(after, fence()) {
                Some(j) => trim_spec(after.subrange(0, j)),
                None => trim_spec(s),
            }
        },
        None => trim_spec(s),
    }
}

/// The extractor fell back to the whole text: no fenced block closes in `s`.
pub open spec fn extraction_fallback(s: Seq<char>) -> bool {
    match find_first(s, fence()) {
        Some(i) => find_first(s.skip(i + 3), fence()) is None,
        None => true,
    }
}

/// Extract the commit message from between triple backticks; with no
/// complete fenced block, degrade to the whole reply, trimmed.
pub fn extract_from_backticks(output: String) -> (r: String)
    ensures
        r@ == extract_spec(output@),
{
    let f = "```";
    proof {
        reveal_strlit("```");
        assert(f@ =~= fence());
    }
    let s = output.as_str();
    let n = s.unicode_len();
    match find_sub(s, f) {
        None => {
            proof {
                lemma_find_first_correct(output@, fence());
                if find_first(output@, fence()) is Some {
                    assert(has_sub(output@, fence()));
                }
            }
            trim(s)
        },
        Some(i) => {
            proof {
                lemma_find_first_of_occurrence(output@, i as int, fence());
            }
            assert(i + 3 <= n);
            let ghost after = output@.skip(i + 3);
            match find_sub_from(s, i + 3, f) {
                None => {
                    proof {
                        lemma_find_first_correct(after, fence());
                        match find_first(after, fence()) {
                            Some(j) => {
                                assert(contains_at(after, j, fence()));
                                lemma_contains_at_shift(output@, i + 3, j, fence());
                            },
                            None => {},
                        }
                    }
                    trim(s)
                },
                Some(e) => {
                    proof {
                        lemma_contains_at_shift(output@, i + 3, e - (i + 3), fence());
                        assert forall|k: int| 0 <= k < e - (i + 3) implies !contains_at(
                            after,
                            k,
                            fence(),
                        ) by {
                            lemma_contains_at_shift(output@, i + 3, k, fence());
                        }
                        lemma_find_first_of_occurrence(after, e - (i + 3), fence());
                        assert(after.subrange(0, e - (i + 3)) =~= output@.subrange(
                            i + 3,
                            e as int,
                        ));
                    }
                    let interior = s.substring_char(i + 3, e);
                    trim(interior)
                },
            }
        },
    }
}

/// Whether extraction of `output` would fall back to the whole text.
pub fn extraction_fell_back(output: &str) -> (r: bool)
    ensures
        r == extraction_fallback(output@),
{
    let f = "```";
    proof {
        reveal_strlit("```");
        assert(f@ =~= fence());
    }
    let n = output.unicode_len();
    match find_sub(output, f) {
        None => {
            proof {
                lemma_find_first_correct(output@, fence());
                if find_first(output@, fence()) is Some {
                    assert(has_sub(output@, fence()));
                }
            }
            true
        },
        Some(i) => {
            proof {
                lemma_find_first_of_occurrence(output@, i as int, fence());
            }
            assert(i + 3 <= n);
            let ghost after = output@.skip(i + 3);
            match find_sub_from(output, i + 3, f) {
                None => {
                    proof {
                        lemma_find_first_correct(after, fence());
                        match find_first(after, fence()) {
                            Some(j) => {
                                assert(contains_at(after, j, fence()));
                                lemma_contains_at_shift(output@, i + 3, j, fence());
                            },
                            None => {},
                        }
                    }
                    true
                },
                Some(e) => {
                    proof {
                        lemma_contains_at_shift(output@, i + 3, e - (i + 3), fence());
                        assert forall|k: int| 0 <= k < e - (i + 3) implies !contains_at(
                            after,
                            k,
                            fence(),
                        ) by {
                            lemma_contains_at_shift(output@, i + 3, k, fence());
                        }
                        lemma_find_first_of_occurrence(after, e - (i + 3), fence());
                    }
                    false
                },
            }
        },
    }
}

/// With no fence anywhere in the text, extraction returns the trimmed text
/// unchanged and signals the fallback.
pub proof fn lemma_extract_fallback(s: Seq<char>)
    requires
        !has_sub(s, fence()),
    ensures
        extract_spec(s) == trim_spec(s),
        extraction_fallback(s),
{
    lemma_find_first_correct(s, fence());
    match find_first(s, fence()) {
        Some(i) => {
            assert(contains_at(s, i, fence()));
        },
        None => {},
    }
}

/// Two texts that agree on a window hold the same occurrence there.
proof fn lemma_occurrence_transfer(s: Seq<char>, t: Seq<char>, k: int, p: Seq<char>)
    requires
        0 <= k,
        k + p.len() <= s.len(),
        k + p.len() <= t.len(),
        forall|j: int| k <= j < k + p.len() ==> s[j] == t[j],
    ensures
        contains_at(s, k, p) <==> contains_at(t, k, p),
{
    assert(s.subrange(k, k + p.len() as int) =~= t.subrange(k, k + p.len() as int));
}

/// The two ways a leading piece can be free of fences: no fence occurs in it,
/// even one completed by two following backticks.
pub open spec fn fence_free_even_extended(a: Seq<char>) -> bool {
    forall|k: int| !contains_at(a + seq!['`', '`'], k, fence())
}

/// On a reply holding one complete fenced block, extraction returns exactly
/// the trimmed interior of the block, whatever stands before the block and
/// whatever follows it.
pub proof fn lemma_extract_of_fenced(pre: Seq<char>, body: Seq<char>, post: Seq<char>)
    requires
        fence_free_even_extended(pre),
        fence_free_even_extended(body),
    ensures
        extract_spec(pre + fence() + body + fence() + post) == trim_spec(body),
        !extraction_fallback(pre + fence() + body + fence() + post),
{
    let s = pre + fence() + body + fence() + post;
    let np = pre.len() as int;
    let nb = body.len() as int;

    // the opening fence stands at the end of `pre`, and nowhere earlier
    assert(s.subrange(np, np + 3) =~= fence());
    assert(contains_at(s, np, fence()));
    assert forall|k: int| 0 <= k < np implies !contains_at(s, k, fence()) by {
        let ext = pre + seq!['`', '`'];
        assert(forall|j: int| k <= j < k + 3 ==> s[j] == ext[j]);
        lemma_occurrence_transfer(s, ext, k, fence());
    }
    lemma_find_first_of_occurrence(s, np, fence());

    // past the opening fence the text is the body, the closing fence, the rest
    let after = s.skip(np + 3);
    assert(after =~= body + fence() + post);

    // the closing fence stands at the end of the body, and nowhere earlier
    assert(after.subrange(nb, nb + 3) =~= fence());
    assert(contains_at(after, nb, fence()));
    assert forall|k: int| 0 <= k < nb implies !contains_at(after, k, fence()) by {
        let ext = body + seq!['`', '`'];
        assert(forall|j: int| k <= j < k + 3 ==> after[j] == ext[j]);
        lemma_occurrence_transfer(after, ext, k, fence());
    }
    lemma_find_first_of_occurrence(after, nb, fence());
    assert(after.subrange(0, nb) =~= body);
}

/// Extraction is idempotent on a reply holding one complete fenced block:
/// extracting from what extraction returned changes nothing further.
pub proof fn lemma_extract_idempotent(pre: Seq<char>, body: Seq<char>, post: Seq<char>)
    requires
        fence_free_even_extended(pre),
        fence_free_even_extended(body),
    ensures
        extract_spec(extract_spec(pre + fence() + body + fence() + post)) == extract_spec(
            pre + fence() + body + fence() + post,
        ),
{
    let s = pre + fence() + body + fence() + post;
    lemma_extract_of_fenced(pre, body, post);
    let t = trim_spec(body);

    // the body itself holds no fence, so neither does any piece of it
    assert forall|k: int| !contains_at(body, k, fence()) by {
        let ext = body + seq!['`', '`'];
        if 0 <= k && k + 3 <= body.len() {
            assert(forall|j: int| k <= j < k + 3 ==> body[j] == ext[j]);
            lemma_occurrence_transfer(body, ext, k, fence());
        }
    }
    lemma_trim_subrange(body);
    let (a, b): (int, int) = choose|a: int, b: int|
        0 <= a <= b <= body.len() && t == #[trigger] body.subrange(a, b);
    assert forall|k: int| !contains_at(t, k, fence()) by {
        if 0 <= k && k + 3 <= t.len() {
            assert(t.subrange(k, k + 3) =~= body.subrange(a + k, a + k + 3));
            if contains_at(t, k, fence()) {
                assert(contains_at(body, a + k, fence()));
            }
        }
    }
    assert(!has_sub(t, fence()));
    lemma_extract_fallback(t);
    lemma_trim_idempotent(body);
}

} // verus!
