//! What the review screen shows: line splitting at the length limit,
//! highlighting of backend-name mentions, and the bounded file list.

use crate::changeset::{FileChange, FileChangeV, status_char_spec};
use crate::constants::{MAX_FILES_TO_SHOW, MAX_LINE_LENGTH};
use crate::text::{
    contains_at, dec_str, find_ci_from, has_sub, lines_of, lower_seq, split_lines,
    usize_to_string,
};
use vstd::prelude::*;

verus! {

/// Split one line at the length limit: the part that renders normally,
/// and the overflow that is flagged.
pub fn split_line_at_limit(line: &str) -> (r: (String, String))
    ensures
        r.0@ + r.1@ == line@,
        r.0@.len() <= MAX_LINE_LENGTH,
        line@.len() <= MAX_LINE_LENGTH ==> r.0@ == line@ && r.1@.len() == 0,
        line@.len() > MAX_LINE_LENGTH ==> r.0@ == line@.subrange(0, MAX_LINE_LENGTH as int)
            && r.1@ == line@.subrange(MAX_LINE_LENGTH as int, line@.len() as int),
{
    let len = line.unicode_len();
    if len <= MAX_LINE_LENGTH {
        let head = line.to_owned();
        let tail = String::new();
        proof {
            assert(head@ + tail@ =~= line@);
        }
        (head, tail)
    } else {
        let head = line.substring_char(0, MAX_LINE_LENGTH).to_owned();
        let tail = line.substring_char(MAX_LINE_LENGTH, len).to_owned();
        proof {
            assert(head@ + tail@ =~= line@);
        }
        (head, tail)
    }
}

/// The concatenation of the segment texts.
pub open spec fn segs_concat(ss: Seq<(Seq<char>, bool)>) -> Seq<char>
    decreases ss.len(),
{
    if ss.len() == 0 {
        Seq::empty()
    } else {
        segs_concat(ss.drop_last()) + ss.last().0
    }
}

/// Cut one line into segments for rendering: pieces flagged true are
/// exactly the backend's name in some casing, and no unflagged piece
/// hides such a mention. The pieces concatenate back to the line.
pub fn mention_segments(line: &str) -> (segs: Vec<(String, bool)>)
    ensures
        ({
            let ss = segs@.map_values(|p: (String, bool)| (p.0@, p.1));
            &&& segs_concat(ss) == line@
            &&& forall|i: int|
                0 <= i < ss.len() && ss[i].1 ==> lower_seq(#[trigger] ss[i].0) == "llm"@
            &&& forall|i: int|
                0 <= i < ss.len() && !ss[i].1 ==> !has_sub(
                    lower_seq(#[trigger] ss[i].0),
                    "llm"@,
                )
        }),
{
    let pat = "llm";
    proof {
        reveal_strlit("llm");
        assert(pat@.len() == 3);
    }
    let len = line.unicode_len();
    let mut segs: Vec<(String, bool)> = Vec::new();
    let mut start: usize = 0;
    loop
        invariant
            0 <= start <= len,
            len == line@.len(),
            pat@ == "llm"@,
            pat@.len() == 3,
            ({
                let ss = segs@.map_values(|p: (String, bool)| (p.0@, p.1));
                &&& segs_concat(ss) == line@.subrange(0, start as int)
                &&& forall|i: int|
                    0 <= i < ss.len() && ss[i].1 ==> lower_seq(#[trigger] ss[i].0)
                        == "llm"@
                &&& forall|i: int|
                    0 <= i < ss.len() && !ss[i].1 ==> !has_sub(
                        lower_seq(#[trigger] ss[i].0),
                        "llm"@,
                    )
            }),
        decreases len - start,
    {
        let ghost ss_before = segs@.map_values(|p: (String, bool)| (p.0@, p.1));
        match find_ci_from(line, start, pat) {
            None => {
                if start < len {
                    let piece = line.substring_char(start, len).to_owned();
                    proof {
                        lemma_piece_free(line@, start as int, len as int, pat@);
                    }
                    segs.push((piece, false));
                }
                proof {
                    let ss = segs@.map_values(|p: (String, bool)| (p.0@, p.1));
                    if start < len {
                        assert(ss.drop_last() =~= ss_before);
                        assert(ss.last().0 == line@.subrange(start as int, len as int));
                        assert(segs_concat(ss) =~= line@);
                        assert forall|i: int|
                            0 <= i < ss.len() && ss[i].1 implies lower_seq(
                            #[trigger] ss[i].0,
                        ) == "llm"@ by {
                            assert(ss[i] == ss_before[i]);
                        }
                        assert forall|i: int|
                            0 <= i < ss.len() && !ss[i].1 implies !has_sub(
                            lower_seq(#[trigger] ss[i].0),
                            "llm"@,
                        ) by {
                            if i < ss.len() - 1 {
                                assert(ss[i] == ss_before[i]);
                            }
                        }
                    } else {
                        assert(line@.subrange(0, start as int) =~= line@);
                    }
                }
                return segs;
            },
            Some(i) => {
                if i > start {
                    let piece = line.substring_char(start, i).to_owned();
                    proof {
                        lemma_piece_free(line@, start as int, i as int, pat@);
                    }
                    segs.push((piece, false));
                    proof {
                        let ss = segs@.map_values(|p: (String, bool)| (p.0@, p.1));
                        assert(ss.drop_last() =~= ss_before);
                        assert(ss.last().0 == line@.subrange(start as int, i as int));
                        assert(segs_concat(ss) =~= line@.subrange(0, i as int));
                        assert forall|j: int|
                            0 <= j < ss.len() && ss[j].1 implies lower_seq(
                            #[trigger] ss[j].0,
                        ) == "llm"@ by {
                            assert(ss[j] == ss_before[j]);
                        }
                        assert forall|j: int|
                            0 <= j < ss.len() && !ss[j].1 implies !has_sub(
                            lower_seq(#[trigger] ss[j].0),
                            "llm"@,
                        ) by {
                            if j < ss.len() - 1 {
                                assert(ss[j] == ss_before[j]);
                            }
                        }
                    }
                }
                let ghost ss_mid = segs@.map_values(|p: (String, bool)| (p.0@, p.1));
                let hit = line.substring_char(i, i + 3).to_owned();
                proof {
                    assert(lower_seq(line@.subrange(i as int, i + 3)) =~= lower_seq(
                        line@,
                    ).subrange(i as int, i + 3));
                    assert(lower_seq(line@).subrange(i as int, i + 3) =~= "llm"@);
                }
                segs.push((hit, true));
                proof {
                    let ss = segs@.map_values(|p: (String, bool)| (p.0@, p.1));
                    assert(ss.drop_last() =~= ss_mid);
                    assert(ss.last().0 == hit@);
                    assert(lower_seq(hit@) == "llm"@);
                    assert(segs_concat(ss) =~= line@.subrange(0, i + 3));
                    assert forall|j: int|
                        0 <= j < ss.len() && ss[j].1 implies lower_seq(
                        #[trigger] ss[j].0,
                    ) == "llm"@ by {
                        if j < ss.len() - 1 {
                            assert(ss[j] == ss_mid[j]);
                        } else {
                            assert(ss[j].0 == hit@);
                        }
                    }
                    assert forall|j: int|
                        0 <= j < ss.len() && !ss[j].1 implies !has_sub(
                        lower_seq(#[trigger] ss[j].0),
                        "llm"@,
                    ) by {
                        assert(ss[j] == ss_mid[j]);
                    }
                }
                start = i + 3;
            },
        }
    }
}

/// A window inside a region with no occurrence of `p` in the lower-cased
/// text holds no occurrence of `p` on its own either.
proof fn lemma_piece_free(s: Seq<char>, a: int, b: int, p: Seq<char>)
    requires
        0 <= a <= b <= s.len(),
        forall|k: int| a <= k ==> !contains_at(lower_seq(s), k, p) || k + p.len() > b,
    ensures
        !has_sub(lower_seq(s.subrange(a, b)), p),
{
    let piece = s.subrange(a, b);
    assert forall|k: int| !contains_at(lower_seq(piece), k, p) by {
        if 0 <= k && k + p.len() <= piece.len() {
            assert(lower_seq(piece).subrange(k, k + p.len() as int) =~= lower_seq(
                s,
            ).subrange(a + k, a + k + p.len() as int));
            if contains_at(lower_seq(piece), k, p) {
                assert(lower_seq(s).subrange(a + k, a + k + p.len() as int) =~= lower_seq(
                    s,
                ).subrange(a + k, a + k + p.len() as int));
                assert(contains_at(lower_seq(s), a + k, p));
            }
        }
    }
}

/// The status column of the file list.
pub fn status_str(f: &FileChange) -> (r: &'static str)
    ensures
        r@ == seq![status_char_spec(f.status)],
{
    let c = crate::changeset::status_char(f.status);
    let r: &'static str = if c == 'A' {
        "A"
    } else if c == 'M' {
        "M"
    } else if c == 'D' {
        "D"
    } else if c == 'R' {
        "R"
    } else {
        "?"
    };
    proof {
        reveal_strlit("A");
        reveal_strlit("M");
        reveal_strlit("D");
        reveal_strlit("R");
        reveal_strlit("?");
        assert(r@ =~= seq![status_char_spec(f.status)]);
    }
    r
}

/// The one display line of a file entry: its status code and its path,
/// a rename shown as the old path, an arrow, and the new path.
pub open spec fn file_line_of(f: FileChangeV) -> Seq<char> {
    seq![status_char_spec(f.status)] + " "@ + (match f.old_path {
        Some(op) => op + " \u{2192} "@ + f.path,
        None => f.path,
    })
}

/// The file list as shown: at most the display bound of entries, and a
/// summary tail counting the rest when there are more.
pub open spec fn shown_file_lines(files: Seq<FileChangeV>) -> Seq<Seq<char>> {
    let shown = if files.len() <= MAX_FILES_TO_SHOW {
        files.len() as int
    } else {
        MAX_FILES_TO_SHOW as int
    };
    Seq::new(shown as nat, |i: int| file_line_of(files[i])) + (if files.len()
        > MAX_FILES_TO_SHOW {
        seq!["(+"@ + dec_str((files.len() - MAX_FILES_TO_SHOW) as nat) + " more)"@]
    } else {
        Seq::<Seq<char>>::empty()
    })
}

/// Render the bounded file list: one line per shown file, renames as
/// `old → new`, and a `(+N more)` tail when the list is cut off.
pub fn file_list_lines(files: &Vec<FileChange>) -> (v: Vec<String>)
    ensures
        v@.map_values(|t: String| t@) == shown_file_lines(
            files@.map_values(|f: FileChange| f@),
        ),
{
    let ghost all = files@.map_values(|f: FileChange| f@);
    let n = files.len();
    let shown = if n <= MAX_FILES_TO_SHOW {
        n
    } else {
        MAX_FILES_TO_SHOW
    };
    let mut v: Vec<String> = Vec::new();
    let mut k: usize = 0;
    while k < shown
        invariant
            0 <= k <= shown,
            n == files@.len(),
            all == files@.map_values(|f: FileChange| f@),
            shown == if n <= MAX_FILES_TO_SHOW {
                n as int
            } else {
                MAX_FILES_TO_SHOW as int
            },
            v@.map_values(|t: String| t@) == Seq::new(
                k as nat,
                |i: int| file_line_of(all[i]),
            ),
        decreases shown - k,
    {
        let f = &files[k];
        let mut line = String::from_str(status_str(f));
        line.append(" ");
        match &f.old_path {
            Some(op) => {
                line.append(op.as_str());
                line.append(" \u{2192} ");
                line.append(f.path.as_str());
            },
            None => {
                line.append(f.path.as_str());
            },
        }
        proof {
            assert(line@ =~= file_line_of(all[k as int]));
        }
        let ghost m_before = v@.map_values(|t: String| t@);
        v.push(line);
        proof {
            let m = v@.map_values(|t: String| t@);
            let want = Seq::new((k + 1) as nat, |i: int| file_line_of(all[i]));
            assert(m_before.len() == k);
            assert(m =~= m_before.push(line@));
            assert(m.len() == want.len());
            assert forall|i: int| 0 <= i < m.len() implies m[i] == want[i] by {
                if i < k {
                    assert(m[i] == Seq::new(k as nat, |j: int| file_line_of(all[j]))[i]);
                } else {
                    assert(m[i] == line@);
                }
            }
            assert(m =~= want);
        }
        k = k + 1;
    }
    if n > MAX_FILES_TO_SHOW {
        let mut tail = String::from_str("(+");
        let count = usize_to_string(n - MAX_FILES_TO_SHOW);
        tail.append(count.as_str());
        tail.append(" more)");
        v.push(tail);
    }
    proof {
        assert(v@.map_values(|t: String| t@) =~= shown_file_lines(all));
    }
    v
}

/// The violation notice of the length gate: whether the message as a
/// whole or one of several lines is over the limit.
pub fn violation_message(desc: &str) -> (r: String)
    ensures
        lines_of(desc@).len() > 1 ==> r@ == "commit message has lines longer than 72 chars"@,
        lines_of(desc@).len() <= 1 ==> r@ == "commit message is longer than 72 chars"@,
{
    let lines = split_lines(desc);
    if lines.len() > 1 {
        String::from_str("commit message has lines longer than 72 chars")
    } else {
        String::from_str("commit message is longer than 72 chars")
    }
}

/// The one-line summary of what is being described: the change source
/// and the file count.
pub fn generation_summary(source: &str, file_count: usize) -> (r: String)
    ensures
        file_count == 1 ==> r@ == source@ + " ["@ + dec_str(file_count as nat) + " file]"@,
        file_count != 1 ==> r@ == source@ + " ["@ + dec_str(file_count as nat) + " files]"@,
{
    let mut s = source.to_owned();
    s.append(" [");
    let count = usize_to_string(file_count);
    s.append(count.as_str());
    if file_count == 1 {
        s.append(" file]");
    } else {
        s.append(" files]");
    }
    proof {
        if file_count == 1 {
            assert(s@ =~= source@ + " ["@ + dec_str(file_count as nat) + " file]"@);
        } else {
            assert(s@ =~= source@ + " ["@ + dec_str(file_count as nat) + " files]"@);
        }
    }
    s
}

} // verus!
