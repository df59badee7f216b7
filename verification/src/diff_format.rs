//! Rendering the raw print events of a repository diff into the unified
//! diff text sent to the backend, with withheld files reduced to a note.

use crate::changeset::{FileChange, FileChangeV};
use crate::text::str_eq;
use vstd::prelude::*;

verus! {

/// One print event of the repository diff walk: the line origin code, the
/// file the line belongs to (on file headers), and the line text.
#[derive(Debug)]
pub struct DiffEvent {
    /// `'F'` for a file header, `'+'`, `'-'`, `' '` for diff lines, other
    /// codes for hunk headers and the like.
    pub origin: char,
    pub new_path: Option<String>,
    pub content: String,
}

/// The mathematical shadow of a [`DiffEvent`].
pub ghost struct DiffEventV {
    pub origin: char,
    pub new_path: Option<Seq<char>>,
    pub content: Seq<char>,
}

impl View for DiffEvent {
    type V = DiffEventV;

    open spec fn view(&self) -> DiffEventV {
        DiffEventV {
            origin: self.origin,
            new_path: match self.new_path {
                Some(p) => Some(p@),
                None => None,
            },
            content: self.content@,
        }
    }
}

/// Whether the first entry for `p` in the file list withholds its diff;
/// false when no entry names `p`.
pub open spec fn ignored_lookup(files: Seq<FileChangeV>, p: Seq<char>) -> bool
    decreases files.len(),
{
    if files.len() == 0 {
        false
    } else if files[0].path == p {
        files[0].diff_ignored
    } else {
        ignored_lookup(files.drop_first(), p)
    }
}

/// Look `path` up in the file list and report whether its diff is withheld.
pub fn is_ignored_path(files: &Vec<FileChange>, path: &str) -> (r: bool)
    ensures
        r == ignored_lookup(files@.map_values(|f: FileChange| f@), path@),
{
    let ghost all = files@.map_values(|f: FileChange| f@);
    proof {
        assert(all.skip(0) =~= all);
    }
    let n = files.len();
    let mut k: usize = 0;
    while k < n
        invariant
            0 <= k <= n,
            n == files@.len(),
            all == files@.map_values(|f: FileChange| f@),
            ignored_lookup(all, path@) == ignored_lookup(all.skip(k as int), path@),
        decreases n - k,
    {
        proof {
            assert(all.skip(k as int)[0] == files@[k as int]@);
            assert(all.skip(k as int).drop_first() =~= all.skip(k + 1));
        }
        if str_eq(files[k].path.as_str(), path) {
            return files[k].diff_ignored;
        }
        k = k + 1;
    }
    proof {
        assert(all.skip(n as int) =~= Seq::<FileChangeV>::empty());
    }
    false
}

/// The note standing in for the diff of a withheld file.
pub open spec fn ignored_note(p: Seq<char>) -> Seq<char> {
    "--- "@ + p + " (diff ignored)\n"@
}

/// The text the diff events render to, given the current skip state: file
/// headers decide whether the following lines are kept or withheld, kept
/// content lines carry their origin character, and a withheld file leaves
/// only a note.
pub open spec fn format_events(
    evs: Seq<DiffEventV>,
    files: Seq<FileChangeV>,
    skip: bool,
) -> Seq<char>
    decreases evs.len(),
{
    if evs.len() == 0 {
        Seq::empty()
    } else {
        let ev = evs[0];
        let rest = evs.drop_first();
        if ev.origin == 'F' && ev.new_path is Some {
            let p = ev.new_path->0;
            if ignored_lookup(files, p) {
                ignored_note(p) + format_events(rest, files, true)
            } else {
                ev.content + format_events(rest, files, false)
            }
        } else if skip {
            format_events(rest, files, true)
        } else if ev.origin == '+' || ev.origin == '-' || ev.origin == ' ' {
            seq![ev.origin] + ev.content + format_events(rest, files, skip)
        } else {
            ev.content + format_events(rest, files, skip)
        }
    }
}

/// `s` with every trailing newline removed.
pub open spec fn drop_trailing_newlines(s: Seq<char>) -> Seq<char>
    decreases s.len(),
{
    if s.len() == 0 {
        s
    } else if s[s.len() - 1] == '\n' {
        drop_trailing_newlines(s.drop_last())
    } else {
        s
    }
}

proof fn lemma_drop_trailing_newlines_at(s: Seq<char>, b: int)
    requires
        0 <= b <= s.len(),
        forall|j: int| b <= j < s.len() ==> s[j] == '\n',
        b > 0 ==> s[b - 1] != '\n',
    ensures
        drop_trailing_newlines(s) == s.subrange(0, b),
    decreases s.len() - b,
{
    if b == s.len() {
        assert(drop_trailing_newlines(s) =~= s.subrange(0, b));
    } else {
        assert(s[s.len() - 1] == '\n');
        let t = s.drop_last();
        lemma_drop_trailing_newlines_at(t, b);
        assert(t.subrange(0, b) =~= s.subrange(0, b));
    }
}

/// Remove every trailing newline from `s`.
pub fn trim_end_newlines(s: &str) -> (r: String)
    ensures
        r@ == drop_trailing_newlines(s@),
{
    let len = s.unicode_len();
    let mut b: usize = len;
    while b > 0 && s.get_char(b - 1) == '\n'
        invariant
            0 <= b <= len,
            len == s@.len(),
            forall|j: int| b <= j < len ==> s@[j] == '\n',
        decreases b,
    {
        b = b - 1;
    }
    proof {
        lemma_drop_trailing_newlines_at(s@, b as int);
    }
    s.substring_char(0, b).to_owned()
}

/// Render the diff events into the unified diff text handed to the
/// backend: withheld files are reduced to their note, and trailing
/// newlines are dropped at the end.
pub fn format_diff_events(events: &Vec<DiffEvent>, files: &Vec<FileChange>) -> (r: String)
    ensures
        r@ == drop_trailing_newlines(
            format_events(
                events@.map_values(|e: DiffEvent| e@),
                files@.map_values(|f: FileChange| f@),
                false,
            ),
        ),
{
    let ghost evs = events@.map_values(|e: DiffEvent| e@);
    let ghost fvs = files@.map_values(|f: FileChange| f@);
    let n = events.len();
    let mut out = String::new();
    let mut skip_current: bool = false;
    proof {
        assert(evs.skip(0) =~= evs);
        assert(out@ + format_events(evs, fvs, false) =~= format_events(evs, fvs, false));
    }
    let mut k: usize = 0;
    while k < n
        invariant
            0 <= k <= n,
            n == events@.len(),
            evs == events@.map_values(|e: DiffEvent| e@),
            fvs == files@.map_values(|f: FileChange| f@),
            format_events(evs, fvs, false) == out@ + format_events(
                evs.skip(k as int),
                fvs,
                skip_current,
            ),
        decreases n - k,
    {
        let ev = &events[k];
        proof {
            assert(evs.skip(k as int)[0] == events@[k as int]@);
            assert(evs.skip(k as int).drop_first() =~= evs.skip(k + 1));
        }
        let is_header = ev.origin == 'F' && ev.new_path.is_some();
        if is_header {
            let path = match &ev.new_path {
                Some(p) => p.as_str(),
                None => "",
            };
            if is_ignored_path(files, path) {
                out.append("--- ");
                out.append(path);
                out.append(" (diff ignored)\n");
                skip_current = true;
            } else {
                out.append(ev.content.as_str());
                skip_current = false;
            }
        } else if skip_current {
            // everything of a withheld file is dropped
        } else {
            if ev.origin == '+' {
                out.append("+");
                proof {
                    reveal_strlit("+");
                    assert("+"@ =~= seq![ev@.origin]);
                }
            } else if ev.origin == '-' {
                out.append("-");
                proof {
                    reveal_strlit("-");
                    assert("-"@ =~= seq![ev@.origin]);
                }
            } else if ev.origin == ' ' {
                out.append(" ");
                proof {
                    reveal_strlit(" ");
                    assert(" "@ =~= seq![ev@.origin]);
                }
            }
            out.append(ev.content.as_str());
        }
        k = k + 1;
    }
    proof {
        assert(evs.skip(n as int) =~= Seq::<DiffEventV>::empty());
        assert(out@ =~= out@ + format_events(evs.skip(n as int), fvs, skip_current));
    }
    trim_end_newlines(out.as_str())
}

} // verus!
