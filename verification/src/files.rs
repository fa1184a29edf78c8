//! File-change bookkeeping and diff rendering: which paths a watcher should
//! ignore, how observed changes are recorded, and how a unified diff or an
//! untracked file's content becomes a structured [`DiffResult`].
//!
//! Watching directories and running version control is left to the
//! surrounding application; it hands the paths, change kinds and diff text to
//! the functions here.

use vstd::prelude::*;
use vstd::string::StringExecFns;

use crate::text::{chars_eq, chars_of, chars_range, find_char, has_prefix, lemma_find_char, string_from_chars};
use crate::types::{FileChangeEvent, FileChangeEventView};

verus! {

/// The path segments of `s`, split on `c`.
pub open spec fn segments_of(s: Seq<char>, c: char) -> Seq<Seq<char>>
    decreases s.len(),
    via segments_of_decreases
{
    if s.len() == 0 {
        Seq::empty()
    } else if find_char(s, c) == -1 {
        seq![s]
    } else {
        seq![s.subrange(0, find_char(s, c))] + segments_of(
            s.subrange(find_char(s, c) + 1, s.len() as int),
            c,
        )
    }
}

#[via_fn]
proof fn segments_of_decreases(s: Seq<char>, c: char) {
    lemma_find_char(s, c);
}

/// Split `v` on `c`.
pub fn split_on(v: &Vec<char>, c: char) -> (r: Vec<Vec<char>>)
    ensures
        r@.len() == segments_of(v@, c).len(),
        forall|i: int| 0 <= i < r@.len() ==> #[trigger] r@[i]@ == segments_of(v@, c)[i],
{
    let n = v.len();
    let mut r: Vec<Vec<char>> = Vec::new();
    let mut pos: usize = 0;
    let ghost mut done: Seq<Seq<char>> = Seq::empty();
    proof {
        assert(v@.skip(0) =~= v@);
        assert(Seq::<Seq<char>>::empty() + segments_of(v@, c) =~= segments_of(v@, c));
    }
    while pos < n
        invariant
            pos <= n,
            n == v.len(),
            segments_of(v@, c) =~= done + segments_of(v@.skip(pos as int), c),
            done.len() == r@.len(),
            forall|i: int| 0 <= i < done.len() ==> #[trigger] r@[i]@ == done[i],
        decreases n - pos,
    {
        let ghost rest = v@.skip(pos as int);
        let mut j: usize = pos;
        while j < n && v[j] != c
            invariant
                pos <= j <= n,
                n == v.len(),
                forall|t: int| pos <= t < j ==> v@[t] != c,
            decreases n - j,
        {
            j = j + 1;
        }
        proof {
            assert forall|t: int| 0 <= t < j - pos implies rest[t] != c by {
                assert(rest[t] == v@[pos + t]);
            }
            lemma_find_char(rest, c);
            if j < n {
                assert(rest[j - pos] == v@[j as int]);
                assert(find_char(rest, c) == j - pos);
            } else {
                assert(find_char(rest, c) == -1);
            }
        }
        let seg = chars_range(v, pos, j);
        proof {
            if j < n {
                assert(rest.subrange(0, j - pos) =~= v@.subrange(pos as int, j as int));
                assert(rest.subrange(j - pos + 1, rest.len() as int) =~= v@.skip(j + 1 as int));
            } else {
                assert(rest =~= v@.subrange(pos as int, n as int));
            }
        }
        let ghost segv = seg@;
        r.push(seg);
        proof {
            done = done.push(segv);
            if j < n {
                assert(done + segments_of(v@.skip(j + 1 as int), c) =~= done.drop_last()
                    + segments_of(rest, c));
            } else {
                assert(segments_of(v@.skip(n as int), c) =~= Seq::<Seq<char>>::empty()) by {
                    assert(v@.skip(n as int) =~= Seq::<char>::empty());
                }
                assert(done + segments_of(v@.skip(n as int), c) =~= done.drop_last()
                    + segments_of(rest, c));
            }
        }
        if j < n {
            pos = j + 1;
        } else {
            pos = n;
        }
    }
    proof {
        assert(v@.skip(n as int) =~= Seq::<char>::empty());
        assert(done + segments_of(Seq::<char>::empty(), c) =~= done);
    }
    r
}

/// The directory names a watcher skips.
pub open spec fn ignored_component(seg: Seq<char>) -> bool {
    seg == "node_modules"@ || seg == ".git"@ || seg == "target"@ || seg == "dist"@ || seg
        == "build"@ || seg == "__pycache__"@ || seg == ".DS_Store"@ || seg == ".next"@ || seg
        == ".turbo"@ || seg == ".cache"@
}

/// Whether some path segment is an ignored directory name.
pub open spec fn should_ignore_spec(path: Seq<char>) -> bool {
    exists|i: int|
        0 <= i < segments_of(path, '/').len() && ignored_component(
            #[trigger] segments_of(path, '/')[i],
        )
}

/// Whether one segment is an ignored directory name.
fn is_ignored_component(seg: &Vec<char>) -> (r: bool)
    ensures
        r == ignored_component(seg@),
{
    chars_eq(seg, &chars_of("node_modules")) || chars_eq(seg, &chars_of(".git")) || chars_eq(
        seg,
        &chars_of("target"),
    ) || chars_eq(seg, &chars_of("dist")) || chars_eq(seg, &chars_of("build")) || chars_eq(
        seg,
        &chars_of("__pycache__"),
    ) || chars_eq(seg, &chars_of(".DS_Store")) || chars_eq(seg, &chars_of(".next")) || chars_eq(
        seg,
        &chars_of(".turbo"),
    ) || chars_eq(seg, &chars_of(".cache"))
}

/// Whether a watcher should skip this path: true exactly when one of its
/// segments is an ignored directory name.
pub fn should_ignore(path: &str) -> (r: bool)
    ensures
        r == should_ignore_spec(path@),
{
    let chars = chars_of(path);
    let segs = split_on(&chars, '/');
    let n = segs.len();
    let mut i: usize = 0;
    while i < n
        invariant
            i <= n,
            n == segs.len(),
            n == segments_of(path@, '/').len(),
            forall|j: int| 0 <= j < n ==> #[trigger] segs@[j]@ == segments_of(path@, '/')[j],
            forall|j: int| 0 <= j < i ==> !ignored_component(segments_of(path@, '/')[j]),
        decreases n - i,
    {
        if is_ignored_component(&segs[i]) {
            return true;
        }
        i = i + 1;
    }
    false
}

/// First index in `s` holding a change record for the given path, or `-1`.
pub open spec fn change_idx(s: Seq<FileChangeEventView>, path: Seq<char>) -> int
    decreases s.len(),
{
    if s.len() == 0 {
        -1
    } else if s[0].path == path {
        0
    } else if change_idx(s.drop_first(), path) == -1 {
        -1
    } else {
        change_idx(s.drop_first(), path) + 1
    }
}

/// Characterization of [`change_idx`]: `-1` means the path is absent;
/// otherwise it is the first position holding the path.
pub proof fn lemma_change_idx(s: Seq<FileChangeEventView>, path: Seq<char>)
    ensures
        change_idx(s, path) == -1 ==> forall|i: int| 0 <= i < s.len() ==> s[i].path != path,
        change_idx(s, path) != -1 ==> 0 <= change_idx(s, path) < s.len() && s[change_idx(
            s,
            path,
        )].path == path && (forall|i: int| 0 <= i < change_idx(s, path) ==> s[i].path != path),
    decreases s.len(),
{
    if s.len() > 0 && s[0].path != path {
        lemma_change_idx(s.drop_first(), path);
        let f = change_idx(s.drop_first(), path);
        if f == -1 {
            assert forall|i: int| 0 <= i < s.len() implies s[i].path != path by {
                if i >= 1 {
                    assert(s[i] == s.drop_first()[i - 1]);
                }
            }
        } else {
            assert(s[f + 1] == s.drop_first()[f]);
            assert forall|i: int| 0 <= i < f + 1 implies s[i].path != path by {
                if i >= 1 {
                    assert(s[i] == s.drop_first()[i - 1]);
                }
            }
        }
    }
}

/// Record one observed change: the first record for the same path is updated
/// in place, otherwise a new record is appended.
pub fn record_change(changes: &mut Vec<FileChangeEvent>, path: &str, kind: &str, timestamp: u64)
    ensures
        ({
            let f = change_idx(old(changes).deep_view(), path@);
            let entry = FileChangeEventView { path: path@, kind: kind@, timestamp };
            if f == -1 {
                final(changes).deep_view() == old(changes).deep_view().push(entry)
            } else {
                final(changes).deep_view() == old(changes).deep_view().update(
                    f,
                    FileChangeEventView { kind: kind@, timestamp, ..old(changes).deep_view()[f] },
                )
            }
        }),
{
    let n = changes.len();
    let owned = path.to_owned();
    let mut i: usize = 0;
    while i < n
        invariant
            i <= n,
            n == changes.len(),
            changes@ == old(changes)@,
            owned@ == path@,
            forall|j: int| 0 <= j < i ==> changes.deep_view()[j].path != path@,
        decreases n - i,
    {
        if changes[i].path == *&owned {
            proof {
                assert(changes.deep_view()[i as int].path == path@);
                lemma_change_idx(changes.deep_view(), path@);
            }
            let entry = FileChangeEvent {
                path: changes[i].path.clone(),
                kind: kind.to_owned(),
                timestamp,
            };
            changes.remove(i);
            changes.insert(i, entry);
            proof {
                assert(changes.deep_view() =~= old(changes).deep_view().update(
                    i as int,
                    FileChangeEventView {
                        kind: kind@,
                        timestamp,
                        ..old(changes).deep_view()[i as int]
                    },
                ));
            }
            return ;
        }
        i = i + 1;
    }
    proof {
        lemma_change_idx(changes.deep_view(), path@);
    }
    changes.push(FileChangeEvent { path: owned, kind: kind.to_owned(), timestamp });
    proof {
        assert(changes.deep_view() =~= old(changes).deep_view().push(
            FileChangeEventView { path: path@, kind: kind@, timestamp },
        ));
    }
}

} // verus!

verus! {

/// `s` without its leading copies of `c`.
pub open spec fn drop_leading(s: Seq<char>, c: char) -> Seq<char>
    decreases s.len(),
{
    if s.len() > 0 && s[0] == c {
        drop_leading(s.drop_first(), c)
    } else {
        s
    }
}

/// If everything before `i` equals `c` and position `i` (when it exists) does
/// not, dropping leading copies of `c` drops exactly the first `i` characters.
proof fn lemma_drop_leading_at(s: Seq<char>, c: char, i: int)
    requires
        0 <= i <= s.len(),
        forall|j: int| 0 <= j < i ==> s[j] == c,
        i < s.len() ==> s[i] != c,
    ensures
        drop_leading(s, c) =~= s.subrange(i, s.len() as int),
    decreases i,
{
    if i == 0 {
        assert(drop_leading(s, c) =~= s.subrange(0, s.len() as int));
    } else {
        assert(s[0] == c);
        lemma_drop_leading_at(s.drop_first(), c, i - 1);
        assert(s.drop_first().subrange(i - 1, s.drop_first().len() as int) =~= s.subrange(
            i,
            s.len() as int,
        ));
    }
}

/// Copy of `v` without its leading copies of `c`.
fn drop_leading_chars(v: &Vec<char>, c: char) -> (r: Vec<char>)
    ensures
        r@ == drop_leading(v@, c),
{
    let n = v.len();
    let mut i: usize = 0;
    while i < n && v[i] == c
        invariant
            i <= n,
            n == v.len(),
            forall|j: int| 0 <= j < i ==> v@[j] == c,
        decreases n - i,
    {
        i = i + 1;
    }
    proof {
        lemma_drop_leading_at(v@, c, i as int);
    }
    chars_range(v, i, n)
}

/// A decimal digit.
pub open spec fn is_digit(c: char) -> bool {
    '0' <= c && c <= '9'
}

/// The value of a decimal digit.
pub open spec fn digit_val(c: char) -> int {
    c as int - 48
}

/// The number a string of decimal digits denotes, folded from the left:
/// `None` when the string is empty, holds a non-digit, or exceeds the
/// machine's word range.
pub open spec fn parse_usize(s: Seq<char>) -> Option<usize>
    decreases s.len(),
{
    if s.len() == 0 {
        None
    } else if s.len() == 1 {
        if is_digit(s[0]) {
            Some(digit_val(s[0]) as usize)
        } else {
            None
        }
    } else {
        match parse_usize(s.drop_last()) {
            None => None,
            Some(a) => if is_digit(s.last()) && a as int * 10 + digit_val(s.last()) <= usize::MAX
                as int {
                Some((a as int * 10 + digit_val(s.last())) as usize)
            } else {
                None
            },
        }
    }
}

/// A parse that succeeds does so on every non-empty prefix.
proof fn lemma_parse_prefix(s: Seq<char>, k: int)
    requires
        1 <= k <= s.len(),
        parse_usize(s) is Some,
    ensures
        parse_usize(s.subrange(0, k)) is Some,
    decreases s.len() - k,
{
    if k == s.len() {
        assert(s.subrange(0, k) =~= s);
    } else {
        assert(s.len() > 1);
        assert(parse_usize(s.drop_last()) is Some);
        assert(s.drop_last().subrange(0, k) =~= s.subrange(0, k));
        lemma_parse_prefix(s.drop_last(), k);
    }
}

/// Parse a string of decimal digits; see [`parse_usize`].
fn parse_usize_chars(v: &Vec<char>) -> (r: Option<usize>)
    ensures
        r == parse_usize(v@),
{
    let n = v.len();
    if n == 0 {
        return None;
    }
    let mut acc: usize = 0;
    let mut i: usize = 0;
    while i < n
        invariant
            i <= n,
            n == v.len(),
            n > 0,
            i == 0 ==> acc == 0,
            i > 0 ==> parse_usize(v@.subrange(0, i as int)) == Some(acc),
        decreases n - i,
    {
        let c = v[i];
        let ghost pre = v@.subrange(0, i as int);
        let ghost cur = v@.subrange(0, i + 1 as int);
        proof {
            assert(cur.drop_last() =~= pre);
            assert(cur.last() == v@[i as int]);
        }
        if !('0' <= c && c <= '9') {
            proof {
                assert(parse_usize(cur) is None);
                if parse_usize(v@) is Some {
                    lemma_parse_prefix(v@, i + 1);
                    assert(v@.subrange(0, i + 1 as int) == cur);
                }
            }
            return None;
        }
        let d = (c as u32 - 48) as usize;
        proof {
            assert(d == digit_val(c));
            assert(d <= 9);
        }
        if acc > (usize::MAX - d) / 10 {
            proof {
                assert(acc as int * 10 + d > usize::MAX as int) by (nonlinear_arith)
                    requires
                        acc > (usize::MAX - d) / 10,
                        d <= 9,
                ;
                assert(parse_usize(cur) is None);
                if parse_usize(v@) is Some {
                    lemma_parse_prefix(v@, i + 1);
                    assert(v@.subrange(0, i + 1 as int) == cur);
                }
            }
            return None;
        }
        proof {
            assert(acc as int * 10 + d <= usize::MAX as int) by (nonlinear_arith)
                requires
                    acc <= (usize::MAX - d) / 10,
                    d <= 9,
            ;
        }
        acc = acc * 10 + d;
        proof {
            assert(parse_usize(cur) == Some(acc));
        }
        i = i + 1;
    }
    proof {
        assert(v@.subrange(0, n as int) =~= v@);
    }
    Some(acc)
}

/// The decimal rendering of `n`, most significant digit first.
pub open spec fn decimal(n: nat) -> Seq<char>
    decreases n,
{
    if n < 10 {
        seq![((48 + n) as u8) as char]
    } else {
        decimal(n / 10).push(((48 + n % 10) as u8) as char)
    }
}

/// Render `n` in decimal.
fn usize_to_string(n: usize) -> (r: String)
    ensures
        r@ == decimal(n as nat),
{
    let mut digits: Vec<char> = Vec::new();
    let mut m = n;
    loop
        invariant_except_break
            digits@.len() == 0 ==> m == n,
            digits@.len() > 0 ==> m > 0 && decimal(n as nat) =~= decimal(m as nat)
                + digits@.reverse(),
        ensures
            decimal(n as nat) =~= digits@.reverse(),
            digits@.len() > 0,
        decreases m + (if digits@.len() == 0 { 1int } else { 0int }),
    {
        let d = m % 10;
        let next = m / 10;
        let ghost prev = digits@;
        let ghost dchar = (((48 + d as u32) as u8) as char);
        digits.push(((48 + d as u32) as u8) as char);
        proof {
            assert(digits@.reverse() =~= seq![dchar] + prev.reverse());
            if next > 0 {
                assert(m >= 10);
                assert(decimal(m as nat) == decimal((m / 10) as nat).push(
                    ((48 + m % 10) as u8) as char,
                ));
                assert(decimal(next as nat).push(dchar) + prev.reverse() =~= decimal(next as nat)
                    + digits@.reverse());
            } else {
                assert(m < 10);
                assert(d == m);
                assert(decimal(m as nat) =~= seq![dchar]);
            }
            if prev.len() == 0 {
                assert(m == n);
                if next > 0 {
                    assert(decimal(n as nat) =~= decimal(next as nat) + digits@.reverse());
                } else {
                    assert(decimal(n as nat) =~= digits@.reverse());
                }
            } else {
                assert(decimal(n as nat) =~= decimal(m as nat) + prev.reverse());
                if next > 0 {
                    assert(decimal(n as nat) =~= decimal(next as nat) + digits@.reverse());
                } else {
                    assert(decimal(m as nat) + prev.reverse() =~= digits@.reverse());
                    assert(decimal(n as nat) =~= digits@.reverse());
                }
            }
        }
        m = next;
        if m == 0 {
            break;
        }
    }
    let k = digits.len();
    let mut out: Vec<char> = Vec::new();
    let mut j: usize = 0;
    while j < k
        invariant
            j <= k,
            k == digits.len(),
            decimal(n as nat) =~= digits@.reverse(),
            out@ =~= digits@.reverse().subrange(0, j as int),
        decreases k - j,
    {
        out.push(digits[k - 1 - j]);
        proof {
            assert(digits@.reverse()[j as int] == digits@[k - 1 - j]);
            assert(digits@.reverse().subrange(0, j + 1 as int) =~= digits@.reverse().subrange(
                0,
                j as int,
            ).push(digits@.reverse()[j as int]));
        }
        j = j + 1;
    }
    proof {
        assert(digits@.reverse().subrange(0, k as int) =~= digits@.reverse());
    }
    string_from_chars(&out)
}

} // verus!

verus! {

/// Scanner state while folding a unified diff, line by line.
pub struct DiffScanState {
    /// Completed hunks, in order.
    pub hunks: Seq<crate::types::DiffHunkView>,
    /// The hunk being filled, if a header was seen.
    pub current: Option<crate::types::DiffHunkView>,
    /// Added lines counted so far.
    pub additions: int,
    /// Removed lines counted so far.
    pub deletions: int,
    /// Next line number on the old side.
    pub old_line: usize,
    /// Next line number on the new side.
    pub new_line: usize,
}

/// The scanner's starting state.
pub open spec fn init_diff_scan() -> DiffScanState {
    DiffScanState {
        hunks: Seq::empty(),
        current: None,
        additions: 0,
        deletions: 0,
        old_line: 0,
        new_line: 0,
    }
}

/// The first piece of `s` before a comma, parsed as a number, defaulting to
/// one.
pub open spec fn number_of(s: Seq<char>) -> usize {
    let piece = if find_char(s, ',') == -1 {
        s
    } else {
        s.subrange(0, find_char(s, ','))
    };
    match parse_usize(piece) {
        Some(v) => v,
        None => 1,
    }
}

/// The old and new starting line numbers of a hunk header of the shape
/// `@@ -old,count +new,count @@`, read from its second and third
/// space-separated parts; `None` when the header has fewer than three parts.
pub open spec fn hunk_numbers(line: Seq<char>) -> Option<(usize, usize)> {
    let sp1 = find_char(line, ' ');
    if sp1 == -1 {
        None
    } else {
        let rest1 = line.subrange(sp1 + 1, line.len() as int);
        let sp2 = find_char(rest1, ' ');
        if sp2 == -1 {
            None
        } else {
            let part1 = rest1.subrange(0, sp2);
            let rest2 = rest1.subrange(sp2 + 1, rest1.len() as int);
            let sp3 = find_char(rest2, ' ');
            let part2 = if sp3 == -1 {
                rest2
            } else {
                rest2.subrange(0, sp3)
            };
            Some((number_of(drop_leading(part1, '-')), number_of(drop_leading(part2, '+'))))
        }
    }
}

/// One more than `x`, capped at the machine's word range.
pub open spec fn bump(x: usize) -> usize {
    if x == usize::MAX {
        x
    } else {
        (x + 1) as usize
    }
}

/// Effect of one diff line on the scanner: a header flushes the current hunk
/// and opens a new one, `+`, `-` and space lines land in the current hunk
/// with their line numbers, everything else is skipped.
pub open spec fn diff_line_step(st: DiffScanState, line: Seq<char>) -> DiffScanState {
    if has_prefix(line, "@@"@) {
        let flushed = match st.current {
            Some(h) => st.hunks.push(h),
            None => st.hunks,
        };
        let nums = hunk_numbers(line);
        DiffScanState {
            hunks: flushed,
            current: Some(crate::types::DiffHunkView { header: line, lines: Seq::empty() }),
            additions: st.additions,
            deletions: st.deletions,
            old_line: match nums {
                Some(p) => p.0,
                None => st.old_line,
            },
            new_line: match nums {
                Some(p) => p.1,
                None => st.new_line,
            },
        }
    } else {
        match st.current {
            None => st,
            Some(h) => {
                if line.len() > 0 && line[0] == '+' {
                    DiffScanState {
                        current: Some(
                            crate::types::DiffHunkView {
                                header: h.header,
                                lines: h.lines.push(
                                    crate::types::DiffLineView {
                                        content: line.skip(1),
                                        line_type: "add"@,
                                        old_line: None,
                                        new_line: Some(st.new_line),
                                    },
                                ),
                            },
                        ),
                        new_line: bump(st.new_line),
                        additions: st.additions + 1,
                        ..st
                    }
                } else if line.len() > 0 && line[0] == '-' {
                    DiffScanState {
                        current: Some(
                            crate::types::DiffHunkView {
                                header: h.header,
                                lines: h.lines.push(
                                    crate::types::DiffLineView {
                                        content: line.skip(1),
                                        line_type: "remove"@,
                                        old_line: Some(st.old_line),
                                        new_line: None,
                                    },
                                ),
                            },
                        ),
                        old_line: bump(st.old_line),
                        deletions: st.deletions + 1,
                        ..st
                    }
                } else if line.len() > 0 && line[0] == ' ' {
                    DiffScanState {
                        current: Some(
                            crate::types::DiffHunkView {
                                header: h.header,
                                lines: h.lines.push(
                                    crate::types::DiffLineView {
                                        content: line.skip(1),
                                        line_type: "context"@,
                                        old_line: Some(st.old_line),
                                        new_line: Some(st.new_line),
                                    },
                                ),
                            },
                        ),
                        old_line: bump(st.old_line),
                        new_line: bump(st.new_line),
                        ..st
                    }
                } else {
                    st
                }
            },
        }
    }
}

/// The scanner folded over a sequence of lines.
pub open spec fn diff_scan(st: DiffScanState, lines: Seq<Seq<char>>) -> DiffScanState
    decreases lines.len(),
{
    if lines.len() == 0 {
        st
    } else {
        diff_scan(diff_line_step(st, lines[0]), lines.drop_first())
    }
}

/// The view of an optional hunk under construction.
pub open spec fn opt_hunk_view(c: Option<crate::types::DiffHunk>) -> Option<
    crate::types::DiffHunkView,
> {
    match c {
        Some(h) => Some(h@),
        None => None,
    }
}

} // verus!

verus! {

/// Parse the first comma-separated piece as a number; see [`number_of`].
fn number_of_chars(v: &Vec<char>) -> (r: usize)
    ensures
        r == number_of(v@),
{
    let piece = match crate::text::find_char_in(v, ',') {
        Some(i) => chars_range(v, 0, i),
        None => chars_range(v, 0, v.len()),
    };
    proof {
        assert(v@.subrange(0, v@.len() as int) =~= v@);
    }
    match parse_usize_chars(&piece) {
        Some(n) => n,
        None => 1,
    }
}

/// Read a hunk header's line numbers; see [`hunk_numbers`].
fn hunk_numbers_chars(line: &Vec<char>) -> (r: Option<(usize, usize)>)
    ensures
        r == hunk_numbers(line@),
{
    let sp1 = match crate::text::find_char_in(line, ' ') {
        Some(i) => i,
        None => {
            return None;
        },
    };
    let rest1 = chars_range(line, sp1 + 1, line.len());
    proof {
        assert(rest1@ =~= line@.subrange(sp1 + 1, line@.len() as int));
    }
    let sp2 = match crate::text::find_char_in(&rest1, ' ') {
        Some(i) => i,
        None => {
            return None;
        },
    };
    let part1 = chars_range(&rest1, 0, sp2);
    let rest2 = chars_range(&rest1, sp2 + 1, rest1.len());
    proof {
        assert(rest2@ =~= rest1@.subrange(sp2 + 1, rest1@.len() as int));
    }
    let part2 = match crate::text::find_char_in(&rest2, ' ') {
        Some(i) => chars_range(&rest2, 0, i),
        None => {
            let whole = chars_range(&rest2, 0, rest2.len());
            proof {
                assert(whole@ =~= rest2@);
            }
            whole
        },
    };
    let old_start = number_of_chars(&drop_leading_chars(&part1, '-'));
    let new_start = number_of_chars(&drop_leading_chars(&part2, '+'));
    Some((old_start, new_start))
}

/// Parse a unified diff into hunks with per-line numbering and change
/// counts. The scan never fails: unrecognized lines are skipped.
pub fn parse_unified_diff(path: &str, diff: &str) -> (r: Result<
    crate::types::DiffResult,
    crate::types::AppError,
>)
    ensures
        match r {
            Ok(d) => ({
                let st = diff_scan(init_diff_scan(), crate::text::lines_of(diff@));
                let all = match st.current {
                    Some(h) => st.hunks.push(h),
                    None => st.hunks,
                };
                d@.path == path@ && d@.hunks == all && d@.additions as int == st.additions
                    && d@.deletions as int == st.deletions
            }),
            Err(_) => false,
        },
{
    let chars = chars_of(diff);
    let lines = crate::text::split_lines(&chars);
    let n = lines.len();
    let ghost full = crate::text::lines_of(diff@);
    let mut hunks: Vec<crate::types::DiffHunk> = Vec::new();
    let mut current: Option<crate::types::DiffHunk> = None;
    let mut additions: usize = 0;
    let mut deletions: usize = 0;
    let mut old_line: usize = 0;
    let mut new_line: usize = 0;
    let mut i: usize = 0;
    proof {
        assert(full.skip(0) =~= full);
        assert(hunks.deep_view() =~= Seq::<crate::types::DiffHunkView>::empty());
    }
    while i < n
        invariant
            i <= n,
            n == lines.len(),
            full == crate::text::lines_of(diff@),
            n == full.len(),
            forall|j: int| 0 <= j < n ==> #[trigger] lines@[j]@ == full[j],
            additions <= i,
            deletions <= i,
            diff_scan(init_diff_scan(), full) == diff_scan(
                DiffScanState {
                    hunks: hunks.deep_view(),
                    current: opt_hunk_view(current),
                    additions: additions as int,
                    deletions: deletions as int,
                    old_line,
                    new_line,
                },
                full.skip(i as int),
            ),
        decreases n - i,
    {
        let ghost pre = DiffScanState {
            hunks: hunks.deep_view(),
            current: opt_hunk_view(current),
            additions: additions as int,
            deletions: deletions as int,
            old_line,
            new_line,
        };
        let ghost rest = full.skip(i as int);
        proof {
            assert(rest[0] == full[i as int]);
            assert(rest.drop_first() =~= full.skip(i + 1 as int));
        }
        let line = &lines[i];
        let marker = chars_of("@@");
        if crate::text::starts_with_chars(line, &marker) {
            let mut closing: Option<crate::types::DiffHunk> = None;
            core::mem::swap(&mut current, &mut closing);
            match closing {
                Some(h) => {
                    let ghost prevh = hunks.deep_view();
                    let ghost hv = h@;
                    hunks.push(h);
                    proof {
                        assert(hunks.deep_view() =~= prevh.push(hv));
                    }
                },
                None => (),
            }
            match hunk_numbers_chars(line) {
                Some(pair) => {
                    old_line = pair.0;
                    new_line = pair.1;
                },
                None => (),
            }
            let fresh: Vec<crate::types::DiffLine> = Vec::new();
            proof {
                assert(fresh.deep_view() =~= Seq::<crate::types::DiffLineView>::empty());
            }
            current = Some(
                crate::types::DiffHunk { header: string_from_chars(line), lines: fresh },
            );
            proof {
                assert(opt_hunk_view(current) == Some(
                    crate::types::DiffHunkView { header: full[i as int], lines: Seq::empty() },
                ));
            }
        } else {
            let mut open_hunk: Option<crate::types::DiffHunk> = None;
            core::mem::swap(&mut current, &mut open_hunk);
            match open_hunk {
                Some(mut h) => {
                    if line.len() > 0 && line[0] == '+' {
                        let content = chars_range(line, 1, line.len());
                        proof {
                            assert(content@ =~= full[i as int].skip(1));
                        }
                        let ghost prevl = h.lines.deep_view();
                        h.lines.push(crate::types::DiffLine {
                            content: string_from_chars(&content),
                            line_type: String::from_str("add"),
                            old_line: None,
                            new_line: Some(new_line),
                        });
                        proof {
                            assert(h.lines.deep_view() =~= prevl.push(
                                crate::types::DiffLineView {
                                    content: full[i as int].skip(1),
                                    line_type: "add"@,
                                    old_line: None,
                                    new_line: Some(new_line),
                                },
                            ));
                        }
                        if new_line < usize::MAX {
                            new_line = new_line + 1;
                        }
                        additions = additions + 1;
                    } else if line.len() > 0 && line[0] == '-' {
                        let content = chars_range(line, 1, line.len());
                        proof {
                            assert(content@ =~= full[i as int].skip(1));
                        }
                        let ghost prevl = h.lines.deep_view();
                        h.lines.push(crate::types::DiffLine {
                            content: string_from_chars(&content),
                            line_type: String::from_str("remove"),
                            old_line: Some(old_line),
                            new_line: None,
                        });
                        proof {
                            assert(h.lines.deep_view() =~= prevl.push(
                                crate::types::DiffLineView {
                                    content: full[i as int].skip(1),
                                    line_type: "remove"@,
                                    old_line: Some(old_line),
                                    new_line: None,
                                },
                            ));
                        }
                        if old_line < usize::MAX {
                            old_line = old_line + 1;
                        }
                        deletions = deletions + 1;
                    } else if line.len() > 0 && line[0] == ' ' {
                        let content = chars_range(line, 1, line.len());
                        proof {
                            assert(content@ =~= full[i as int].skip(1));
                        }
                        let ghost prevl = h.lines.deep_view();
                        h.lines.push(crate::types::DiffLine {
                            content: string_from_chars(&content),
                            line_type: String::from_str("context"),
                            old_line: Some(old_line),
                            new_line: Some(new_line),
                        });
                        proof {
                            assert(h.lines.deep_view() =~= prevl.push(
                                crate::types::DiffLineView {
                                    content: full[i as int].skip(1),
                                    line_type: "context"@,
                                    old_line: Some(old_line),
                                    new_line: Some(new_line),
                                },
                            ));
                        }
                        if old_line < usize::MAX {
                            old_line = old_line + 1;
                        }
                        if new_line < usize::MAX {
                            new_line = new_line + 1;
                        }
                    }
                    current = Some(h);
                },
                None => (),
            }
        }
        proof {
            let stepped = diff_line_step(pre, full[i as int]);
            assert(DiffScanState {
                hunks: hunks.deep_view(),
                current: opt_hunk_view(current),
                additions: additions as int,
                deletions: deletions as int,
                old_line,
                new_line,
            } == stepped);
        }
        i = i + 1;
    }
    proof {
        assert(full.skip(n as int) =~= Seq::<Seq<char>>::empty());
    }
    let final_hunks = match current {
        Some(h) => {
            let ghost prevh = hunks.deep_view();
            let ghost hv = h@;
            hunks.push(h);
            proof {
                assert(hunks.deep_view() =~= prevh.push(hv));
            }
            hunks
        },
        None => hunks,
    };
    Ok(
        crate::types::DiffResult {
            path: path.to_owned(),
            hunks: final_hunks,
            additions,
            deletions,
        },
    )
}

/// The diff lines of an untracked file: every content line is an addition,
/// numbered from one.
pub open spec fn untracked_lines(lines: Seq<Seq<char>>) -> Seq<crate::types::DiffLineView> {
    Seq::new(
        lines.len(),
        |i: int|
            crate::types::DiffLineView {
                content: lines[i],
                line_type: "add"@,
                old_line: None,
                new_line: Some((i + 1) as usize),
            },
    )
}

/// Render an untracked file as one all-additions hunk, with a header of the
/// shape `@@ -0,0 +1,count @@`.
pub fn untracked_diff(path: &str, content: &str) -> (r: crate::types::DiffResult)
    ensures
        r@.path == path@,
        r@.additions as int == crate::text::lines_of(content@).len(),
        r@.deletions == 0,
        r@.hunks.len() == 1,
        r@.hunks[0].lines == untracked_lines(crate::text::lines_of(content@)),
        r@.hunks[0].header == "@@ -0,0 +1,"@ + decimal(crate::text::lines_of(content@).len() as nat)
            + " @@"@,
{
    let chars = chars_of(content);
    let lines = crate::text::split_lines(&chars);
    let n = lines.len();
    let ghost full = crate::text::lines_of(content@);
    let mut dlines: Vec<crate::types::DiffLine> = Vec::new();
    let mut i: usize = 0;
    while i < n
        invariant
            i <= n,
            n == lines.len(),
            full == crate::text::lines_of(content@),
            n == full.len(),
            forall|j: int| 0 <= j < n ==> #[trigger] lines@[j]@ == full[j],
            dlines.deep_view() =~= untracked_lines(full).subrange(0, i as int),
        decreases n - i,
    {
        let ghost prev = dlines.deep_view();
        dlines.push(crate::types::DiffLine {
            content: string_from_chars(&lines[i]),
            line_type: String::from_str("add"),
            old_line: None,
            new_line: Some(i + 1),
        });
        proof {
            assert(dlines.deep_view() =~= prev.push(untracked_lines(full)[i as int]));
            assert(untracked_lines(full).subrange(0, i + 1 as int) =~= untracked_lines(
                full,
            ).subrange(0, i as int).push(untracked_lines(full)[i as int]));
        }
        i = i + 1;
    }
    proof {
        assert(untracked_lines(full).subrange(0, n as int) =~= untracked_lines(full));
    }
    let mut header = String::from_str("@@ -0,0 +1,");
    header.append(usize_to_string(n).as_str());
    header.append(" @@");
    let mut hunks: Vec<crate::types::DiffHunk> = Vec::new();
    let ghost dl = dlines.deep_view();
    let ghost hv = header@;
    hunks.push(crate::types::DiffHunk { header, lines: dlines });
    proof {
        assert(hunks.deep_view() =~= seq![
            crate::types::DiffHunkView { header: hv, lines: dl },
        ]);
    }
    crate::types::DiffResult { path: path.to_owned(), hunks, additions: n, deletions: 0 }
}

} // verus!
