//! Character-level helpers shared by the parsing code: trimming, searching,
//! ASCII lowering, and conversions between `&str` and `Vec<char>`.

use vstd::prelude::*;
use vstd::string::StrSliceExecFns;

verus! {

/// Characters discarded when line content is trimmed.
pub open spec fn is_blank(c: char) -> bool {
    c == ' ' || c == '\t' || c == '\r' || c == '\n'
}

/// Executable test for [`is_blank`].
pub fn blank(c: char) -> (r: bool)
    ensures
        r == is_blank(c),
{
    c == ' ' || c == '\t' || c == '\r' || c == '\n'
}

/// `s` without its leading blank characters.
pub open spec fn trim_front(s: Seq<char>) -> Seq<char>
    decreases s.len(),
{
    if s.len() == 0 {
        s
    } else if is_blank(s[0]) {
        trim_front(s.drop_first())
    } else {
        s
    }
}

/// `s` without its trailing blank characters.
pub open spec fn trim_back(s: Seq<char>) -> Seq<char>
    decreases s.len(),
{
    if s.len() == 0 {
        s
    } else if is_blank(s.last()) {
        trim_back(s.drop_last())
    } else {
        s
    }
}

/// `s` with blank characters removed from both ends.
pub open spec fn trimmed(s: Seq<char>) -> Seq<char> {
    trim_back(trim_front(s))
}

/// If everything before `i` is blank and position `i` (when it exists) is not,
/// then trimming the front of `s` drops exactly the first `i` characters.
pub proof fn lemma_trim_front_at(s: Seq<char>, i: int)
    requires
        0 <= i <= s.len(),
        forall|j: int| 0 <= j < i ==> is_blank(s[j]),
        i < s.len() ==> !is_blank(s[i]),
    ensures
        trim_front(s) =~= s.subrange(i, s.len() as int),
    decreases i,
{
    if i == 0 {
        assert(trim_front(s) =~= s.subrange(0, s.len() as int)) by {
            if s.len() > 0 {
                assert(!is_blank(s[0]));
            }
        }
    } else {
        assert(is_blank(s[0]));
        assert(s.len() > 0);
        lemma_trim_front_at(s.drop_first(), i - 1);
        assert(s.drop_first().subrange(i - 1, s.drop_first().len() as int) =~= s.subrange(
            i,
            s.len() as int,
        ));
    }
}

/// If everything from `k` on is blank and position `k - 1` (when it exists) is
/// not, then trimming the back of `s` keeps exactly the first `k` characters.
pub proof fn lemma_trim_back_at(s: Seq<char>, k: int)
    requires
        0 <= k <= s.len(),
        forall|j: int| k <= j < s.len() ==> is_blank(s[j]),
        k > 0 ==> !is_blank(s[k - 1]),
    ensures
        trim_back(s) =~= s.subrange(0, k),
    decreases s.len() - k,
{
    if k == s.len() {
        assert(trim_back(s) =~= s.subrange(0, k)) by {
            if s.len() > 0 {
                assert(!is_blank(s.last()));
            }
        }
    } else {
        assert(is_blank(s.last()));
        lemma_trim_back_at(s.drop_last(), k);
        assert(s.drop_last().subrange(0, k) =~= s.subrange(0, k));
    }
}

/// Copy of `v` with blank characters removed from both ends.
pub fn trim_chars(v: &Vec<char>) -> (r: Vec<char>)
    ensures
        r@ == trimmed(v@),
{
    let n = v.len();
    let mut lo: usize = 0;
    while lo < n && blank(v[lo])
        invariant
            lo <= n,
            n == v.len(),
            forall|j: int| 0 <= j < lo ==> is_blank(v@[j]),
        decreases n - lo,
    {
        lo = lo + 1;
    }
    let mut hi: usize = n;
    while hi > lo && blank(v[hi - 1])
        invariant
            lo <= hi <= n,
            n == v.len(),
            forall|j: int| hi <= j < n ==> is_blank(v@[j]),
        decreases hi,
    {
        hi = hi - 1;
    }
    proof {
        lemma_trim_front_at(v@, lo as int);
        lemma_trim_back_at(v@.subrange(lo as int, n as int), hi - lo);
        assert(v@.subrange(lo as int, n as int).subrange(0, hi - lo) =~= v@.subrange(
            lo as int,
            hi as int,
        ));
    }
    let mut r: Vec<char> = Vec::new();
    let mut i: usize = lo;
    while i < hi
        invariant
            lo <= i <= hi <= n,
            n == v.len(),
            r@ == v@.subrange(lo as int, i as int),
        decreases hi - i,
    {
        r.push(v[i]);
        proof {
            assert(v@.subrange(lo as int, i + 1 as int) =~= v@.subrange(lo as int, i as int).push(
                v@[i as int],
            ));
        }
        i = i + 1;
    }
    r
}

/// Index of the first occurrence of `c` in `s`, or `-1` if absent.
pub open spec fn find_char(s: Seq<char>, c: char) -> int
    decreases s.len(),
{
    if s.len() == 0 {
        -1
    } else if s[0] == c {
        0
    } else if find_char(s.drop_first(), c) == -1 {
        -1
    } else {
        find_char(s.drop_first(), c) + 1
    }
}

/// Characterization of [`find_char`]: `-1` means the character is absent;
/// otherwise it is the first position holding `c`.
pub proof fn lemma_find_char(s: Seq<char>, c: char)
    ensures
        find_char(s, c) == -1 ==> forall|i: int| 0 <= i < s.len() ==> s[i] != c,
        find_char(s, c) != -1 ==> 0 <= find_char(s, c) < s.len() && s[find_char(s, c)] == c && (
        forall|i: int| 0 <= i < find_char(s, c) ==> s[i] != c),
    decreases s.len(),
{
    if s.len() > 0 && s[0] != c {
        lemma_find_char(s.drop_first(), c);
        let f = find_char(s.drop_first(), c);
        if f == -1 {
            assert forall|i: int| 0 <= i < s.len() implies s[i] != c by {
                if i >= 1 {
                    assert(s[i] == s.drop_first()[i - 1]);
                }
            }
        } else {
            assert(s[f + 1] == s.drop_first()[f]);
            assert forall|i: int| 0 <= i < f + 1 implies s[i] != c by {
                if i >= 1 {
                    assert(s[i] == s.drop_first()[i - 1]);
                }
            }
        }
    }
}

/// Executable search for the first occurrence of `c` in `v`.
pub fn find_char_in(v: &Vec<char>, c: char) -> (r: Option<usize>)
    ensures
        match r {
            Some(i) => find_char(v@, c) == i && i < v.len() && v@[i as int] == c,
            None => find_char(v@, c) == -1,
        },
{
    let n = v.len();
    let mut i: usize = 0;
    while i < n
        invariant
            i <= n,
            n == v.len(),
            forall|j: int| 0 <= j < i ==> v@[j] != c,
        decreases n - i,
    {
        if v[i] == c {
            proof {
                lemma_find_char(v@, c);
            }
            return Some(i);
        }
        i = i + 1;
    }
    proof {
        lemma_find_char(v@, c);
    }
    None
}

/// Everything after the first occurrence of `c`, or the empty sequence if `c`
/// does not occur.
pub open spec fn after_first(s: Seq<char>, c: char) -> Seq<char> {
    if find_char(s, c) == -1 {
        Seq::empty()
    } else {
        s.subrange(find_char(s, c) + 1, s.len() as int)
    }
}

/// ASCII uppercase letters mapped to lowercase; everything else unchanged.
pub open spec fn lower_char(c: char) -> char {
    if 'A' <= c && c <= 'Z' {
        (((c as u32) + 32) as u8) as char
    } else {
        c
    }
}

/// `s` lowered character by character.
pub open spec fn lower(s: Seq<char>) -> Seq<char> {
    s.map_values(|c: char| lower_char(c))
}

/// Executable form of [`lower_char`].
pub fn to_lower(c: char) -> (r: char)
    ensures
        r == lower_char(c),
{
    if 'A' <= c && c <= 'Z' {
        (((c as u32) + 32) as u8) as char
    } else {
        c
    }
}

/// Copy of `v` lowered character by character.
pub fn lower_chars(v: &Vec<char>) -> (r: Vec<char>)
    ensures
        r@ == lower(v@),
{
    let n = v.len();
    let mut r: Vec<char> = Vec::new();
    let mut i: usize = 0;
    while i < n
        invariant
            i <= n,
            n == v.len(),
            r@ == lower(v@.subrange(0, i as int)),
        decreases n - i,
    {
        r.push(to_lower(v[i]));
        proof {
            assert(lower(v@.subrange(0, i + 1 as int)) =~= lower(v@.subrange(0, i as int)).push(
                lower_char(v@[i as int]),
            ));
        }
        i = i + 1;
    }
    proof {
        assert(v@.subrange(0, n as int) =~= v@);
    }
    r
}

/// `p` is an initial segment of `s`.
pub open spec fn has_prefix(s: Seq<char>, p: Seq<char>) -> bool {
    p.len() <= s.len() && (forall|i: int| 0 <= i < p.len() ==> s[i] == #[trigger] p[i])
}

/// Executable test for [`has_prefix`].
pub fn starts_with_chars(v: &Vec<char>, p: &Vec<char>) -> (r: bool)
    ensures
        r == has_prefix(v@, p@),
{
    let m = p.len();
    if m > v.len() {
        return false;
    }
    let mut i: usize = 0;
    while i < m
        invariant
            i <= m,
            m == p.len(),
            m <= v.len(),
            forall|j: int| 0 <= j < i ==> v@[j] == #[trigger] p@[j],
        decreases m - i,
    {
        if v[i] != p[i] {
            return false;
        }
        i = i + 1;
    }
    true
}

/// The characters of `s`, in order.
pub fn chars_of(s: &str) -> (r: Vec<char>)
    ensures
        r@ == s@,
{
    let n = s.unicode_len();
    let mut r: Vec<char> = Vec::new();
    let mut i: usize = 0;
    while i < n
        invariant
            i <= n,
            n == s@.len(),
            r@ == s@.subrange(0, i as int),
        decreases n - i,
    {
        r.push(s.get_char(i));
        proof {
            assert(s@.subrange(0, i + 1 as int) =~= s@.subrange(0, i as int).push(s@[i as int]));
        }
        i = i + 1;
    }
    proof {
        assert(s@.subrange(0, n as int) =~= s@);
    }
    r
}

/// `s` without one trailing carriage return, if it ends in one.
pub open spec fn strip_cr(s: Seq<char>) -> Seq<char> {
    if s.len() > 0 && s.last() == '\r' {
        s.drop_last()
    } else {
        s
    }
}

/// The lines of `s`, split on line feeds, each without a trailing carriage
/// return; a trailing line feed produces no empty final line.
pub open spec fn lines_of(s: Seq<char>) -> Seq<Seq<char>>
    decreases s.len(),
    via lines_of_decreases
{
    if s.len() == 0 {
        Seq::empty()
    } else if find_char(s, '\n') == -1 {
        seq![strip_cr(s)]
    } else {
        seq![strip_cr(s.subrange(0, find_char(s, '\n')))] + lines_of(
            s.subrange(find_char(s, '\n') + 1, s.len() as int),
        )
    }
}

#[via_fn]
proof fn lines_of_decreases(s: Seq<char>) {
    lemma_find_char(s, '\n');
}

/// `p` occurs in `s` as a contiguous subsequence.
pub open spec fn contains_seq(s: Seq<char>, p: Seq<char>) -> bool {
    exists|k: int|
        0 <= k <= s.len() - p.len() && #[trigger] s.subrange(k, k + p.len() as int) == p
}

/// Executable test for [`contains_seq`].
pub fn contains_chars(v: &Vec<char>, p: &Vec<char>) -> (r: bool)
    ensures
        r == contains_seq(v@, p@),
{
    let n = v.len();
    let m = p.len();
    if m > n {
        proof {
            assert forall|k: int| !(0 <= k <= v@.len() - p@.len()
                && #[trigger] v@.subrange(k, k + p@.len() as int) == p@) by {}
        }
        return false;
    }
    if m == 0 {
        proof {
            assert(v@.subrange(0, 0 + p@.len() as int) =~= p@);
        }
        return true;
    }
    let mut k: usize = 0;
    while k <= n - m
        invariant
            1 <= m <= n,
            n == v.len(),
            m == p.len(),
            k <= n - m + 1,
            forall|q: int|
                0 <= q < k ==> #[trigger] v@.subrange(q, q + p@.len() as int) != p@,
        decreases n + 1 - m - k,
    {
        if matches_at(v, p, k) {
            return true;
        }
        k = k + 1;
    }
    proof {
        assert forall|q: int|
            0 <= q <= v@.len() - p@.len() implies #[trigger] v@.subrange(
            q,
            q + p@.len() as int,
        ) != p@ by {
            assert(q < k);
        }
    }
    false
}

/// Whether `p` occurs in `v` starting at position `k`.
fn matches_at(v: &Vec<char>, p: &Vec<char>, k: usize) -> (r: bool)
    requires
        k + p.len() <= v.len(),
    ensures
        r == (v@.subrange(k as int, k + p@.len() as int) == p@),
{
    let m = p.len();
    let mut j: usize = 0;
    while j < m
        invariant
            j <= m,
            m == p.len(),
            k + m <= v.len(),
            forall|t: int| 0 <= t < j ==> v@[k + t] == #[trigger] p@[t],
        decreases m - j,
    {
        if v[k + j] != p[j] {
            proof {
                assert(v@.subrange(k as int, k + p@.len() as int)[j as int] == v@[k + j]);
            }
            return false;
        }
        j = j + 1;
    }
    proof {
        assert(v@.subrange(k as int, k + p@.len() as int) =~= p@);
    }
    true
}

/// The lines of `v`; see [`lines_of`].
pub fn split_lines(v: &Vec<char>) -> (r: Vec<Vec<char>>)
    ensures
        r@.len() == lines_of(v@).len(),
        forall|i: int| 0 <= i < r@.len() ==> #[trigger] r@[i]@ == lines_of(v@)[i],
{
    let n = v.len();
    let mut r: Vec<Vec<char>> = Vec::new();
    let mut pos: usize = 0;
    let ghost mut done: Seq<Seq<char>> = Seq::empty();
    proof {
        assert(v@.skip(0) =~= v@);
        assert(Seq::<Seq<char>>::empty() + lines_of(v@) =~= lines_of(v@));
    }
    while pos < n
        invariant
            pos <= n,
            n == v.len(),
            lines_of(v@) =~= done + lines_of(v@.skip(pos as int)),
            done.len() == r@.len(),
            forall|i: int| 0 <= i < done.len() ==> #[trigger] r@[i]@ == done[i],
        decreases n - pos,
    {
        let ghost rest = v@.skip(pos as int);
        let mut j: usize = pos;
        while j < n && v[j] != '\n'
            invariant
                pos <= j <= n,
                n == v.len(),
                forall|t: int| pos <= t < j ==> v@[t] != '\n',
            decreases n - j,
        {
            j = j + 1;
        }
        proof {
            assert forall|t: int| 0 <= t < j - pos implies rest[t] != '\n' by {
                assert(rest[t] == v@[pos + t]);
            }
            lemma_find_char(rest, '\n');
            if j < n {
                assert(rest[j - pos] == v@[j as int]);
                assert(find_char(rest, '\n') == j - pos);
            } else {
                assert(find_char(rest, '\n') == -1);
            }
        }
        let mut endex = j;
        if endex > pos && v[endex - 1] == '\r' {
            endex = endex - 1;
        }
        let seg = chars_range(v, pos, endex);
        proof {
            if j < n {
                assert(rest.subrange(0, j - pos) =~= v@.subrange(pos as int, j as int));
                assert(seg@ =~= strip_cr(rest.subrange(0, j - pos)));
                assert(rest.subrange(j - pos + 1, rest.len() as int) =~= v@.skip(j + 1 as int));
            } else {
                assert(rest =~= v@.subrange(pos as int, n as int));
                assert(seg@ =~= strip_cr(rest));
            }
        }
        let ghost segv = seg@;
        r.push(seg);
        proof {
            done = done.push(segv);
            if j < n {
                assert(done + lines_of(v@.skip(j + 1 as int)) =~= done.drop_last() + lines_of(
                    rest,
                ));
            } else {
                assert(lines_of(v@.skip(n as int)) =~= Seq::<Seq<char>>::empty()) by {
                    assert(v@.skip(n as int) =~= Seq::<char>::empty());
                }
                assert(done + lines_of(v@.skip(n as int)) =~= done.drop_last() + lines_of(rest));
            }
        }
        if j < n {
            pos = j + 1;
        } else {
            pos = n;
        }
    }
    proof {
        assert(v@.skip(n as int) =~= Seq::<char>::empty());
        assert(done + lines_of(Seq::<char>::empty()) =~= done);
    }
    r
}


/// Equality of two character buffers.
pub fn chars_eq(a: &Vec<char>, b: &Vec<char>) -> (r: bool)
    ensures
        r == (a@ == b@),
{
    let n = a.len();
    if n != b.len() {
        proof {
            assert(a@ != b@);
        }
        return false;
    }
    let mut i: usize = 0;
    while i < n
        invariant
            i <= n,
            n == a.len(),
            n == b.len(),
            forall|j: int| 0 <= j < i ==> a@[j] == b@[j],
        decreases n - i,
    {
        if a[i] != b[i] {
            return false;
        }
        i = i + 1;
    }
    proof {
        assert(a@ =~= b@);
    }
    true
}

/// First index at which `p` occurs in `s`, or `-1`.
pub open spec fn find_sub(s: Seq<char>, p: Seq<char>) -> int
    decreases s.len(),
{
    if has_prefix(s, p) {
        0
    } else if s.len() == 0 {
        -1
    } else if find_sub(s.drop_first(), p) == -1 {
        -1
    } else {
        find_sub(s.drop_first(), p) + 1
    }
}

/// Characterization of [`find_sub`]: `-1` means `p` occurs nowhere; otherwise
/// it is the first position where `p` occurs.
pub proof fn lemma_find_sub(s: Seq<char>, p: Seq<char>)
    ensures
        find_sub(s, p) == -1 ==> forall|k: int|
            0 <= k <= s.len() - p.len() ==> #[trigger] s.subrange(k, k + p.len() as int) != p,
        find_sub(s, p) != -1 ==> 0 <= find_sub(s, p) <= s.len() - p.len() && s.subrange(
            find_sub(s, p),
            find_sub(s, p) + p.len() as int,
        ) == p && (forall|k: int|
            0 <= k < find_sub(s, p) ==> #[trigger] s.subrange(k, k + p.len() as int) != p),
    decreases s.len(),
{
    if has_prefix(s, p) {
        assert(s.subrange(0, p.len() as int) =~= p);
    } else if s.len() == 0 {
    } else {
        lemma_find_sub(s.drop_first(), p);
        let f = find_sub(s.drop_first(), p);
        if f == -1 {
            assert forall|k: int|
                0 <= k <= s.len() - p.len() implies #[trigger] s.subrange(
                k,
                k + p.len() as int,
            ) != p by {
                if k == 0 {
                    if s.subrange(0, p.len() as int) == p {
                        assert(forall|i: int|
                            0 <= i < p.len() ==> s.subrange(0, p.len() as int)[i]
                                == #[trigger] p[i]);
                        assert(has_prefix(s, p));
                    }
                } else {
                    assert(s.subrange(k, k + p.len() as int) =~= s.drop_first().subrange(
                        k - 1,
                        k - 1 + p.len() as int,
                    ));
                }
            }
        } else {
            assert(s.subrange(f + 1, f + 1 + p.len() as int) =~= s.drop_first().subrange(
                f,
                f + p.len() as int,
            ));
            assert forall|k: int| 0 <= k < f + 1 implies #[trigger] s.subrange(
                k,
                k + p.len() as int,
            ) != p by {
                if k == 0 {
                    if s.subrange(0, p.len() as int) == p {
                        assert(forall|i: int|
                            0 <= i < p.len() ==> s.subrange(0, p.len() as int)[i]
                                == #[trigger] p[i]);
                        assert(has_prefix(s, p));
                    }
                } else {
                    assert(s.subrange(k, k + p.len() as int) =~= s.drop_first().subrange(
                        k - 1,
                        k - 1 + p.len() as int,
                    ));
                }
            }
        }
    }
}

/// Executable search for the first occurrence of `p` in `v`.
pub fn find_sub_in(v: &Vec<char>, p: &Vec<char>) -> (r: Option<usize>)
    ensures
        match r {
            Some(i) => find_sub(v@, p@) == i && i + p@.len() <= v@.len(),
            None => find_sub(v@, p@) == -1,
        },
{
    let n = v.len();
    let m = p.len();
    if m > n {
        proof {
            lemma_find_sub(v@, p@);
            if find_sub(v@, p@) != -1 {
                assert(false);
            }
        }
        return None;
    }
    if m == 0 {
        proof {
            assert(has_prefix(v@, p@));
        }
        return Some(0);
    }
    let mut k: usize = 0;
    while k <= n - m
        invariant
            1 <= m <= n,
            n == v.len(),
            m == p.len(),
            k <= n - m + 1,
            forall|q: int|
                0 <= q < k ==> #[trigger] v@.subrange(q, q + p@.len() as int) != p@,
        decreases n + 1 - m - k,
    {
        if matches_at(v, p, k) {
            proof {
                lemma_find_sub(v@, p@);
            }
            return Some(k);
        }
        k = k + 1;
    }
    proof {
        lemma_find_sub(v@, p@);
        if find_sub(v@, p@) != -1 {
            assert(v@.subrange(
                find_sub(v@, p@),
                find_sub(v@, p@) + p@.len() as int,
            ) != p@);
        }
    }
    None
}

/// Relies on `String`\'s `FromIterator<char>`: collecting characters yields the
/// string made of exactly those characters, in order.
#[verifier::external_body]
pub fn string_from_chars(v: &Vec<char>) -> (r: String)
    ensures
        r@ == v@,
{
    v.iter().collect()
}

/// Copy of `v[lo..hi]`.
pub fn chars_range(v: &Vec<char>, lo: usize, hi: usize) -> (r: Vec<char>)
    requires
        lo <= hi <= v.len(),
    ensures
        r@ == v@.subrange(lo as int, hi as int),
{
    let mut r: Vec<char> = Vec::new();
    let mut i: usize = lo;
    while i < hi
        invariant
            lo <= i <= hi <= v.len(),
            r@ == v@.subrange(lo as int, i as int),
        decreases hi - i,
    {
        r.push(v[i]);
        proof {
            assert(v@.subrange(lo as int, i + 1 as int) =~= v@.subrange(lo as int, i as int).push(
                v@[i as int],
            ));
        }
        i = i + 1;
    }
    r
}

} // verus!

verus! {

/// `a` is lexicographically no later than `b`, comparing code points.
pub open spec fn lex_le(a: Seq<char>, b: Seq<char>) -> bool
    decreases a.len(),
{
    if a.len() == 0 {
        true
    } else if b.len() == 0 {
        false
    } else if a[0] != b[0] {
        (a[0] as int) < (b[0] as int)
    } else {
        lex_le(a.drop_first(), b.drop_first())
    }
}

/// The order is total: one direction always holds.
pub proof fn lemma_lex_le_total(a: Seq<char>, b: Seq<char>)
    ensures
        lex_le(a, b) || lex_le(b, a),
    decreases a.len(),
{
    if a.len() > 0 && b.len() > 0 && a[0] == b[0] {
        lemma_lex_le_total(a.drop_first(), b.drop_first());
    }
}

/// The order is transitive.
pub proof fn lemma_lex_le_trans(a: Seq<char>, b: Seq<char>, c: Seq<char>)
    requires
        lex_le(a, b),
        lex_le(b, c),
    ensures
        lex_le(a, c),
    decreases a.len(),
{
    if a.len() > 0 && b.len() > 0 && c.len() > 0 {
        if a[0] == b[0] && b[0] == c[0] {
            lemma_lex_le_trans(a.drop_first(), b.drop_first(), c.drop_first());
        }
    }
}

/// Comparison is decided after a common prefix.
proof fn lemma_lex_le_skip(a: Seq<char>, b: Seq<char>, i: int)
    requires
        0 <= i <= a.len(),
        i <= b.len(),
        forall|j: int| 0 <= j < i ==> a[j] == b[j],
    ensures
        lex_le(a, b) == lex_le(a.skip(i), b.skip(i)),
    decreases i,
{
    if i > 0 {
        assert(a.len() > 0 && b.len() > 0);
        assert(a[0] == b[0]);
        lemma_lex_le_skip(a.drop_first(), b.drop_first(), i - 1);
        assert(a.drop_first().skip(i - 1) =~= a.skip(i));
        assert(b.drop_first().skip(i - 1) =~= b.skip(i));
    } else {
        assert(a.skip(0) =~= a);
        assert(b.skip(0) =~= b);
    }
}

/// Executable test for [`lex_le`].
pub fn lex_le_chars(a: &Vec<char>, b: &Vec<char>) -> (r: bool)
    ensures
        r == lex_le(a@, b@),
{
    let n = a.len();
    let m = b.len();
    let mut i: usize = 0;
    while i < n && i < m
        invariant
            i <= n,
            i <= m,
            n == a.len(),
            m == b.len(),
            forall|j: int| 0 <= j < i ==> a@[j] == b@[j],
        decreases n - i,
    {
        if a[i] != b[i] {
            proof {
                lemma_lex_le_skip(a@, b@, i as int);
                assert(a@.skip(i as int).len() > 0);
                assert(b@.skip(i as int).len() > 0);
                assert(a@.skip(i as int)[0] == a@[i as int]);
                assert(b@.skip(i as int)[0] == b@[i as int]);
                assert(lex_le(a@.skip(i as int), b@.skip(i as int)) == ((a@[i as int] as int) < (
                b@[i as int] as int)));
            }
            return a[i] < b[i];
        }
        i = i + 1;
    }
    proof {
        lemma_lex_le_skip(a@, b@, i as int);
    }
    i == n
}

} // verus!
