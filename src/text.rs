use vstd::prelude::*;

verus! {

/// Index of the first `c` in `s` at or after `start`, or `s.len()`.
pub open spec fn next_index_of(s: Seq<char>, start: int, c: char) -> int
    decreases s.len() - start,
{
    if start >= s.len() {
        s.len() as int
    } else if s[start] == c {
        start
    } else {
        next_index_of(s, start + 1, c)
    }
}

pub proof fn lemma_next_index_of(s: Seq<char>, start: int, c: char)
    requires
        0 <= start <= s.len(),
    ensures
        start <= next_index_of(s, start, c) <= s.len(),
        next_index_of(s, start, c) < s.len() ==> s[next_index_of(s, start, c)] == c,
        forall|k: int| start <= k < next_index_of(s, start, c) ==> s[k] != c,
    decreases s.len() - start,
{
    if start < s.len() && s[start] != c {
        lemma_next_index_of(s, start + 1, c);
    }
}

/// Index of the first `c` in `s` at or after `start`, or the length of `s`.
pub fn find_char(s: &str, start: usize, c: char) -> (r: usize)
    requires
        start <= s@.len(),
    ensures
        r == next_index_of(s@, start as int, c),
{
    let n = s.unicode_len();
    let mut i: usize = start;
    while i < n && s.get_char(i) != c
        invariant
            n == s@.len(),
            start <= i <= n,
            next_index_of(s@, start as int, c) == next_index_of(s@, i as int, c),
        decreases n - i,
    {
        i = i + 1;
    }
    i
}

/// The pieces of `s[start..]` between occurrences of `c`, like `str::split`:
/// there is always at least one piece.
pub open spec fn split_from(s: Seq<char>, start: int, c: char) -> Seq<Seq<char>>
    decreases s.len() - start,
{
    let e = next_index_of(s, start, c);
    if start < 0 || start > s.len() || e < start || e >= s.len() {
        seq![s.subrange(start, s.len() as int)]
    } else {
        seq![s.subrange(start, e)] + split_from(s, e + 1, c)
    }
}

/// The pieces of `s` between occurrences of `c`, like `str::split`.
pub open spec fn split_on(s: Seq<char>, c: char) -> Seq<Seq<char>> {
    split_from(s, 0, c)
}

/// Splits `s` at each `c`.
pub fn split_char(s: &str, c: char) -> (r: Vec<String>)
    ensures
        r.deep_view() == split_on(s@, c),
        r@.len() >= 1,
{
    let n = s.unicode_len();
    let mut r: Vec<String> = Vec::new();
    let mut start: usize = 0;
    loop
        invariant
            n == s@.len(),
            0 <= start <= n,
            r.deep_view() + split_from(s@, start as int, c) == split_on(s@, c),
        decreases n - start,
    {
        let e = find_char(s, start, c);
        proof {
            lemma_next_index_of(s@, start as int, c);
        }
        let piece = s.substring_char(start, e).to_string();
        let ghost before = r.deep_view();
        r.push(piece);
        assert(r.deep_view() =~= before.push(s@.subrange(start as int, e as int)));
        if e >= n {
            assert(r.deep_view() =~= before + split_from(s@, start as int, c));
            return r;
        }
        assert(split_from(s@, start as int, c) == seq![s@.subrange(start as int, e as int)] + split_from(s@, e + 1, c));
        assert(r.deep_view() + split_from(s@, e + 1, c) =~= before + split_from(s@, start as int, c));
        start = e + 1;
    }
}

/// `line` without one trailing carriage return.
pub open spec fn strip_cr(line: Seq<char>) -> Seq<char> {
    if line.len() > 0 && line.last() == '\r' {
        line.drop_last()
    } else {
        line
    }
}

/// The lines of `s[start..]`, like `str::lines`: split at `\n`, a `\r`
/// right before a `\n` dropped, and no empty line after a final `\n`.
pub open spec fn lines_from(s: Seq<char>, start: int) -> Seq<Seq<char>>
    decreases s.len() - start,
{
    if start < 0 || start >= s.len() {
        Seq::empty()
    } else {
        let e = next_index_of(s, start, '\n');
        if e < start || e >= s.len() {
            seq![s.subrange(start, s.len() as int)]
        } else {
            seq![strip_cr(s.subrange(start, e))] + lines_from(s, e + 1)
        }
    }
}

/// Whether `s` ends with `suffix`.
pub open spec fn ends_with(s: Seq<char>, suffix: Seq<char>) -> bool {
    suffix.len() <= s.len() && s.subrange(s.len() - suffix.len(), s.len() as int) == suffix
}

/// Whether `s` ends with `suffix`.
pub fn str_ends_with(s: &str, suffix: &str) -> (r: bool)
    ensures
        r == ends_with(s@, suffix@),
{
    let n = s.unicode_len();
    let m = suffix.unicode_len();
    if m > n {
        return false;
    }
    let off = n - m;
    let mut i: usize = 0;
    while i < m
        invariant
            n == s@.len(),
            m == suffix@.len(),
            off == n - m,
            0 <= i <= m,
            forall|k: int| 0 <= k < i ==> s@[off + k] == suffix@[k],
        decreases m - i,
    {
        if s.get_char(off + i) != suffix.get_char(i) {
            assert(s@.subrange(off as int, n as int)[i as int] != suffix@[i as int]);
            return false;
        }
        i = i + 1;
    }
    assert(s@.subrange(off as int, n as int) =~= suffix@);
    true
}

/// Whether `a` and `b` hold the same characters.
pub fn str_eq(a: &str, b: &str) -> (r: bool)
    ensures
        r == (a@ == b@),
{
    let same_len = a.unicode_len() == b.unicode_len();
    let r = same_len && str_ends_with(a, b);
    proof {
        if same_len {
            assert(a@.subrange(0, a@.len() as int) =~= a@);
        }
    }
    r
}

/// The file name that `/`-separated `pieces` of a path give: the last piece
/// that is neither empty nor `.`, unless that piece is `..`.
pub open spec fn file_name_of(pieces: Seq<Seq<char>>) -> Option<Seq<char>>
    decreases pieces.len(),
{
    if pieces.len() == 0 {
        None
    } else {
        let l = pieces.last();
        if l.len() == 0 || l == seq!['.'] {
            file_name_of(pieces.drop_last())
        } else if l == seq!['.', '.'] {
            None
        } else {
            Some(l)
        }
    }
}

/// The final component of path `p` when it is a name, as `Path::file_name`
/// gives it: empty and `.` components are skipped, and a path that ends in
/// `..` or has no name has none.
pub open spec fn file_name(p: Seq<char>) -> Option<Seq<char>> {
    file_name_of(split_on(p, '/'))
}

/// The file name of path `p`.
pub fn path_file_name(p: &str) -> (r: Option<String>)
    ensures
        match r {
            Some(f) => file_name(p@) == Some(f@),
            None => file_name(p@) is None,
        },
{
    let pieces = split_char(p, '/');
    let ghost all = pieces.deep_view();
    let mut i: usize = pieces.len();
    assert(all.take(i as int) =~= all);
    while i > 0
        invariant
            0 <= i <= pieces@.len(),
            all == pieces.deep_view(),
            all == split_on(p@, '/'),
            file_name_of(all) == file_name_of(all.take(i as int)),
        decreases i,
    {
        let piece = pieces[i - 1].as_str();
        let ghost t = all.take(i as int);
        assert(t.last() == piece@);
        assert(t.drop_last() =~= all.take(i - 1));
        proof {
            reveal_strlit(".");
            reveal_strlit("..");
            assert("."@ =~= seq!['.']);
            assert(".."@ =~= seq!['.', '.']);
        }
        if piece.unicode_len() == 0 || str_eq(piece, ".") {
            i = i - 1;
        } else if str_eq(piece, "..") {
            return None;
        } else {
            return Some(piece.to_string());
        }
    }
    None
}

} // verus!
