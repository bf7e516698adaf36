use vstd::prelude::*;
use crate::listing::{FileSize, FileType, ListItem, SizeUnit, MAX_DECIMALS};
use crate::task::{last_path_segment, last_segment};
use crate::text::{ends_with, str_ends_with, str_eq};
use crate::yum::{joined_url, url_join};

verus! {

pub open spec fn is_digit(c: char) -> bool {
    '0' <= c <= '9'
}

/// End of the run of decimal digits in `s` that starts at `from`.
pub open spec fn digit_run(s: Seq<char>, from: int) -> int
    decreases s.len() - from,
{
    if from < 0 || from >= s.len() || !is_digit(s[from]) {
        from
    } else {
        digit_run(s, from + 1)
    }
}

proof fn lemma_digit_run(s: Seq<char>, from: int)
    requires
        0 <= from <= s.len(),
    ensures
        from <= digit_run(s, from) <= s.len(),
        forall|k: int| from <= k < digit_run(s, from) ==> is_digit(s[k]),
        digit_run(s, from) < s.len() ==> !is_digit(s[digit_run(s, from)]),
    decreases s.len() - from,
{
    if from < s.len() && is_digit(s[from]) {
        lemma_digit_run(s, from + 1);
    }
}

/// The number that the decimal digits `d` write.
pub open spec fn digits_value(d: Seq<char>) -> nat
    decreases d.len(),
{
    if d.len() == 0 {
        0
    } else {
        digits_value(d.drop_last()) * 10 + (d.last() as nat - '0' as nat) as nat
    }
}

/// The unit a size suffix names: empty or `B` for bytes, or one of
/// `K M G T P` (either case), each optionally after one space and optionally
/// followed by `B` or `iB`.
pub open spec fn unit_of_suffix(s: Seq<char>) -> Option<SizeUnit> {
    let t = if s.len() > 0 && s[0] == ' ' { s.drop_first() } else { s };
    if t.len() == 0 {
        Some(SizeUnit::B)
    } else {
        let tail = t.drop_first();
        let unit = letter_unit(t[0]);
        if unit is Some && (tail.len() == 0 || tail == seq!['B'] || tail == seq!['i', 'B']) {
            if unit == Some(SizeUnit::B) && tail.len() > 0 { None } else { unit }
        } else {
            None
        }
    }
}

pub open spec fn letter_unit(c: char) -> Option<SizeUnit> {
    if c == 'B' || c == 'b' {
        Some(SizeUnit::B)
    } else if c == 'K' || c == 'k' {
        Some(SizeUnit::K)
    } else if c == 'M' || c == 'm' {
        Some(SizeUnit::M)
    } else if c == 'G' || c == 'g' {
        Some(SizeUnit::G)
    } else if c == 'T' || c == 't' {
        Some(SizeUnit::T)
    } else if c == 'P' || c == 'p' {
        Some(SizeUnit::P)
    } else {
        None
    }
}

fn letter_unit_exec(c: char) -> (r: Option<SizeUnit>)
    ensures
        r == letter_unit(c),
{
    if c == 'B' || c == 'b' {
        Some(SizeUnit::B)
    } else if c == 'K' || c == 'k' {
        Some(SizeUnit::K)
    } else if c == 'M' || c == 'm' {
        Some(SizeUnit::M)
    } else if c == 'G' || c == 'g' {
        Some(SizeUnit::G)
    } else if c == 'T' || c == 't' {
        Some(SizeUnit::T)
    } else if c == 'P' || c == 'p' {
        Some(SizeUnit::P)
    } else {
        None
    }
}

/// A humanized size such as `1767`, `12K` or `1.5 MiB`: digits, optionally a
/// point and one to three decimals, then a unit suffix.
pub open spec fn parse_humanized(s: Seq<char>) -> Option<FileSize> {
    let a = digit_run(s, 0);
    let has_point = a < s.len() && s[a] == '.';
    let b = if has_point { digit_run(s, a + 1) } else { a };
    let decimals = if has_point { b - a - 1 } else { 0 };
    let digits = if has_point { s.subrange(0, a) + s.subrange(a + 1, b) } else { s.subrange(0, a) };
    if a == 0 || (has_point && (decimals == 0 || decimals > MAX_DECIMALS)) || digits_value(digits) > u64::MAX {
        None
    } else {
        match unit_of_suffix(s.subrange(b, s.len() as int)) {
            None => None,
            Some(u) => Some(FileSize::HumanizedBinary {
                digits: digits_value(digits) as u64,
                decimals: decimals as u8,
                unit: u,
            }),
        }
    }
}

proof fn lemma_digits_value_grows(d: Seq<char>, e: Seq<char>)
    requires
        forall|k: int| 0 <= k < e.len() ==> is_digit(e[k]),
    ensures
        digits_value(d + e) >= digits_value(d),
    decreases e.len(),
{
    if e.len() > 0 {
        lemma_digits_value_grows(d, e.drop_last());
        assert((d + e).drop_last() =~= d + e.drop_last());
    }
}

/// Adds the digits `s[from..to]` to `acc`; `None` on overflow.
fn accumulate_digits(s: &str, from: usize, to: usize, acc: u64, Ghost(prefix): Ghost<Seq<char>>) -> (r: Option<u64>)
    requires
        from <= to <= s@.len(),
        forall|k: int| from <= k < to ==> is_digit(s@[k]),
        acc == digits_value(prefix),
    ensures
        match r {
            Some(v) => v == digits_value(prefix + s@.subrange(from as int, to as int)),
            None => digits_value(prefix + s@.subrange(from as int, to as int)) > u64::MAX,
        },
{
    let mut v: u64 = acc;
    let mut i: usize = from;
    while i < to
        invariant
            from <= i <= to <= s@.len(),
            forall|k: int| from <= k < to ==> is_digit(s@[k]),
            v == digits_value(prefix + s@.subrange(from as int, i as int)),
        decreases to - i,
    {
        let c = s.get_char(i);
        let d = (c as u32 - '0' as u32) as u64;
        let ghost cur = prefix + s@.subrange(from as int, i as int);
        let ghost next = prefix + s@.subrange(from as int, i + 1);
        assert(next.drop_last() =~= cur);
        assert(next.last() == c);
        proof {
            let rest = s@.subrange(i + 1, to as int);
            assert(prefix + s@.subrange(from as int, to as int) =~= next + rest);
            lemma_digits_value_grows(next, rest);
        }
        if v > (u64::MAX - d) / 10 {
            assert(digits_value(next) > u64::MAX) by (nonlinear_arith)
                requires digits_value(next) == v * 10 + d, v > (u64::MAX - d) / 10, d <= 9;
            return None;
        }
        assert(v * 10 + d <= u64::MAX) by (nonlinear_arith)
            requires v <= (u64::MAX - d) / 10, d <= 9;
        v = v * 10 + d;
        i = i + 1;
    }
    Some(v)
}

/// Reads a humanized size.
pub fn get_humanized(s: &str) -> (r: Option<FileSize>)
    ensures
        r == parse_humanized(s@),
        r matches Some(f) ==> f.wf(),
{
    let n = s.unicode_len();
    let mut a: usize = 0;
    while a < n && '0' <= s.get_char(a) && s.get_char(a) <= '9'
        invariant
            a <= n == s@.len(),
            digit_run(s@, 0) == digit_run(s@, a as int),
        decreases n - a,
    {
        a = a + 1;
    }
    proof {
        lemma_digit_run(s@, 0);
    }
    if a == 0 {
        return None;
    }
    let has_point = a < n && s.get_char(a) == '.';
    let mut b: usize = a;
    if has_point {
        b = a + 1;
        while b < n && '0' <= s.get_char(b) && s.get_char(b) <= '9'
            invariant
                a < b <= n == s@.len(),
                digit_run(s@, a + 1) == digit_run(s@, b as int),
            decreases n - b,
        {
            b = b + 1;
        }
        proof {
            lemma_digit_run(s@, a + 1);
        }
        if b - a - 1 == 0 || b - a - 1 > MAX_DECIMALS as usize {
            return None;
        }
    }
    let ghost empty = Seq::<char>::empty();
    let int_part = match accumulate_digits(s, 0, a, 0, Ghost(empty)) {
        Some(v) => v,
        None => {
            assert(empty + s@.subrange(0, a as int) =~= s@.subrange(0, a as int));
            if has_point {
                proof {
                    lemma_digit_run(s@, a + 1);
                    lemma_digits_value_grows(s@.subrange(0, a as int), s@.subrange(a + 1, b as int));
                }
            }
            return None;
        },
    };
    assert(empty + s@.subrange(0, a as int) =~= s@.subrange(0, a as int));
    let mut value = int_part;
    let mut decimals: u8 = 0;
    if has_point {
        value = match accumulate_digits(s, a + 1, b, int_part, Ghost(s@.subrange(0, a as int))) {
            Some(v) => v,
            None => return None,
        };
        decimals = (b - a - 1) as u8;
    }
    let rest = s.substring_char(b, n);
    let unit = match unit_suffix(rest) {
        Some(u) => u,
        None => return None,
    };
    Some(FileSize::HumanizedBinary { digits: value, decimals, unit })
}

fn unit_suffix(s: &str) -> (r: Option<SizeUnit>)
    ensures
        r == unit_of_suffix(s@),
{
    let n = s.unicode_len();
    let start: usize = if n > 0 && s.get_char(0) == ' ' { 1 } else { 0 };
    let ghost t = if s@.len() > 0 && s@[0] == ' ' { s@.drop_first() } else { s@ };
    assert(t =~= s@.subrange(start as int, n as int));
    if start == n {
        return Some(SizeUnit::B);
    }
    let unit = letter_unit_exec(s.get_char(start));
    let tail_len = n - start - 1;
    let ghost tail = t.drop_first();
    assert(tail =~= s@.subrange(start + 1, n as int));
    let tail_ok = tail_len == 0
        || (tail_len == 1 && s.get_char(start + 1) == 'B')
        || (tail_len == 2 && s.get_char(start + 1) == 'i' && s.get_char(start + 2) == 'B');
    proof {
        if tail_len == 1 && s@[start + 1] == 'B' {
            assert(tail =~= seq!['B']);
        }
        if tail_len == 2 && s@[start + 1] == 'i' && s@[start + 2] == 'B' {
            assert(tail =~= seq!['i', 'B']);
        }
        if tail == seq!['B'] {
            assert(tail[0] == 'B');
        }
        if tail == seq!['i', 'B'] {
            assert(tail[0] == 'i' && tail[1] == 'B');
        }
    }
    match unit {
        Some(u) => {
            if !tail_ok || (u == SizeUnit::B && tail_len > 0) {
                None
            } else {
                Some(u)
            }
        },
        None => None,
    }
}

/// Whether `c` has the Unicode `White_Space` property.
pub open spec fn is_white_space(c: char) -> bool {
    ('\u{9}' <= c && c <= '\u{d}') || c == ' ' || c == '\u{85}' || c == '\u{a0}' || c == '\u{1680}'
        || ('\u{2000}' <= c && c <= '\u{200a}') || c == '\u{2028}' || c == '\u{2029}'
        || c == '\u{202f}' || c == '\u{205f}' || c == '\u{3000}'
}

/// `s` without leading and trailing white space.
pub open spec fn trimmed(s: Seq<char>) -> Seq<char>
    decreases s.len(),
{
    if s.len() > 0 && is_white_space(s[0]) {
        trimmed(s.drop_first())
    } else if s.len() > 0 && is_white_space(s.last()) {
        trimmed(s.drop_last())
    } else {
        s
    }
}

/// Seconds from 1970-01-01 00:00:00 to the wall-clock time that `date` writes
/// in the `strftime` format `fmt`, if it parses.
pub uninterp spec fn naive_timestamp(date: Seq<char>, fmt: Seq<char>) -> Option<i64>;

fn white_space(c: char) -> (r: bool)
    ensures
        r == is_white_space(c),
{
    ('\u{9}' <= c && c <= '\u{d}') || c == ' ' || c == '\u{85}' || c == '\u{a0}' || c == '\u{1680}'
        || ('\u{2000}' <= c && c <= '\u{200a}') || c == '\u{2028}' || c == '\u{2029}'
        || c == '\u{202f}' || c == '\u{205f}' || c == '\u{3000}'
}

/// Trimming a non-empty text that starts with a non-space only drops trailing
/// white space.
proof fn lemma_trim_back(s: Seq<char>, end: int)
    requires
        0 < end <= s.len(),
        !is_white_space(s[0]),
        forall|k: int| end <= k < s.len() ==> is_white_space(s[k]),
    ensures
        trimmed(s) == trimmed(s.subrange(0, end)),
    decreases s.len() - end,
{
    if end < s.len() {
        let t = s.drop_last();
        assert(t =~= s.subrange(0, s.len() - 1));
        lemma_trim_back(t, end);
        assert(t.subrange(0, end) =~= s.subrange(0, end));
    } else {
        assert(s.subrange(0, end) =~= s);
    }
}

/// Leading white space before `start` does not change the trimmed text.
proof fn lemma_trim_front(s: Seq<char>, start: int)
    requires
        0 <= start <= s.len(),
        forall|k: int| 0 <= k < start ==> is_white_space(s[k]),
    ensures
        trimmed(s) == trimmed(s.subrange(start, s.len() as int)),
    decreases start,
{
    if start == 0 {
        assert(s.subrange(0, s.len() as int) =~= s);
    } else {
        let t = s.drop_first();
        lemma_trim_front(t, start - 1);
        assert(t.subrange(start - 1, t.len() as int) =~= s.subrange(start, s.len() as int));
    }
}

/// `s` without leading and trailing white space, as `str::trim` gives it.
pub fn trim(s: &str) -> (r: String)
    ensures
        r@ == trimmed(s@),
{
    let n = s.unicode_len();
    let mut start: usize = 0;
    while start < n && white_space(s.get_char(start))
        invariant
            start <= n == s@.len(),
            forall|k: int| 0 <= k < start ==> is_white_space(s@[k]),
        decreases n - start,
    {
        start = start + 1;
    }
    proof {
        lemma_trim_front(s@, start as int);
    }
    if start == n {
        assert(s@.subrange(start as int, n as int) =~= Seq::<char>::empty());
        return String::new();
    }
    let ghost rest = s@.subrange(start as int, n as int);
    let mut end: usize = n;
    while end > start + 1 && white_space(s.get_char(end - 1))
        invariant
            start < end <= n == s@.len(),
            rest == s@.subrange(start as int, n as int),
            forall|k: int| end <= k < n ==> is_white_space(s@[k]),
        decreases end,
    {
        end = end - 1;
    }
    proof {
        assert forall|k: int| end - start <= k < rest.len() implies is_white_space(rest[k]) by {
            assert(rest[k] == s@[start + k]);
        }
        lemma_trim_back(rest, end - start);
        assert(rest.subrange(0, end - start) =~= s@.subrange(start as int, end as int));
        if end == start + 1 {
            assert(trimmed(s@.subrange(start as int, end as int)) == s@.subrange(start as int, end as int));
        }
    }
    s.substring_char(start, end).to_string()
}

/// Relies on chrono::NaiveDateTime::parse_from_str and its timestamp as if in
/// UTC: the wall-clock time `date` writes in `fmt`, in seconds from the epoch.
#[verifier::external_body]
fn parse_naive(date: &str, fmt: &str) -> (r: Option<i64>)
    ensures
        r == naive_timestamp(date@, fmt@),
{
    match chrono::NaiveDateTime::parse_from_str(date, fmt) {
        Ok(t) => Some(t.and_utc().timestamp()),
        Err(_) => None,
    }
}

/// Why a row of a listing page could not be read.
#[derive(PartialEq, Eq, Structural, Clone, Copy, Debug)]
pub enum RowError {
    /// The link does not resolve against the page URL.
    Url,
    /// The size cell is neither `-` nor a humanized size.
    Size,
    /// The date cell is in neither known format or does not parse.
    Date,
    /// The link names no file.
    Name,
}

pub open spec fn minutes_format() -> Seq<char> {
    seq!['%', 'Y', '-', '%', 'm', '-', '%', 'd', ' ', '%', 'H', ':', '%', 'M']
}

pub open spec fn seconds_format() -> Seq<char> {
    seq!['%', 'Y', '-', '%', 'm', '-', '%', 'd', ' ', '%', 'H', ':', '%', 'M', ':', '%', 'S']
}

pub open spec fn parent_label() -> Seq<char> {
    seq!['P', 'a', 'r', 'e', 'n', 't', ' ', 'D', 'i', 'r', 'e', 'c', 't', 'o', 'r', 'y', '/']
}

pub open spec fn parent_href() -> Seq<char> {
    seq!['.', '.', '/']
}

/// The date format a date cell of `len` characters is written in.
pub open spec fn date_format(len: nat) -> Option<Seq<char>> {
    if len == 16 {
        Some(minutes_format())
    } else if len == 19 {
        Some(seconds_format())
    } else {
        None
    }
}

/// A row as plain values, read from the page at `base`; `Ok(None)` for a
/// link to the directory itself or to its parent.
pub open spec fn row_item(
    base: Seq<char>,
    href: Seq<char>,
    label: Seq<char>,
    size: Seq<char>,
    date: Seq<char>,
) -> Result<Option<(Seq<char>, Seq<char>, FileType, Option<FileSize>, i64)>, RowError> {
    if label == parent_label() || href == parent_href() {
        Ok(None)
    } else {
        match joined_url(base, href) {
            None => Err(RowError::Url),
            Some(u) => match last_segment(href) {
                None => Err(RowError::Name),
                Some(name) => if name == seq!['.'] || name == seq!['.', '.'] {
                    Ok(None)
                } else {
                    let sz = trimmed(size);
                    let size_v: Option<Option<FileSize>> = if sz == seq!['-'] {
                        Some(None)
                    } else {
                        match parse_humanized(sz) {
                            Some(f) => Some(Some(f)),
                            None => None,
                        }
                    };
                    let d = trimmed(date);
                    match size_v {
                        None => Err(RowError::Size),
                        Some(sv) => match date_format(d.len()) {
                            None => Err(RowError::Date),
                            Some(fmt) => match naive_timestamp(d, fmt) {
                                None => Err(RowError::Date),
                                Some(t) => Ok(Some((
                                    u,
                                    name,
                                    if ends_with(u, seq!['/']) { FileType::Directory } else { FileType::File },
                                    sv,
                                    t,
                                ))),
                            },
                        },
                    }
                },
            },
        }
    }
}

/// Reader of the listing pages of nginx's fancyindex module.
#[derive(Clone, Copy, Debug, Default)]
pub struct FancyIndexListingParser;

impl FancyIndexListingParser {
    /// Reads one table row of a listing page at `base`, given its link target,
    /// link text, size cell and date cell.
    pub fn parse_row(&self, base: &str, href: &str, label: &str, size: &str, date: &str) -> (r: Result<Option<ListItem>, RowError>)
        ensures
            match row_item(base@, href@, label@, size@, date@) {
                Ok(None) => r matches Ok(None),
                Ok(Some((u, name, t, sz, m))) => r matches Ok(Some(item)) && item.url@ == u && item.name@ == name
                    && item.type_ == t && item.size == sz && item.mtime == m && !item.skip_check && item.wf(),
                Err(e) => r == Err::<Option<ListItem>, RowError>(e),
            },
    {
        proof {
            reveal_strlit("Parent Directory/");
            reveal_strlit("../");
            reveal_strlit("-");
            reveal_strlit("/");
            reveal_strlit("%Y-%m-%d %H:%M");
            reveal_strlit("%Y-%m-%d %H:%M:%S");
            assert("Parent Directory/"@ =~= parent_label());
            assert("../"@ =~= parent_href());
            assert("-"@ =~= seq!['-']);
            assert("/"@ =~= seq!['/']);
            assert("%Y-%m-%d %H:%M"@ =~= minutes_format());
            assert("%Y-%m-%d %H:%M:%S"@ =~= seconds_format());
        }
        if str_eq(label, "Parent Directory/") || str_eq(href, "../") {
            return Ok(None);
        }
        let url = match url_join(base, href) {
            Some(u) => u,
            None => return Err(RowError::Url),
        };
        let name = match last_path_segment(href) {
            Some(n) => n,
            None => return Err(RowError::Name),
        };
        proof {
            reveal_strlit(".");
            reveal_strlit("..");
            assert("."@ =~= seq!['.']);
            assert(".."@ =~= seq!['.', '.']);
        }
        if str_eq(name.as_str(), ".") || str_eq(name.as_str(), "..") {
            return Ok(None);
        }
        let sz = trim(size);
        let size_v: Option<FileSize> = if str_eq(sz.as_str(), "-") {
            None
        } else {
            match get_humanized(sz.as_str()) {
                Some(f) => Some(f),
                None => return Err(RowError::Size),
            }
        };
        let d = trim(date);
        let len = d.as_str().unicode_len();
        let mtime = if len == 16 {
            parse_naive(d.as_str(), "%Y-%m-%d %H:%M")
        } else if len == 19 {
            parse_naive(d.as_str(), "%Y-%m-%d %H:%M:%S")
        } else {
            return Err(RowError::Date);
        };
        let mtime = match mtime {
            Some(m) => m,
            None => return Err(RowError::Date),
        };
        let type_ = if str_ends_with(url.as_str(), "/") { FileType::Directory } else { FileType::File };
        Ok(Some(ListItem { url, name, type_, size: size_v, mtime, skip_check: false }))
    }
}

} // verus!
