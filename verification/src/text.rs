//! Character-level text handling shared by the chat helpers: trimming,
//! searching and case-insensitive comparison, each stated over `Seq<char>`.

use vstd::prelude::*;
use vstd::string::*;

verus! {

/// Unicode `White_Space`, the property `char::is_whitespace` and `str::trim`
/// go by.
pub open spec fn is_white(c: char) -> bool {
    ||| c == '\t' || c == '\n' || c == '\u{0B}' || c == '\u{0C}' || c == '\r' || c == ' '
    ||| c == '\u{85}' || c == '\u{A0}' || c == '\u{1680}'
    ||| ('\u{2000}' <= c && c <= '\u{200A}')
    ||| c == '\u{2028}' || c == '\u{2029}' || c == '\u{202F}' || c == '\u{205F}'
    ||| c == '\u{3000}'
}

/// Quoting and emphasis marks a model wraps a line in.
pub open spec fn is_wrapping_mark(c: char) -> bool {
    c == '"' || c == '\'' || c == '`' || c == '*' || c == '_'
}

/// Punctuation a cut line must not end on.
pub open spec fn is_dangling_mark(c: char) -> bool {
    c == ',' || c == ';' || c == '-' || c == '(' || c == '\u{2014}'
}

/// The sets of characters the trimming functions strip.
#[derive(Clone, Copy)]
pub enum Strip {
    White,
    WrappingMarks,
    DanglingMarks,
}

pub open spec fn strips(which: Strip, c: char) -> bool {
    match which {
        Strip::White => is_white(c),
        Strip::WrappingMarks => is_wrapping_mark(c),
        Strip::DanglingMarks => is_dangling_mark(c),
    }
}

/// `s` without the leading characters of `which`.
pub open spec fn trim_start_of(s: Seq<char>, which: Strip) -> Seq<char>
    decreases s.len(),
{
    if s.len() > 0 && strips(which, s[0]) {
        trim_start_of(s.drop_first(), which)
    } else {
        s
    }
}

/// `s` without the trailing characters of `which`.
pub open spec fn trim_end_of(s: Seq<char>, which: Strip) -> Seq<char>
    decreases s.len(),
{
    if s.len() > 0 && strips(which, s.last()) {
        trim_end_of(s.drop_last(), which)
    } else {
        s
    }
}

/// `s` without the characters of `which` at either end.
pub open spec fn trim_of(s: Seq<char>, which: Strip) -> Seq<char> {
    trim_end_of(trim_start_of(s, which), which)
}

/// What `str::trim` leaves of `s`.
pub open spec fn trimmed(s: Seq<char>) -> Seq<char> {
    trim_of(s, Strip::White)
}

/// `c` with an ASCII capital letter lowered, as a code point.
pub open spec fn ascii_lower(c: char) -> u32 {
    let x = c as u32;
    if 65 <= x && x <= 90 {
        (x + 32) as u32
    } else {
        x
    }
}

/// Two texts that are equal when ASCII letters are compared without case,
/// which is what `str::eq_ignore_ascii_case` decides.
pub open spec fn same_ignoring_ascii_case(a: Seq<char>, b: Seq<char>) -> bool {
    &&& a.len() == b.len()
    &&& forall|i: int| 0 <= i < a.len() ==> ascii_lower(#[trigger] a[i]) == ascii_lower(b[i])
}

/// `pat` stands in `s` starting at `i`.
pub open spec fn occurs_at(s: Seq<char>, pat: Seq<char>, i: int) -> bool {
    0 <= i && i + pat.len() <= s.len() && s.subrange(i, i + pat.len()) == pat
}

/// The last place below `n` at which `pat` starts in `s`.
pub open spec fn last_occurrence_below(s: Seq<char>, pat: Seq<char>, n: nat) -> Option<int>
    decreases n,
{
    if n == 0 {
        None
    } else if occurs_at(s, pat, n - 1) {
        Some(n - 1)
    } else {
        last_occurrence_below(s, pat, (n - 1) as nat)
    }
}

/// The last place at which `pat` starts in `s`, as `rsplit_once` finds it.
pub open spec fn last_occurrence(s: Seq<char>, pat: Seq<char>) -> Option<int> {
    last_occurrence_below(s, pat, s.len() + 1)
}

/// The first index at or after `i` holding `c`, or `s.len()` when there is none.
pub open spec fn first_index_from(s: Seq<char>, c: char, i: int) -> int
    decreases s.len() - i,
{
    if i < 0 || i >= s.len() {
        s.len() as int
    } else if s[i] == c {
        i
    } else {
        first_index_from(s, c, i + 1)
    }
}

/// The last index below `n` holding `c`.
pub open spec fn last_index_below(s: Seq<char>, c: char, n: nat) -> Option<int>
    decreases n,
{
    if n == 0 {
        None
    } else if n - 1 < s.len() && s[n - 1] == c {
        Some(n - 1)
    } else {
        last_index_below(s, c, (n - 1) as nat)
    }
}

pub fn strips_char(which: Strip, c: char) -> (r: bool)
    ensures
        r == strips(which, c),
{
    match which {
        Strip::White => {
            c == '\t' || c == '\n' || c == '\u{0B}' || c == '\u{0C}' || c == '\r' || c == ' '
                || c == '\u{85}' || c == '\u{A0}' || c == '\u{1680}' || ('\u{2000}' <= c && c
                <= '\u{200A}') || c == '\u{2028}' || c == '\u{2029}' || c == '\u{202F}' || c
                == '\u{205F}' || c == '\u{3000}'
        },
        Strip::WrappingMarks => c == '"' || c == '\'' || c == '`' || c == '*' || c == '_',
        Strip::DanglingMarks => c == ',' || c == ';' || c == '-' || c == '(' || c == '\u{2014}',
    }
}

/// The characters of `s`, one per element.
pub fn chars_of(s: &str) -> (v: Vec<char>)
    ensures
        v@ == s@,
{
    let n = s.unicode_len();
    let mut v: Vec<char> = Vec::new();
    let mut i: usize = 0;
    while i < n
        invariant
            n == s@.len(),
            i <= n,
            v@ == s@.subrange(0, i as int),
        decreases n - i,
    {
        let c = s.get_char(i);
        v.push(c);
        i = i + 1;
        assert(v@ =~= s@.subrange(0, i as int));
    }
    assert(v@ =~= s@);
    v
}

/// The first position in `v[lo..hi]` that `which` does not strip.
pub fn skip_start(v: &Vec<char>, lo: usize, hi: usize, which: Strip) -> (k: usize)
    requires
        lo <= hi <= v@.len(),
    ensures
        lo <= k <= hi,
        trim_start_of(v@.subrange(lo as int, hi as int), which) == v@.subrange(k as int, hi as int),
{
    let mut k = lo;
    while k < hi && strips_char(which, v[k])
        invariant
            lo <= k <= hi <= v@.len(),
            trim_start_of(v@.subrange(lo as int, hi as int), which) == trim_start_of(
                v@.subrange(k as int, hi as int),
                which,
            ),
        decreases hi - k,
    {
        assert(v@.subrange(k as int, hi as int).drop_first() =~= v@.subrange(
            k + 1,
            hi as int,
        ));
        k = k + 1;
    }
    k
}

/// The end of `v[lo..hi]` once the trailing characters of `which` are gone.
pub fn skip_end(v: &Vec<char>, lo: usize, hi: usize, which: Strip) -> (k: usize)
    requires
        lo <= hi <= v@.len(),
    ensures
        lo <= k <= hi,
        trim_end_of(v@.subrange(lo as int, hi as int), which) == v@.subrange(lo as int, k as int),
{
    let mut k = hi;
    while k > lo && strips_char(which, v[k - 1])
        invariant
            lo <= k <= hi <= v@.len(),
            trim_end_of(v@.subrange(lo as int, hi as int), which) == trim_end_of(
                v@.subrange(lo as int, k as int),
                which,
            ),
        decreases k - lo,
    {
        assert(v@.subrange(lo as int, k as int).drop_last() =~= v@.subrange(
            lo as int,
            k - 1,
        ));
        k = k - 1;
    }
    k
}

/// The bounds of `v[lo..hi]` with the characters of `which` gone from both ends.
pub fn trim_bounds(v: &Vec<char>, lo: usize, hi: usize, which: Strip) -> (r: (usize, usize))
    requires
        lo <= hi <= v@.len(),
    ensures
        lo <= r.0 <= r.1 <= hi,
        trim_of(v@.subrange(lo as int, hi as int), which) == v@.subrange(r.0 as int, r.1 as int),
{
    let a = skip_start(v, lo, hi, which);
    let b = skip_end(v, a, hi, which);
    (a, b)
}

/// `s` with the characters of `which` gone from both ends.
pub fn trim_with<'a>(s: &'a str, which: Strip) -> (r: &'a str)
    ensures
        r@ == trim_of(s@, which),
{
    let v = chars_of(s);
    let (a, b) = trim_bounds(&v, 0, v.len(), which);
    assert(v@.subrange(0, v@.len() as int) =~= v@);
    s.substring_char(a, b)
}

/// Whether `a` and `b` are equal when ASCII letters are compared without case.
pub fn eq_ignore_ascii_case(a: &str, b: &str) -> (r: bool)
    ensures
        r == same_ignoring_ascii_case(a@, b@),
{
    let x = chars_of(a);
    let y = chars_of(b);
    if x.len() != y.len() {
        return false;
    }
    let mut i: usize = 0;
    while i < x.len()
        invariant
            x@ == a@,
            y@ == b@,
            x@.len() == y@.len(),
            i <= x@.len(),
            forall|j: int| 0 <= j < i ==> ascii_lower(#[trigger] x@[j]) == ascii_lower(y@[j]),
        decreases x.len() - i,
    {
        let c = x[i] as u32;
        let d = y[i] as u32;
        let lc = if 65 <= c && c <= 90 {
            c + 32
        } else {
            c
        };
        let ld = if 65 <= d && d <= 90 {
            d + 32
        } else {
            d
        };
        if lc != ld {
            return false;
        }
        i = i + 1;
    }
    true
}

/// Whether `pat` stands in `v` at `i`.
pub fn occurs_at_exec(v: &Vec<char>, pat: &Vec<char>, i: usize) -> (r: bool)
    ensures
        r == occurs_at(v@, pat@, i as int),
{
    if i > v.len() || pat.len() > v.len() - i {
        return false;
    }
    let mut j: usize = 0;
    while j < pat.len()
        invariant
            i + pat@.len() <= v@.len(),
            i + pat.len() <= v.len(),
            j <= pat@.len(),
            forall|k: int| 0 <= k < j ==> v@[i + k] == pat@[k],
        decreases pat.len() - j,
    {
        if v[i + j] != pat[j] {
            assert(v@.subrange(i as int, i + pat@.len())[j as int] != pat@[j as int]);
            return false;
        }
        j = j + 1;
    }
    assert(v@.subrange(i as int, i + pat@.len()) =~= pat@);
    true
}

/// Where `pat` last starts in `v`, as `rsplit_once` finds it.
pub fn last_occurrence_exec(v: &Vec<char>, pat: &Vec<char>) -> (r: Option<usize>)
    ensures
        match r {
            Some(i) => last_occurrence(v@, pat@) == Some(i as int) && occurs_at(
                v@,
                pat@,
                i as int,
            ),
            None => last_occurrence(v@, pat@) is None,
        },
{
    let mut n: usize = v.len();
    if occurs_at_exec(v, pat, n) {
        return Some(n);
    }
    while n > 0
        invariant
            n <= v@.len(),
            last_occurrence(v@, pat@) == last_occurrence_below(v@, pat@, n as nat),
        decreases n,
    {
        if occurs_at_exec(v, pat, n - 1) {
            return Some(n - 1);
        }
        n = n - 1;
    }
    None
}

/// The first index at or after `i` holding `c`, or `v.len()`.
pub fn first_index_from_exec(v: &Vec<char>, c: char, i: usize) -> (r: usize)
    requires
        i <= v@.len(),
    ensures
        r as int == first_index_from(v@, c, i as int),
        i <= r <= v@.len(),
{
    let mut k = i;
    while k < v.len() && v[k] != c
        invariant
            i <= k <= v@.len(),
            first_index_from(v@, c, i as int) == first_index_from(v@, c, k as int),
        decreases v.len() - k,
    {
        k = k + 1;
    }
    k
}

/// The last index below `n` holding `c`.
pub fn last_index_below_exec(v: &Vec<char>, c: char, n: usize) -> (r: Option<usize>)
    requires
        n <= v@.len(),
    ensures
        match r {
            Some(i) => last_index_below(v@, c, n as nat) == Some(i as int) && i < n,
            None => last_index_below(v@, c, n as nat) is None,
        },
{
    let mut k = n;
    while k > 0
        invariant
            k <= n <= v@.len(),
            last_index_below(v@, c, n as nat) == last_index_below(v@, c, k as nat),
        decreases k,
    {
        if v[k - 1] == c {
            return Some(k - 1);
        }
        k = k - 1;
    }
    None
}

/// Whether `a` and `b` are the same text.
pub fn same_text(a: &str, b: &str) -> (r: bool)
    ensures
        r == (a@ == b@),
{
    let x = chars_of(a);
    let y = chars_of(b);
    if x.len() != y.len() {
        return false;
    }
    let mut i: usize = 0;
    while i < x.len()
        invariant
            x@ == a@,
            y@ == b@,
            x@.len() == y@.len(),
            i <= x@.len(),
            forall|j: int| 0 <= j < i ==> x@[j] == y@[j],
        decreases x.len() - i,
    {
        if x[i] != y[i] {
            return false;
        }
        i = i + 1;
    }
    assert(x@ =~= y@);
    true
}

/// `std`'s text of the single character `c`.
#[verifier::external_body]
pub(crate) fn char_text(c: char) -> (r: String)
    ensures
        r@ == seq![c],
{
    c.to_string()
}

/// The decimal digit for `d` (below 10).
pub open spec fn decimal_digit(d: nat) -> char {
    (48 + d) as char
}

/// `n` in decimal, without leading zeros.
pub open spec fn decimal(n: nat) -> Seq<char>
    decreases n,
{
    if n < 10 {
        seq![decimal_digit(n)]
    } else {
        decimal(n / 10).push(decimal_digit(n % 10))
    }
}

/// `n` in decimal, with a minus sign when negative.
pub open spec fn signed_decimal(n: int) -> Seq<char> {
    if n < 0 {
        seq!['-'] + decimal((-n) as nat)
    } else {
        decimal(n as nat)
    }
}

/// `n` in decimal, as `Display` writes an unsigned integer.
pub fn decimal_text(n: u64) -> (r: String)
    ensures
        r@ == decimal(n as nat),
    decreases n,
{
    let d = n % 10;
    let c = if d == 0 { '0' } else if d == 1 { '1' } else if d == 2 { '2' } else if d == 3 {
        '3'
    } else if d == 4 { '4' } else if d == 5 { '5' } else if d == 6 { '6' } else if d == 7 {
        '7'
    } else if d == 8 { '8' } else { '9' };
    assert(c == decimal_digit(d as nat));
    if n < 10 {
        char_text(c)
    } else {
        let mut s = decimal_text(n / 10);
        s.append(char_text(c).as_str());
        s
    }
}

/// `n` in decimal, as `Display` writes a signed integer.
pub fn signed_decimal_text(n: i64) -> (r: String)
    ensures
        r@ == signed_decimal(n as int),
{
    if n < 0 {
        let magnitude: u64 = ((-(n + 1)) as u64) + 1;
        let mut s = char_text('-');
        s.append(decimal_text(magnitude).as_str());
        s
    } else {
        decimal_text(n as u64)
    }
}

} // verus!
