//! Character-level text operations, each specified over the `Seq<char>`
//! view of strings.
use vstd::prelude::*;
pub use vstd::string::StrSliceExecFns;

verus! {

broadcast use vstd::string::group_string_axioms;

/// `String::push` appends one character.
pub assume_specification[ String::push ](s: &mut String, ch: char)
    ensures
        final(s)@ == old(s)@.push(ch),
;

/// Whether `c` has the Unicode `White_Space` property (what `char::is_whitespace` tests).
pub open spec fn is_space(c: char) -> bool {
    ||| ('\u{9}' <= c && c <= '\u{D}')
    ||| c == ' '
    ||| c == '\u{85}'
    ||| c == '\u{A0}'
    ||| c == '\u{1680}'
    ||| ('\u{2000}' <= c && c <= '\u{200A}')
    ||| c == '\u{2028}'
    ||| c == '\u{2029}'
    ||| c == '\u{202F}'
    ||| c == '\u{205F}'
    ||| c == '\u{3000}'
}

/// `s` without the leading characters that satisfy `strip`.
pub open spec fn trim_start_by(s: Seq<char>, strip: spec_fn(char) -> bool) -> Seq<char>
    decreases s.len(),
{
    if s.len() > 0 && strip(s[0]) {
        trim_start_by(s.drop_first(), strip)
    } else {
        s
    }
}

/// `s` without the trailing characters that satisfy `strip`.
pub open spec fn trim_end_by(s: Seq<char>, strip: spec_fn(char) -> bool) -> Seq<char>
    decreases s.len(),
{
    if s.len() > 0 && strip(s.last()) {
        trim_end_by(s.drop_last(), strip)
    } else {
        s
    }
}

/// The predicate "is whitespace".
pub open spec fn space() -> spec_fn(char) -> bool {
    |x: char| is_space(x)
}

/// The predicate "equals `c`".
pub open spec fn equals(c: char) -> spec_fn(char) -> bool {
    |x: char| x == c
}

/// `s` without leading and trailing whitespace (`str::trim`).
pub open spec fn trimmed(s: Seq<char>) -> Seq<char> {
    trim_end_by(trim_start_by(s, space()), space())
}

/// `s` without leading and trailing copies of `c` (`str::trim_matches` with a char).
pub open spec fn trimmed_of(s: Seq<char>, c: char) -> Seq<char> {
    trim_end_by(trim_start_by(s, equals(c)), equals(c))
}

/// `s` without leading copies of `c` (`str::trim_start_matches` with a char).
pub open spec fn trimmed_start_of(s: Seq<char>, c: char) -> Seq<char> {
    trim_start_by(s, equals(c))
}

/// `pat` occurs in `s` at position `i`.
pub open spec fn occurs_at(s: Seq<char>, pat: Seq<char>, i: int) -> bool {
    0 <= i && i + pat.len() <= s.len() && s.subrange(i, i + pat.len()) == pat
}

/// `pat` occurs somewhere in `s` (`str::contains`).
pub open spec fn contains(s: Seq<char>, pat: Seq<char>) -> bool {
    exists|i: int| occurs_at(s, pat, i)
}

/// `s` begins with `pat` (`str::starts_with`).
pub open spec fn starts_with(s: Seq<char>, pat: Seq<char>) -> bool {
    occurs_at(s, pat, 0)
}

/// `s` ends with `pat` (`str::ends_with`).
pub open spec fn ends_with(s: Seq<char>, pat: Seq<char>) -> bool {
    occurs_at(s, pat, s.len() - pat.len())
}

/// `s` with every occurrence of a non-empty `pat` removed, matching from
/// left to right without overlap (`str::replace` with an empty replacement).
pub open spec fn without(s: Seq<char>, pat: Seq<char>) -> Seq<char>
    decreases s.len(),
{
    if pat.len() == 0 || s.len() < pat.len() {
        s
    } else if s.take(pat.len() as int) == pat {
        without(s.skip(pat.len() as int), pat)
    } else {
        seq![s[0]] + without(s.drop_first(), pat)
    }
}

/// Index of the first occurrence of `c` in `s`, if any.
pub open spec fn first_index_of(s: Seq<char>, c: char) -> Option<int> {
    if exists|i: int| 0 <= i < s.len() && s[i] == c {
        Some(choose|i: int| 0 <= i < s.len() && s[i] == c && forall|j: int| 0 <= j < i ==> s[j] != c)
    } else {
        None
    }
}

/// Index of the first occurrence of `c` in `chars` (`str::find` with a char).
pub fn find_char(chars: &Vec<char>, c: char) -> (r: Option<usize>)
    ensures
        r matches Some(i) ==> first_index_of(chars@, c) == Some(i as int),
        r matches Some(i) ==> i < chars@.len(),
        r is None ==> first_index_of(chars@, c) is None,
{
    let mut i: usize = 0;
    while i < chars.len()
        invariant
            i <= chars.len(),
            forall|j: int| 0 <= j < i ==> chars@[j] != c,
        decreases chars.len() - i,
    {
        if chars[i] == c {
            proof {
                let k = choose|k: int|
                    0 <= k < chars@.len() && chars@[k] == c && forall|j: int|
                        0 <= j < k ==> chars@[j] != c;
                assert(k == i) by {
                    if k < i {
                    } else if k > i {
                        assert(chars@[i as int] != c);
                    }
                }
            }
            return Some(i);
        }
        i += 1;
    }
    None
}

/// The decimal digit for `d < 10`.
pub open spec fn digit_of(d: nat) -> char {
    if d == 0 { '0' } else if d == 1 { '1' } else if d == 2 { '2' } else if d == 3 { '3' }
    else if d == 4 { '4' } else if d == 5 { '5' } else if d == 6 { '6' } else if d == 7 { '7' }
    else if d == 8 { '8' } else { '9' }
}

/// `n` written in decimal, without leading zeros.
pub open spec fn decimal_of(n: nat) -> Seq<char>
    decreases n,
{
    if n < 10 {
        seq![digit_of(n)]
    } else {
        decimal_of(n / 10).push(digit_of(n % 10))
    }
}

fn digit(d: u64) -> (c: char)
    requires
        d < 10,
    ensures
        c == digit_of(d as nat),
{
    if d == 0 { '0' } else if d == 1 { '1' } else if d == 2 { '2' } else if d == 3 { '3' }
    else if d == 4 { '4' } else if d == 5 { '5' } else if d == 6 { '6' } else if d == 7 { '7' }
    else if d == 8 { '8' } else { '9' }
}

/// Appends `n` in decimal to `out`.
pub fn push_decimal(out: &mut String, n: u64)
    ensures
        final(out)@ == old(out)@ + decimal_of(n as nat),
    decreases n,
{
    if n >= 10 {
        push_decimal(out, n / 10);
    }
    out.push(digit(n % 10));
}

/// `n` in decimal (`u64::to_string`).
pub fn decimal(n: u64) -> (s: String)
    ensures
        s@ == decimal_of(n as nat),
{
    let mut s = String::new();
    push_decimal(&mut s, n);
    s
}

/// Whether `s` ends with `pat` (`str::ends_with`).
pub fn ends_with_str(s: &str, pat: &str) -> (b: bool)
    ensures
        b == ends_with(s@, pat@),
{
    let s = chars_of(s);
    let pat = chars_of(pat);
    if pat.len() > s.len() {
        return false;
    }
    occurs_at_index(&s, &pat, s.len() - pat.len())
}

/// The number of bytes that UTF-8 takes to encode `c`.
pub open spec fn utf8_width(c: char) -> nat {
    if (c as u32) < 0x80 {
        1
    } else if (c as u32) < 0x800 {
        2
    } else if (c as u32) < 0x10000 {
        3
    } else {
        4
    }
}

/// The length in bytes of the UTF-8 encoding of `s` (`str::len`).
pub open spec fn utf8_len(s: Seq<char>) -> nat
    decreases s.len(),
{
    if s.len() == 0 {
        0
    } else {
        utf8_len(s.drop_last()) + utf8_width(s.last())
    }
}

/// Whether the UTF-8 encoding of `s` is longer than `limit` bytes.
pub fn utf8_longer_than(s: &str, limit: usize) -> (b: bool)
    ensures
        b == (utf8_len(s@) > limit),
{
    let chars = chars_of(s);
    let mut total: usize = 0;
    let mut i: usize = 0;
    while i < chars.len()
        invariant
            i <= chars.len(),
            total == utf8_len(chars@.take(i as int)),
            total <= limit,
            chars@ == s@,
        decreases chars.len() - i,
    {
        assert(chars@.take(i + 1).drop_last() == chars@.take(i as int));
        let c = chars[i] as u32;
        let width: usize = if c < 0x80 {
            1
        } else if c < 0x800 {
            2
        } else if c < 0x10000 {
            3
        } else {
            4
        };
        assert(width == utf8_width(chars@[i as int]));
        if width > limit - total {
            proof {
                lemma_utf8_len_prefix(chars@, i + 1);
                assert(utf8_len(chars@.take(i + 1)) == total + width);
            }
            return true;
        }
        total = total + width;
        i += 1;
    }
    assert(chars@.take(i as int) == chars@);
    false
}

/// A prefix is no longer than the whole.
pub proof fn lemma_utf8_len_prefix(s: Seq<char>, k: int)
    requires
        0 <= k <= s.len(),
    ensures
        utf8_len(s.take(k)) <= utf8_len(s),
    decreases s.len() - k,
{
    if k < s.len() {
        lemma_utf8_len_prefix(s, k + 1);
        assert(s.take(k + 1).drop_last() == s.take(k));
    } else {
        assert(s.take(k) == s);
    }
}

/// The characters of `s`, in order.
pub fn chars_of(s: &str) -> (out: Vec<char>)
    ensures
        out@ == s@,
{
    let mut out: Vec<char> = Vec::new();
    for c in iter: s.chars()
        invariant
            out@ == iter.seq().take(iter.index() as int),
            iter.seq() == s@,
    {
        out.push(c);
    }
    out
}

/// The string made of `chars[from..to]`.
pub fn string_of(chars: &Vec<char>, from: usize, to: usize) -> (out: String)
    requires
        from <= to <= chars.len(),
    ensures
        out@ == chars@.subrange(from as int, to as int),
{
    let mut out = String::new();
    let mut i = from;
    while i < to
        invariant
            from <= i <= to <= chars.len(),
            out@ == chars@.subrange(from as int, i as int),
        decreases to - i,
    {
        out.push(chars[i]);
        i += 1;
        assert(out@ == chars@.subrange(from as int, i as int));
    }
    out
}

/// Appends `chars[from..to]` to `out`.
pub fn push_range(out: &mut String, chars: &Vec<char>, from: usize, to: usize)
    requires
        from <= to <= chars.len(),
    ensures
        final(out)@ == old(out)@ + chars@.subrange(from as int, to as int),
{
    let mut i = from;
    while i < to
        invariant
            from <= i <= to <= chars.len(),
            out@ == old(out)@ + chars@.subrange(from as int, i as int),
        decreases to - i,
    {
        out.push(chars[i]);
        i += 1;
        assert(out@ == old(out)@ + chars@.subrange(from as int, i as int));
    }
}

/// Whether `c` is whitespace (`char::is_whitespace`).
pub fn is_whitespace(c: char) -> (b: bool)
    ensures
        b == is_space(c),
{
    ('\u{9}' <= c && c <= '\u{D}') || c == ' ' || c == '\u{85}' || c == '\u{A0}' || c == '\u{1680}'
        || ('\u{2000}' <= c && c <= '\u{200A}') || c == '\u{2028}' || c == '\u{2029}' || c
        == '\u{202F}' || c == '\u{205F}' || c == '\u{3000}'
}

proof fn lemma_trim_start_skip(s: Seq<char>, i: int, strip: spec_fn(char) -> bool)
    requires
        0 <= i <= s.len(),
        forall|j: int| 0 <= j < i ==> strip(#[trigger] s[j]),
    ensures
        trim_start_by(s, strip) == trim_start_by(s.skip(i), strip),
    decreases i,
{
    if i > 0 {
        assert(s.skip(1) == s.drop_first());
        lemma_trim_start_skip(s.drop_first(), i - 1, strip);
        assert(s.drop_first().skip(i - 1) == s.skip(i));
    } else {
        assert(s.skip(0) == s);
    }
}

proof fn lemma_trim_end_take(s: Seq<char>, i: int, strip: spec_fn(char) -> bool)
    requires
        0 <= i <= s.len(),
        forall|j: int| i <= j < s.len() ==> strip(#[trigger] s[j]),
    ensures
        trim_end_by(s, strip) == trim_end_by(s.take(i), strip),
    decreases s.len() - i,
{
    if i < s.len() {
        lemma_trim_end_take(s.drop_last(), i, strip);
        assert(s.drop_last().take(i) == s.take(i));
    } else {
        assert(s.take(i) == s);
    }
}

fn strips(x: char, strip_space: bool, c: char) -> (b: bool)
    ensures
        b == (if strip_space { is_space(x) } else { x == c }),
{
    if strip_space {
        is_whitespace(x)
    } else {
        x == c
    }
}

/// Bounds `[lo, hi)` of `chars` once the characters satisfying `strip` are
/// removed from both ends.
fn trim_bounds(chars: &Vec<char>, strip_space: bool, c: char) -> (r: (usize, usize))
    ensures
        r.0 <= r.1 <= chars.len(),
        strip_space ==> chars@.subrange(r.0 as int, r.1 as int) == trimmed(chars@),
        !strip_space ==> chars@.subrange(r.0 as int, r.1 as int) == trimmed_of(chars@, c),
{
    let ghost strip: spec_fn(char) -> bool = if strip_space {
        space()
    } else {
        equals(c)
    };
    let mut lo: usize = 0;
    while lo < chars.len() && strips(chars[lo], strip_space, c)
        invariant
            lo <= chars.len(),
            forall|j: int| 0 <= j < lo ==> strip(#[trigger] chars@[j]),
            strip == (if strip_space { space() } else { equals(c) }),
        decreases chars.len() - lo,
    {
        lo += 1;
    }
    proof {
        lemma_trim_start_skip(chars@, lo as int, strip);
        assert(trim_start_by(chars@.skip(lo as int), strip) == chars@.skip(lo as int));
    }
    let mut hi: usize = chars.len();
    while hi > lo && strips(chars[hi - 1], strip_space, c)
        invariant
            lo <= hi <= chars.len(),
            forall|j: int| hi <= j < chars.len() ==> strip(#[trigger] chars@[j]),
            strip == (if strip_space { space() } else { equals(c) }),
        decreases hi - lo,
    {
        hi -= 1;
    }
    proof {
        let t = chars@.skip(lo as int);
        assert forall|j: int| hi - lo <= j < t.len() implies strip(#[trigger] t[j]) by {
            assert(t[j] == chars@[lo + j]);
        }
        lemma_trim_end_take(t, hi - lo, strip);
        assert(t.take(hi - lo) == chars@.subrange(lo as int, hi as int));
        if hi > lo {
            assert(t.take(hi - lo).last() == chars@[hi - 1]);
        }
        assert(trim_end_by(t.take(hi - lo), strip) == t.take(hi - lo));
    }
    (lo, hi)
}

/// `s` without leading and trailing whitespace (`str::trim`).
pub fn trim(s: &str) -> (out: String)
    ensures
        out@ == trimmed(s@),
{
    let chars = chars_of(s);
    let (lo, hi) = trim_bounds(&chars, true, ' ');
    string_of(&chars, lo, hi)
}

/// `s` without leading and trailing copies of `c` (`str::trim_matches`).
pub fn trim_matches(s: &str, c: char) -> (out: String)
    ensures
        out@ == trimmed_of(s@, c),
{
    let chars = chars_of(s);
    let (lo, hi) = trim_bounds(&chars, false, c);
    string_of(&chars, lo, hi)
}

/// `s` without leading copies of `c` (`str::trim_start_matches` with a char).
pub fn trim_start_matches(s: &str, c: char) -> (out: String)
    ensures
        out@ == trimmed_start_of(s@, c),
{
    let chars = chars_of(s);
    let mut lo: usize = 0;
    while lo < chars.len() && chars[lo] == c
        invariant
            lo <= chars.len(),
            forall|j: int| 0 <= j < lo ==> equals(c)(#[trigger] chars@[j]),
        decreases chars.len() - lo,
    {
        lo += 1;
    }
    proof {
        lemma_trim_start_skip(chars@, lo as int, equals(c));
        assert(chars@.subrange(lo as int, chars.len() as int) == chars@.skip(lo as int));
    }
    string_of(&chars, lo, chars.len())
}

/// Whether `pat` occurs in `s` at position `i`.
pub fn occurs_at_index(s: &Vec<char>, pat: &Vec<char>, i: usize) -> (b: bool)
    ensures
        b == occurs_at(s@, pat@, i as int),
{
    if i > s.len() || pat.len() > s.len() - i {
        return false;
    }
    let mut k: usize = 0;
    while k < pat.len()
        invariant
            i + pat.len() <= s.len(),
            k <= pat.len(),
            forall|j: int| 0 <= j < k ==> s@[i + j] == pat@[j],
        decreases pat.len() - k,
    {
        if s[i + k] != pat[k] {
            assert(s@.subrange(i as int, i + pat.len())[k as int] != pat@[k as int]);
            return false;
        }
        k += 1;
    }
    assert(s@.subrange(i as int, i + pat.len()) == pat@);
    true
}

/// Whether `pat` occurs in `s` (`str::contains`).
pub fn contains_str(s: &str, pat: &str) -> (b: bool)
    ensures
        b == contains(s@, pat@),
{
    let text = chars_of(s);
    let p = chars_of(pat);
    if p.len() > text.len() {
        return false;
    }
    let last = text.len() - p.len();
    let mut i: usize = 0;
    loop
        invariant
            i <= last,
            last + p@.len() == text@.len(),
            text@ == s@,
            p@ == pat@,
            forall|j: int| 0 <= j < i ==> !occurs_at(text@, p@, j),
        decreases last - i,
    {
        if occurs_at_index(&text, &p, i) {
            assert(occurs_at(s@, pat@, i as int));
            return true;
        }
        if i == last {
            assert forall|j: int| !occurs_at(s@, pat@, j) by {
                if 0 <= j <= last {
                }
            }
            return false;
        }
        i += 1;
    }
}

/// Whether `s` begins with `pat` (`str::starts_with`).
pub fn starts_with_str(s: &str, pat: &str) -> (b: bool)
    ensures
        b == starts_with(s@, pat@),
{
    let s = chars_of(s);
    let pat = chars_of(pat);
    occurs_at_index(&s, &pat, 0)
}

proof fn lemma_without_step(s: Seq<char>, pat: Seq<char>, i: int)
    requires
        pat.len() > 0,
        0 <= i < s.len(),
    ensures
        i + pat.len() <= s.len() && occurs_at(s, pat, i) ==> without(s.skip(i), pat) == without(
            s.skip(i + pat.len()),
            pat,
        ),
        i + pat.len() <= s.len() && !occurs_at(s, pat, i) ==> without(s.skip(i), pat) == seq![s[i]]
            + without(s.skip(i + 1), pat),
        i + pat.len() > s.len() ==> without(s.skip(i), pat) == s.skip(i),
{
    let t = s.skip(i);
    if i + pat.len() <= s.len() {
        assert(t.take(pat.len() as int) == s.subrange(i, i + pat.len()));
        assert(t.skip(pat.len() as int) == s.skip(i + pat.len()));
        assert(t.drop_first() == s.skip(i + 1));
    }
}

/// `s` with every occurrence of a non-empty `pat` removed (`str::replace(pat, "")`).
pub fn remove_all(s: &str, pat: &str) -> (out: String)
    ensures
        out@ == without(s@, pat@),
{
    let chars = chars_of(s);
    let p = chars_of(pat);
    if p.len() == 0 {
        return string_of(&chars, 0, chars.len());
    }
    let mut out = String::new();
    let mut i: usize = 0;
    assert(chars@.skip(0) == chars@);
    while i < chars.len()
        invariant
            p.len() > 0,
            chars@ == s@,
            p@ == pat@,
            i <= chars.len(),
            out@ + without(chars@.skip(i as int), p@) == without(chars@, p@),
        decreases chars.len() - i,
    {
        proof {
            lemma_without_step(chars@, p@, i as int);
        }
        if p.len() > chars.len() - i {
            let ghost before = out@;
            push_range(&mut out, &chars, i, chars.len());
            proof {
                assert(chars@.subrange(i as int, chars.len() as int) == chars@.skip(i as int));
                assert(without(chars@.skip(i as int), p@) == chars@.skip(i as int));
                assert(out@ == without(chars@, p@));
            }
            return out;
        } else if occurs_at_index(&chars, &p, i) {
            i += p.len();
        } else {
            let ghost before = out@;
            out.push(chars[i]);
            proof {
                assert(out@ + without(chars@.skip(i + 1), p@) == before + (seq![chars@[i as int]]
                    + without(chars@.skip(i + 1), p@)));
            }
            i += 1;
        }
    }
    assert(chars@.skip(i as int).len() == 0);
    assert(out@ == out@ + without(chars@.skip(i as int), p@));
    out
}

/// `lines` joined by `sep`.
pub open spec fn joined(lines: Seq<Seq<char>>, sep: Seq<char>) -> Seq<char>
    decreases lines.len(),
{
    if lines.len() == 0 {
        Seq::empty()
    } else if lines.len() == 1 {
        lines[0]
    } else {
        joined(lines.drop_last(), sep) + sep + lines.last()
    }
}

/// `lines` joined by `sep` (`[String]::join`).
pub fn join(lines: &Vec<String>, sep: &str) -> (s: String)
    ensures
        s@ == joined(lines.deep_view(), sep@),
{
    let mut s = String::new();
    let mut i: usize = 0;
    while i < lines.len()
        invariant
            i <= lines.len(),
            s@ == joined(lines.deep_view().take(i as int), sep@),
        decreases lines.len() - i,
    {
        assert(lines.deep_view().take(i + 1).drop_last() == lines.deep_view().take(i as int));
        if i > 0 {
            s.append(sep);
        }
        s.append(lines[i].as_str());
        proof {
            if i == 0 {
                assert(lines.deep_view().take(1) =~= seq![lines@[0]@]);
            }
        }
        i += 1;
    }
    assert(lines.deep_view().take(i as int) == lines.deep_view());
    s
}

/// Index of the first occurrence of `pat` in `s`, if any (`str::find`).
#[verifier::opaque]
pub open spec fn first_occurrence(s: Seq<char>, pat: Seq<char>) -> Option<int> {
    if exists|i: int| occurs_at(s, pat, i) {
        Some(
            choose|i: int|
                occurs_at(s, pat, i) && forall|j: int| 0 <= j < i ==> !occurs_at(s, pat, j),
        )
    } else {
        None
    }
}

/// The text between the first and the second occurrence of `pat`, or after
/// the first one if there is no second; `s` itself if `pat` does not occur
/// (`s.split(pat).nth(1).unwrap_or(s)`).
pub open spec fn second_piece(s: Seq<char>, pat: Seq<char>) -> Seq<char> {
    match first_occurrence(s, pat) {
        None => s,
        Some(i) => {
            let rest = s.skip(i + pat.len());
            match first_occurrence(rest, pat) {
                None => rest,
                Some(j) => rest.take(j),
            }
        },
    }
}

/// `s` without the copies of a non-empty `pat` at its start
/// (`str::trim_start_matches` with a string).
pub open spec fn strip_prefixes(s: Seq<char>, pat: Seq<char>) -> Seq<char>
    decreases s.len(),
{
    if pat.len() > 0 && starts_with(s, pat) {
        strip_prefixes(s.skip(pat.len() as int), pat)
    } else {
        s
    }
}

/// Index of the first occurrence of `pat` in `s`.
pub fn find_str(s: &Vec<char>, pat: &Vec<char>) -> (r: Option<usize>)
    ensures
        match r {
            Some(i) => first_occurrence(s@, pat@) == Some(i as int) && i + pat@.len() <= s@.len(),
            None => first_occurrence(s@, pat@) is None,
        },
{
    reveal(first_occurrence);
    if pat.len() > s.len() {
        assert forall|j: int| !occurs_at(s@, pat@, j) by {}
        return None;
    }
    let last = s.len() - pat.len();
    let mut i: usize = 0;
    loop
        invariant
            i <= last,
            last + pat@.len() == s@.len(),
            forall|j: int| 0 <= j < i ==> !occurs_at(s@, pat@, j),
        decreases last - i,
    {
        if occurs_at_index(s, pat, i) {
            proof {
                reveal(first_occurrence);
            }
            let ghost k = choose|k: int|
                occurs_at(s@, pat@, k) && forall|j: int| 0 <= j < k ==> !occurs_at(s@, pat@, j);
            assert(occurs_at(s@, pat@, i as int) && forall|j: int|
                0 <= j < i ==> !occurs_at(s@, pat@, j));
            assert(k == i);
            return Some(i);
        }
        if i == last {
            proof {
                reveal(first_occurrence);
            }
            assert forall|j: int| !occurs_at(s@, pat@, j) by {
                if 0 <= j <= last {
                }
            }
            return None;
        }
        i += 1;
    }
}

/// `s` without the copies of `pat` at its start (`str::trim_start_matches`).
pub fn strip_prefixes_str(s: &str, pat: &str) -> (out: String)
    ensures
        out@ == strip_prefixes(s@, pat@),
{
    let chars = chars_of(s);
    let p = chars_of(pat);
    if p.len() == 0 {
        return string_of(&chars, 0, chars.len());
    }
    let mut lo: usize = 0;
    assert(chars@.skip(0) == chars@);
    while lo <= chars.len() && occurs_at_index(&chars, &p, lo)
        invariant
            p.len() > 0,
            lo <= chars.len(),
            chars@ == s@,
            p@ == pat@,
            strip_prefixes(chars@, p@) == strip_prefixes(chars@.skip(lo as int), p@),
        decreases chars.len() - lo,
    {
        assert(chars@.skip(lo as int).take(p.len() as int) == chars@.subrange(
            lo as int,
            lo + p.len(),
        ));
        assert(chars@.skip(lo as int).skip(p.len() as int) == chars@.skip(lo + p.len()));
        lo += p.len();
    }
    proof {
        let rest = chars@.skip(lo as int);
        if lo + p.len() <= chars.len() {
            assert(rest.subrange(0, p.len() as int) == chars@.subrange(lo as int, lo + p.len()));
        }
        assert(!starts_with(rest, p@));
        assert(chars@.subrange(lo as int, chars.len() as int) == rest);
    }
    string_of(&chars, lo, chars.len())
}

/// The piece of `s` after the first occurrence of `pat` and before the
/// second (`s.split(pat).nth(1).unwrap_or(s)`).
pub fn split_second(s: &str, pat: &str) -> (out: String)
    ensures
        out@ == second_piece(s@, pat@),
{
    let chars = chars_of(s);
    let p = chars_of(pat);
    match find_str(&chars, &p) {
        None => {
            assert(chars@.subrange(0, chars.len() as int) == s@);
            string_of(&chars, 0, chars.len())
        },
        Some(i) => {
            let n: usize = p.len();
            assert(i + n <= chars.len());
            let start: usize = i + n;
            let tail = string_of(&chars, start, chars.len());
            let rest = chars_of(tail.as_str());
            assert(rest@ == s@.skip(start as int));
            match find_str(&rest, &p) {
                None => {
                    assert(rest@.subrange(0, rest.len() as int) == rest@);
                    string_of(&rest, 0, rest.len())
                },
                Some(j) => {
                    assert(rest@.subrange(0, j as int) == rest@.take(j as int));
                    string_of(&rest, 0, j)
                },
            }
        },
    }
}

/// The pieces of `s` between the occurrences of a non-empty `pat`
/// (`str::split` with a string).
pub open spec fn split_on(s: Seq<char>, pat: Seq<char>) -> Seq<Seq<char>>
    decreases s.len(),
{
    if pat.len() == 0 {
        seq![s]
    } else {
        match first_occurrence(s, pat) {
            None => seq![s],
            Some(i) => if 0 <= i && i + pat.len() <= s.len() {
                seq![s.take(i)] + split_on(s.skip(i + pat.len()), pat)
            } else {
                seq![s]
            },
        }
    }
}

proof fn lemma_joined_front(first: Seq<char>, rest: Seq<Seq<char>>, sep: Seq<char>)
    requires
        rest.len() > 0,
    ensures
        joined(seq![first] + rest, sep) == first + sep + joined(rest, sep),
    decreases rest.len(),
{
    let all = seq![first] + rest;
    assert(all.drop_last() =~= seq![first] + rest.drop_last());
    assert(all.last() == rest.last());
    assert(joined(all, sep) == joined(all.drop_last(), sep) + sep + rest.last());
    if rest.len() == 1 {
        assert(all.drop_last() =~= seq![first]);
        assert(joined(seq![first], sep) == first);
        assert(joined(rest, sep) == rest[0]);
    } else {
        lemma_joined_front(first, rest.drop_last(), sep);
        assert(joined(rest, sep) == joined(rest.drop_last(), sep) + sep + rest.last());
        assert(first + sep + joined(rest.drop_last(), sep) + sep + rest.last() =~= first + sep + (
        joined(rest.drop_last(), sep) + sep + rest.last()));
    }
}

proof fn lemma_first_occurrence_found(s: Seq<char>, pat: Seq<char>)
    ensures
        first_occurrence(s, pat) matches Some(i) ==> occurs_at(s, pat, i),
{
    reveal(first_occurrence);
    if exists|i: int| occurs_at(s, pat, i) {
        let w = choose|i: int| occurs_at(s, pat, i);
        lemma_least_occurrence(s, pat, w);
    }
}

proof fn lemma_least_occurrence(s: Seq<char>, pat: Seq<char>, w: int)
    requires
        occurs_at(s, pat, w),
    ensures
        exists|i: int| occurs_at(s, pat, i) && forall|j: int| 0 <= j < i ==> !occurs_at(s, pat, j),
    decreases w,
{
    if exists|j: int| 0 <= j < w && occurs_at(s, pat, j) {
        let j = choose|j: int| 0 <= j < w && occurs_at(s, pat, j);
        lemma_least_occurrence(s, pat, j);
    }
}

/// Joining the pieces of `s` split on `pat` with `pat` gives back `s`.
pub proof fn lemma_split_join(s: Seq<char>, pat: Seq<char>)
    requires
        pat.len() > 0,
    ensures
        joined(split_on(s, pat), pat) == s,
    decreases s.len(),
{
    lemma_first_occurrence_found(s, pat);
    match first_occurrence(s, pat) {
        None => {},
        Some(i) => {
            let rest = s.skip(i + pat.len());
            lemma_split_join(rest, pat);
            let pieces = split_on(rest, pat);
            if pieces.len() > 0 {
                lemma_joined_front(s.take(i), pieces, pat);
            }
            assert(s.subrange(i, i + pat.len()) == pat);
            assert(s.take(i) + pat + rest =~= s);
        },
    }
}

/// The pieces of `s` between the occurrences of `pat` (`str::split`).
pub fn split_str(s: &str, pat: &str) -> (pieces: Vec<String>)
    requires
        pat@.len() > 0,
    ensures
        pieces.deep_view() == split_on(s@, pat@),
{
    let p = chars_of(pat);
    let mut rest = chars_of(s);
    let mut pieces: Vec<String> = Vec::new();
    loop
        invariant
            p@ == pat@,
            p@.len() > 0,
            split_on(s@, pat@) == pieces.deep_view() + split_on(rest@, pat@),
        decreases rest.len(),
    {
        proof {
            lemma_first_occurrence_found(rest@, p@);
        }
        match find_str(&rest, &p) {
            None => {
                let ghost before = pieces.deep_view();
                pieces.push(string_of(&rest, 0, rest.len()));
                assert(rest@.subrange(0, rest.len() as int) == rest@);
                assert(pieces.deep_view() =~= before + seq![rest@]);
                return pieces;
            },
            Some(i) => {
                let n: usize = p.len();
                let ghost before = pieces.deep_view();
                let ghost old_rest = rest@;
                pieces.push(string_of(&rest, 0, i));
                assert(rest@.subrange(0, i as int) == rest@.take(i as int));
                let tail = string_of(&rest, i + n, rest.len());
                rest = chars_of(tail.as_str());
                assert(rest@ == old_rest.skip(i + n));
                assert(pieces.deep_view() =~= before.push(old_rest.take(i as int)));
                assert(before + (seq![old_rest.take(i as int)] + split_on(rest@, pat@)) =~= before.push(
                    old_rest.take(i as int),
                ) + split_on(rest@, pat@));
            },
        }
    }
}

} // verus!
