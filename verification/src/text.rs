use vstd::prelude::*;
use vstd::std_specs::iter::IteratorSpec;

verus! {

// ---------------------------------------------------------------------------
// Character classes
// ---------------------------------------------------------------------------

/// The Unicode `White_Space` property, which `char::is_whitespace` tests.
pub open spec fn is_white_space(c: char) -> bool {
    let u = c as u32;
    ||| 0x09 <= u <= 0x0d
    ||| u == 0x20
    ||| u == 0x85
    ||| u == 0xa0
    ||| u == 0x1680
    ||| 0x2000 <= u <= 0x200a
    ||| u == 0x2028
    ||| u == 0x2029
    ||| u == 0x202f
    ||| u == 0x205f
    ||| u == 0x3000
}

pub fn char_is_white_space(c: char) -> (b: bool)
    ensures
        b == is_white_space(c),
{
    let u = c as u32;
    (0x09 <= u && u <= 0x0d) || u == 0x20 || u == 0x85 || u == 0xa0 || u == 0x1680 || (0x2000
        <= u && u <= 0x200a) || u == 0x2028 || u == 0x2029 || u == 0x202f || u == 0x205f || u
        == 0x3000
}

/// ASCII letters and digits.
pub open spec fn is_ascii_alphanumeric(c: char) -> bool {
    ||| 'a' <= c <= 'z'
    ||| 'A' <= c <= 'Z'
    ||| '0' <= c <= '9'
}

pub fn char_is_ascii_alphanumeric(c: char) -> (b: bool)
    ensures
        b == is_ascii_alphanumeric(c),
{
    ('a' <= c && c <= 'z') || ('A' <= c && c <= 'Z') || ('0' <= c && c <= '9')
}

/// ASCII upper-case letters mapped to lower case; every other character kept.
pub open spec fn ascii_lower(c: char) -> char {
    if 'A' <= c <= 'Z' {
        ((c as u32) + 32) as char
    } else {
        c
    }
}

pub open spec fn ascii_lower_seq(s: Seq<char>) -> Seq<char> {
    s.map_values(|c: char| ascii_lower(c))
}

// ---------------------------------------------------------------------------
// Building strings
// ---------------------------------------------------------------------------

/// Appends one character (`String::push`).
#[verifier::external_body]
pub(crate) fn push_char(s: &mut String, c: char)
    ensures
        final(s)@ == old(s)@.push(c),
{
    s.push(c);
}

/// The characters of a string, in order.
pub fn char_vec(s: &str) -> (v: Vec<char>)
    ensures
        v@ == s@,
{
    let mut v: Vec<char> = Vec::new();
    for c in it: s.chars()
        invariant
            it.seq() == s@,
            v@ == it.seq().take(it.index()),
    {
        v.push(c);
    }
    v
}

/// A string holding the given characters.
pub fn string_of(chars: &[char]) -> (s: String)
    ensures
        s@ == chars@,
{
    let mut s = String::new();
    let n = chars.len();
    for i in 0..n
        invariant
            n == chars@.len(),
            s@ == chars@.take(i as int),
    {
        push_char(&mut s, chars[i]);
        assert(chars@.take(i + 1) == chars@.take(i as int).push(chars@[i as int]));
    }
    assert(chars@.take(n as int) == chars@);
    s
}

/// The ASCII lower-case copy of a string (`str::to_ascii_lowercase`).
pub fn to_ascii_lowercase(s: &str) -> (r: String)
    ensures
        r@ == ascii_lower_seq(s@),
{
    let mut r = String::new();
    for c in it: s.chars()
        invariant
            it.seq() == s@,
            r@ == ascii_lower_seq(it.seq().take(it.index())),
    {
        let ghost done = it.seq().take(it.index());
        let l = if 'A' <= c && c <= 'Z' {
            lower_ascii_letter(c)
        } else {
            c
        };
        push_char(&mut r, l);
        assert(it.seq().take(it.index() + 1) == done.push(c));
        assert(ascii_lower_seq(done.push(c)) == ascii_lower_seq(done).push(ascii_lower(c)));
    }
    assert(s@.take(s@.len() as int) == s@);
    r
}

fn lower_ascii_letter(c: char) -> (l: char)
    requires
        'A' <= c <= 'Z',
    ensures
        l == ascii_lower(c),
{
    let u = c as u32 + 32;
    assert(0x61 <= u <= 0x7a);
    let b = u as u8;
    b as char
}


// ---------------------------------------------------------------------------
// Trimming
// ---------------------------------------------------------------------------

/// `s` without the characters at its start that satisfy `p`.
pub open spec fn strip_start(s: Seq<char>, p: spec_fn(char) -> bool) -> Seq<char>
    decreases s.len(),
{
    if s.len() > 0 && p(s[0]) {
        strip_start(s.drop_first(), p)
    } else {
        s
    }
}

/// `s` without the characters at its end that satisfy `p`.
pub open spec fn strip_end(s: Seq<char>, p: spec_fn(char) -> bool) -> Seq<char>
    decreases s.len(),
{
    if s.len() > 0 && p(s.last()) {
        strip_end(s.drop_last(), p)
    } else {
        s
    }
}

/// `s` without the characters at either end that satisfy `p` (`str::trim_matches`).
pub open spec fn strip_both(s: Seq<char>, p: spec_fn(char) -> bool) -> Seq<char> {
    strip_end(strip_start(s, p), p)
}

/// `s` without white space at either end (`str::trim`).
pub open spec fn trimmed(s: Seq<char>) -> Seq<char> {
    strip_both(s, |c: char| is_white_space(c))
}

proof fn lemma_strip_start_at(s: Seq<char>, p: spec_fn(char) -> bool, k: int)
    requires
        0 <= k <= s.len(),
        forall|j: int| 0 <= j < k ==> p(#[trigger] s[j]),
        k == s.len() || !p(s[k]),
    ensures
        strip_start(s, p) == s.skip(k),
    decreases k,
{
    if k == 0 {
        assert(s.skip(0) == s);
    } else {
        assert(p(s[0]));
        let t = s.drop_first();
        assert forall|j: int| 0 <= j < k - 1 implies p(#[trigger] t[j]) by {
            assert(t[j] == s[j + 1]);
        }
        lemma_strip_start_at(t, p, k - 1);
        assert(t.skip(k - 1) == s.skip(k));
    }
}

proof fn lemma_strip_end_at(s: Seq<char>, p: spec_fn(char) -> bool, k: int)
    requires
        0 <= k <= s.len(),
        forall|j: int| k <= j < s.len() ==> p(#[trigger] s[j]),
        k == 0 || !p(s[k - 1]),
    ensures
        strip_end(s, p) == s.take(k),
    decreases s.len() - k,
{
    if k == s.len() {
        assert(s.take(k) == s);
    } else {
        assert(p(s.last()));
        let t = s.drop_last();
        assert forall|j: int| k <= j < t.len() implies p(#[trigger] t[j]) by {
            assert(t[j] == s[j]);
        }
        lemma_strip_end_at(t, p, k);
        assert(t.take(k) == s.take(k));
    }
}

/// Where the part of `s` that survives stripping `p` at both ends begins and ends.
proof fn lemma_strip_both_range(s: Seq<char>, p: spec_fn(char) -> bool, first: int, end: int)
    requires
        0 <= first < end <= s.len(),
        forall|j: int| 0 <= j < first ==> p(#[trigger] s[j]),
        forall|j: int| end <= j < s.len() ==> p(#[trigger] s[j]),
        !p(s[first]),
        !p(s[end - 1]),
    ensures
        strip_both(s, p) == s.subrange(first, end),
{
    lemma_strip_start_at(s, p, first);
    let t = s.skip(first);
    assert forall|j: int| end - first <= j < t.len() implies p(#[trigger] t[j]) by {
        assert(t[j] == s[j + first]);
    }
    assert(t[end - first - 1] == s[end - 1]);
    lemma_strip_end_at(t, p, end - first);
    assert(t.take(end - first) == s.subrange(first, end));
}

proof fn lemma_strip_both_all(s: Seq<char>, p: spec_fn(char) -> bool)
    requires
        forall|j: int| 0 <= j < s.len() ==> p(#[trigger] s[j]),
    ensures
        strip_both(s, p) == Seq::<char>::empty(),
{
    lemma_strip_start_at(s, p, s.len() as int);
    assert(s.skip(s.len() as int) == Seq::<char>::empty());
}

/// What stripping keeps is a piece of the input whose ends do not satisfy `p`.
pub proof fn lemma_strip_both_shape(s: Seq<char>, p: spec_fn(char) -> bool)
    ensures
        exists|a: int, b: int| 0 <= a <= b <= s.len() && strip_both(s, p) == s.subrange(a, b),
        strip_both(s, p).len() > 0 ==> !p(strip_both(s, p)[0]) && !p(strip_both(s, p).last()),
{
    lemma_strip_start_suffix(s, p);
    let t = strip_start(s, p);
    lemma_strip_end_prefix(t, p);
    let r = strip_end(t, p);
    let a = s.len() - t.len();
    let b = a + r.len();
    assert(r == s.subrange(a, b));
    if r.len() > 0 {
        assert(r[0] == t[0]);
    }
}

proof fn lemma_strip_start_suffix(s: Seq<char>, p: spec_fn(char) -> bool)
    ensures
        strip_start(s, p).len() <= s.len(),
        strip_start(s, p) == s.skip(s.len() - strip_start(s, p).len()),
        strip_start(s, p).len() > 0 ==> !p(strip_start(s, p)[0]),
    decreases s.len(),
{
    if s.len() > 0 && p(s[0]) {
        lemma_strip_start_suffix(s.drop_first(), p);
        let r = strip_start(s.drop_first(), p);
        assert(s.drop_first().skip(s.len() - 1 - r.len()) == s.skip(s.len() - r.len()));
    } else {
        assert(s.skip(0) == s);
    }
}

proof fn lemma_strip_end_prefix(s: Seq<char>, p: spec_fn(char) -> bool)
    ensures
        strip_end(s, p).len() <= s.len(),
        strip_end(s, p) == s.take(strip_end(s, p).len() as int),
        strip_end(s, p).len() > 0 ==> !p(strip_end(s, p).last()),
    decreases s.len(),
{
    if s.len() > 0 && p(s.last()) {
        lemma_strip_end_prefix(s.drop_last(), p);
        let r = strip_end(s.drop_last(), p);
        assert(s.drop_last().take(r.len() as int) == s.take(r.len() as int));
    } else {
        assert(s.take(s.len() as int) == s);
    }
}

/// Stripping leaves alone a string whose ends do not satisfy `p`.
pub proof fn lemma_strip_both_unchanged(s: Seq<char>, p: spec_fn(char) -> bool)
    requires
        s.len() > 0 ==> !p(s[0]) && !p(s.last()),
    ensures
        strip_both(s, p) == s,
{
    assert(strip_start(s, p) == s);
    assert(strip_end(s, p) == s);
}

/// Indices `(first, end)` such that `strip_both(s@, p)` is `s@[first..end]`; `p` is
/// white space where `white`, else the character `unwanted`.
fn kept_range(s: &str, p: Ghost<spec_fn(char) -> bool>, unwanted: char, white: bool) -> (r: (usize, usize))
    requires
        white ==> p@ == (|c: char| is_white_space(c)),
        !white ==> p@ == (|c: char| c == unwanted),
    ensures
        r.0 <= r.1 <= s@.len(),
        strip_both(s@, p@) == s@.subrange(r.0 as int, r.1 as int),
{
    let len = s.unicode_len();
    let mut first: usize = 0;
    let mut end: usize = 0;
    let mut seen = false;
    let mut idx: usize = 0;
    for c in it: s.chars()
        invariant
            it.seq() == s@,
            len == s@.len(),
            idx == it.index(),
            white ==> p@ == (|c: char| is_white_space(c)),
            !white ==> p@ == (|c: char| c == unwanted),
            !seen ==> forall|j: int| 0 <= j < idx ==> p@(#[trigger] s@[j]),
            seen ==> {
                &&& first < end <= idx
                &&& forall|j: int| 0 <= j < first ==> p@(#[trigger] s@[j])
                &&& forall|j: int| end <= j < idx ==> p@(#[trigger] s@[j])
                &&& !p@(s@[first as int])
                &&& !p@(s@[end - 1])
            },
    {
        let skip = if white {
            char_is_white_space(c)
        } else {
            c == unwanted
        };
        assert(c == s@[idx as int]);
        if !skip {
            if !seen {
                first = idx;
                seen = true;
            }
            end = idx + 1;
        }
        idx = idx + 1;
    }
    if seen {
        proof {
            lemma_strip_both_range(s@, p@, first as int, end as int);
        }
        (first, end)
    } else {
        proof {
            lemma_strip_both_all(s@, p@);
        }
        assert(s@.subrange(0, 0) == Seq::<char>::empty());
        (0, 0)
    }
}

/// `s` without white space at either end (`str::trim`).
pub fn trim(s: &str) -> (t: &str)
    ensures
        t@ == trimmed(s@),
{
    let (first, end) = kept_range(s, Ghost(|c: char| is_white_space(c)), ' ', true);
    s.substring_char(first, end)
}

/// `s` without copies of `unwanted` at either end (`str::trim_matches` with a `char`).
pub fn trim_matches(s: &str, unwanted: char) -> (t: &str)
    ensures
        t@ == strip_both(s@, |c: char| c == unwanted),
{
    let (first, end) = kept_range(s, Ghost(|c: char| c == unwanted), unwanted, false);
    s.substring_char(first, end)
}


// ---------------------------------------------------------------------------
// Lines
// ---------------------------------------------------------------------------

/// A line without one trailing carriage return.
pub open spec fn without_cr(l: Seq<char>) -> Seq<char> {
    if l.len() > 0 && l.last() == '\r' {
        l.drop_last()
    } else {
        l
    }
}

/// Scanning `s` from the left: the lines ended by a `'\n'` so far (each without
/// its `"\n"` or `"\r\n"`), and the characters after the last `'\n'`.
pub open spec fn scan_lines(s: Seq<char>) -> (Seq<Seq<char>>, Seq<char>)
    decreases s.len(),
{
    if s.len() == 0 {
        (Seq::empty(), Seq::empty())
    } else {
        let (done, cur) = scan_lines(s.drop_last());
        if s.last() == '\n' {
            (done.push(without_cr(cur)), Seq::empty())
        } else {
            (done, cur.push(s.last()))
        }
    }
}

/// The lines of `s` as `str::lines` yields them: split at `"\n"` and `"\r\n"`,
/// the last line ending optional.
pub open spec fn lines_of(s: Seq<char>) -> Seq<Seq<char>> {
    let (done, cur) = scan_lines(s);
    if cur.len() == 0 {
        done
    } else {
        done.push(cur)
    }
}

/// Scanning a text with no carriage return loses nothing: the lines found so far
/// and the characters after them, joined by `"\n"`, are the text.
pub proof fn lemma_scan_lines_rejoin(s: Seq<char>)
    requires
        forall|i: int| 0 <= i < s.len() ==> s[i] != '\r',
    ensures
        joined(scan_lines(s).0.push(scan_lines(s).1), "\n"@) == s,
        forall|i: int| 0 <= i < scan_lines(s).1.len() ==> scan_lines(s).1[i] != '\r',
    decreases s.len(),
{
    reveal_strlit("\n");
    if s.len() > 0 {
        let before = s.drop_last();
        lemma_scan_lines_rejoin(before);
        let (done0, cur0) = scan_lines(before);
        let (done, cur) = scan_lines(s);
        assert(joined(done0.push(cur0), "\n"@) == before);
        if s.last() == '\n' {
            assert(without_cr(cur0) == cur0);
            let parts = done.push(cur);
            assert(parts.drop_last() == done0.push(cur0));
            assert(parts.last() == cur);
            assert(cur.len() == 0);
            assert(before + "\n"@ + Seq::<char>::empty() == s);
        } else {
            let parts = done.push(cur);
            assert(cur == cur0.push(s.last()));
            if done0.len() == 0 {
                assert(done0.push(cur0).len() == 1);
                assert(done0.push(cur0)[0] == cur0);
                assert(parts.len() == 1);
                assert(parts[0] == cur);
                assert(cur0.push(s.last()) == s);
            } else {
                let old_parts = done0.push(cur0);
                assert(old_parts.drop_last() == done0);
                assert(old_parts.last() == cur0);
                assert(parts.drop_last() == done0);
                assert(parts.last() == cur);
                assert(joined(done0, "\n"@) + "\n"@ + cur0 == before);
                assert(joined(done0, "\n"@) + "\n"@ + cur0.push(s.last()) == before.push(s.last()));
                assert(before.push(s.last()) == s);
            }
            assert forall|i: int| 0 <= i < cur.len() implies cur[i] != '\r' by {
                if i < cur0.len() {
                    assert(cur[i] == cur0[i]);
                }
            }
        }
    }
}

/// The views of a vector of strings.
pub open spec fn views(v: Seq<String>) -> Seq<Seq<char>> {
    v.map_values(|x: String| x@)
}

/// The lines of `s` (`str::lines`), each as an owned string.
pub fn split_lines(s: &str) -> (lines: Vec<String>)
    ensures
        views(lines@) == lines_of(s@),
{
    let mut done: Vec<String> = Vec::new();
    let mut cur: Vec<char> = Vec::new();
    for c in it: s.chars()
        invariant
            it.seq() == s@,
            (views(done@), cur@) == scan_lines(it.seq().take(it.index())),
    {
        let ghost before = it.seq().take(it.index());
        let ghost done0 = done@;
        assert(it.seq().take(it.index() + 1).drop_last() == before);
        assert(it.seq().take(it.index() + 1).last() == c);
        if c == '\n' {
            if cur.len() > 0 && cur[cur.len() - 1] == '\r' {
                cur.pop();
            }
            let line = string_of(cur.as_slice());
            done.push(line);
            cur = Vec::new();
            assert(views(done@) == views(done0).push(line@));
        } else {
            cur.push(c);
        }
    }
    assert(s@.take(s@.len() as int) == s@);
    if cur.len() > 0 {
        let ghost done0 = done@;
        let line = string_of(cur.as_slice());
        done.push(line);
        assert(views(done@) == views(done0).push(line@));
    }
    done
}


/// The parts joined with `sep` between neighbours (`[String]::join`).
pub open spec fn joined(parts: Seq<Seq<char>>, sep: Seq<char>) -> Seq<char>
    decreases parts.len(),
{
    if parts.len() == 0 {
        Seq::empty()
    } else if parts.len() == 1 {
        parts[0]
    } else {
        joined(parts.drop_last(), sep) + sep + parts.last()
    }
}

/// The strings joined with `sep` between neighbours (`[String]::join`).
pub fn join(parts: &Vec<String>, sep: &str) -> (r: String)
    ensures
        r@ == joined(views(parts@), sep@),
{
    let mut r = String::new();
    let n = parts.len();
    for i in 0..n
        invariant
            n == parts@.len(),
            r@ == joined(views(parts@.take(i as int)), sep@),
    {
        let ghost prev = views(parts@.take(i as int));
        assert(views(parts@.take(i + 1)).drop_last() == prev);
        assert(views(parts@.take(i + 1)).last() == parts@[i as int]@);
        if i > 0 {
            r.append(sep);
        } else {
            assert(prev.len() == 0);
        }
        r.append(parts[i].as_str());
    }
    assert(parts@.take(n as int) == parts@);
    r
}

// ---------------------------------------------------------------------------
// Comparing and slicing
// ---------------------------------------------------------------------------

/// Whether `s` begins with `prefix` (`str::starts_with`).
pub open spec fn has_prefix(s: Seq<char>, prefix: Seq<char>) -> bool {
    prefix.len() <= s.len() && s.take(prefix.len() as int) == prefix
}

pub fn starts_with(s: &str, prefix: &str) -> (b: bool)
    ensures
        b == has_prefix(s@, prefix@),
{
    let p = char_vec(prefix);
    let plen = p.len();
    let mut i: usize = 0;
    let mut same = true;
    for c in it: s.chars()
        invariant
            it.seq() == s@,
            p@ == prefix@,
            plen == p@.len(),
            i <= plen,
            i == (if it.index() <= plen { it.index() } else { plen as int }),
            same ==> forall|j: int| 0 <= j < i ==> s@[j] == p@[j],
            !same ==> !has_prefix(s@, prefix@),
    {
        if i < plen {
            if c != p[i] {
                proof {
                    if plen <= s@.len() {
                        assert(s@.take(plen as int)[i as int] != prefix@[i as int]);
                    }
                }
                same = false;
            }
            i = i + 1;
        }
    }
    if same && i == plen {
        assert(s@.take(plen as int) == prefix@);
        true
    } else {
        false
    }
}

/// Whether `s` ends with `suffix` (`str::ends_with`).
pub open spec fn has_suffix(s: Seq<char>, suffix: Seq<char>) -> bool {
    suffix.len() <= s.len() && s.skip(s.len() - suffix.len()) == suffix
}

pub fn ends_with(s: &str, suffix: &str) -> (b: bool)
    ensures
        b == has_suffix(s@, suffix@),
{
    let n = s.unicode_len();
    let k = suffix.unicode_len();
    if k > n {
        return false;
    }
    let tail = s.substring_char(n - k, n);
    assert(tail@ == s@.skip(n - k));
    same_text(tail, suffix)
}

/// Whether two strings hold the same characters.
pub fn same_text(a: &str, b: &str) -> (r: bool)
    ensures
        r == (a@ == b@),
{
    String::from_str(a) == String::from_str(b)
}

/// The first `n` characters of `s` (`s.chars().take(n).collect()`).
pub fn first_chars(s: &str, n: usize) -> (r: String)
    ensures
        r@ == s@.take(if n <= s@.len() { n as int } else { s@.len() as int }),
{
    let len = s.unicode_len();
    let end = if n <= len {
        n
    } else {
        len
    };
    String::from_str(s.substring_char(0, end))
}

// ---------------------------------------------------------------------------
// Numbers
// ---------------------------------------------------------------------------

/// The digit for `d` (`0`-`9`, then lower-case `a`-`f`).
pub open spec fn digit_char(d: nat) -> char {
    if d < 10 {
        (d + 48) as char
    } else {
        (d + 87) as char
    }
}

/// `n` in decimal, without leading zeros (`format!("{}", n)`).
pub open spec fn decimal_digits(n: nat) -> Seq<char>
    decreases n,
{
    if n < 10 {
        seq![digit_char(n)]
    } else {
        decimal_digits(n / 10).push(digit_char(n % 10))
    }
}

/// `n` in lower-case hexadecimal, without leading zeros (`format!("{:x}", n)`).
pub open spec fn hex_digits(n: nat) -> Seq<char>
    decreases n,
{
    if n < 16 {
        seq![digit_char(n)]
    } else {
        hex_digits(n / 16).push(digit_char(n % 16))
    }
}

/// `s` preceded by enough `'0'`s to make it `width` long (`format!("{:0w$}", ..)`).
pub open spec fn zero_padded(s: Seq<char>, width: nat) -> Seq<char> {
    if s.len() < width {
        Seq::new((width - s.len()) as nat, |i: int| '0') + s
    } else {
        s
    }
}

fn digit(d: u8) -> (c: char)
    requires
        d < 16,
    ensures
        c == digit_char(d as nat),
{
    if d < 10 {
        let b: u8 = d + 48;
        b as char
    } else {
        let b: u8 = d + 87;
        b as char
    }
}

/// Appends `n` in decimal.
pub fn push_decimal(out: &mut String, n: u128)
    ensures
        final(out)@ == old(out)@ + decimal_digits(n as nat),
    decreases n,
{
    if n >= 10 {
        push_decimal(out, n / 10);
    }
    push_char(out, digit((n % 10) as u8));
}

/// Appends `n` in lower-case hexadecimal.
pub fn push_hex(out: &mut String, n: u128)
    ensures
        final(out)@ == old(out)@ + hex_digits(n as nat),
    decreases n,
{
    if n >= 16 {
        push_hex(out, n / 16);
    }
    push_char(out, digit((n % 16) as u8));
}

/// `n` in decimal (`n.to_string()`).
pub fn decimal(n: u64) -> (s: String)
    ensures
        s@ == decimal_digits(n as nat),
{
    let mut s = String::new();
    push_decimal(&mut s, n as u128);
    s
}

pub open spec fn pow10(k: nat) -> nat
    decreases k,
{
    if k == 0 {
        1
    } else {
        10 * pow10((k - 1) as nat)
    }
}

proof fn lemma_decimal_len(n: nat, k: nat)
    requires
        1 <= k,
        n < pow10(k),
    ensures
        1 <= decimal_digits(n).len() <= k,
    decreases k,
{
    if n >= 10 {
        assert(k >= 2) by {
            if k == 1 {
                assert(pow10(1) == 10 * pow10(0));
            }
        }
        assert(pow10(k) == 10 * pow10((k - 1) as nat));
        lemma_decimal_len(n / 10, (k - 1) as nat);
    }
}

/// Whether every character is an ASCII digit.
pub open spec fn all_digits(s: Seq<char>) -> bool {
    forall|i: int| 0 <= i < s.len() ==> '0' <= #[trigger] s[i] <= '9'
}

proof fn lemma_decimal_all_digits(n: nat)
    ensures
        all_digits(decimal_digits(n)),
    decreases n,
{
    if n >= 10 {
        lemma_decimal_all_digits(n / 10);
        let d = decimal_digits(n / 10);
        assert(decimal_digits(n) == d.push(digit_char(n % 10)));
        assert forall|i: int| 0 <= i < decimal_digits(n).len() implies '0' <= #[trigger] decimal_digits(n)[i]
            <= '9' by {
            if i < d.len() {
                assert(decimal_digits(n)[i] == d[i]);
            }
        }
    }
}

/// `n` in decimal, padded with leading zeros to six digits (`format!("{:06}", n)`).
pub fn six_digits(n: u32) -> (s: String)
    requires
        n < 1_000_000,
    ensures
        s@ == zero_padded(decimal_digits(n as nat), 6),
        s@.len() == 6,
        all_digits(s@),
{
    let digits = decimal(n as u64);
    proof {
        reveal_with_fuel(pow10, 7);
        lemma_decimal_len(n as nat, 6);
        lemma_decimal_all_digits(n as nat);
    }
    let len = digits.as_str().unicode_len();
    let mut s = String::new();
    let mut i: usize = len;
    while i < 6
        invariant
            len == digits@.len(),
            len <= i <= 6,
            s@ == Seq::new((i - len) as nat, |j: int| '0'),
        decreases 6 - i,
    {
        push_char(&mut s, '0');
        assert(s@ == Seq::new((i + 1 - len) as nat, |j: int| '0'));
        i = i + 1;
    }
    let ghost zeros = s@;
    s.append(digits.as_str());
    if len >= 6 {
        assert(s@ == digits@);
    }
    assert forall|i: int| 0 <= i < s@.len() implies '0' <= #[trigger] s@[i] <= '9' by {
        if i < zeros.len() {
            assert(s@[i] == zeros[i]);
        } else {
            assert(s@[i] == digits@[i - zeros.len()]);
        }
    }
    s
}

} // verus!
