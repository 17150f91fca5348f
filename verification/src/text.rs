//! Text primitives on sequences of characters: searching, replacing,
//! trimming, decimal rendering and parsing, and UTF-8 byte lengths.
//!
//! Strings are modelled by their view, the `Seq<char>` of their characters.
//! Executable functions read a string once into a `Vec<char>` and build
//! their results with `push_char` and `String::append`.

use vstd::prelude::*;
use vstd::utf8::encode_utf8;
use vstd::utf8::encode_scalar;

verus! {

// ---------------------------------------------------------------------------
// Specifications
// ---------------------------------------------------------------------------

/// `p` occurs in `s` starting at index `i`.
pub open spec fn matches_at(s: Seq<char>, p: Seq<char>, i: int) -> bool {
    0 <= i && i + p.len() <= s.len() && s.subrange(i, i + p.len()) == p
}

/// The first index at or after `from` where `p` occurs in `s`
/// (what `str::find` returns on `s[from..]`, shifted by `from`).
pub open spec fn find_from(s: Seq<char>, p: Seq<char>, from: int) -> Option<int>
    decreases s.len() + 1 - from,
{
    if from < 0 || from + p.len() > s.len() {
        None
    } else if matches_at(s, p, from) {
        Some(from)
    } else {
        find_from(s, p, from + 1)
    }
}

/// `p` occurs somewhere in `s`.
pub open spec fn contains(s: Seq<char>, p: Seq<char>) -> bool {
    exists|i: int| matches_at(s, p, i)
}

/// Leftmost, non-overlapping replacement of `p` by `r` in `s[i..]`
/// (`str::replace` for a non-empty pattern).
pub open spec fn replace_from(s: Seq<char>, p: Seq<char>, r: Seq<char>, i: int) -> Seq<char>
    decreases s.len() - i,
{
    if i < 0 || i >= s.len() {
        Seq::empty()
    } else if p.len() > 0 && matches_at(s, p, i) {
        r + replace_from(s, p, r, i + p.len())
    } else {
        seq![s[i]] + replace_from(s, p, r, i + 1)
    }
}

/// Every leftmost, non-overlapping occurrence of `p` in `s` replaced by `r`.
pub open spec fn replace_all(s: Seq<char>, p: Seq<char>, r: Seq<char>) -> Seq<char> {
    replace_from(s, p, r, 0)
}

/// Number of leftmost, non-overlapping occurrences of `p` in `s[i..]`
/// (`str::matches(..).count()` for a non-empty pattern).
pub open spec fn count_from(s: Seq<char>, p: Seq<char>, i: int) -> nat
    decreases s.len() - i,
{
    if i < 0 || i >= s.len() {
        0
    } else if p.len() > 0 && matches_at(s, p, i) {
        1 + count_from(s, p, i + p.len())
    } else {
        count_from(s, p, i + 1)
    }
}

/// Number of leftmost, non-overlapping occurrences of `p` in `s`.
pub open spec fn count(s: Seq<char>, p: Seq<char>) -> nat {
    count_from(s, p, 0)
}

/// The ASCII digit for `d < 10`.
pub open spec fn digit_char(d: nat) -> char {
    ((48 + d) as u8) as char
}

/// The decimal representation of `n`, without leading zeros.
pub open spec fn decimal(n: nat) -> Seq<char>
    decreases n,
{
    if n < 10 {
        seq![digit_char(n)]
    } else {
        decimal(n / 10).push(digit_char(n % 10))
    }
}

/// Unicode `White_Space`, the set that `char::is_whitespace` and `str::trim` use.
pub open spec fn is_whitespace(c: char) -> bool {
    ||| '\t' <= c <= '\r'
    ||| c == ' '
    ||| c == '\u{85}'
    ||| c == '\u{A0}'
    ||| c == '\u{1680}'
    ||| '\u{2000}' <= c <= '\u{200A}'
    ||| c == '\u{2028}'
    ||| c == '\u{2029}'
    ||| c == '\u{202F}'
    ||| c == '\u{205F}'
    ||| c == '\u{3000}'
}

/// `s` without its leading whitespace.
pub open spec fn trim_start(s: Seq<char>) -> Seq<char>
    decreases s.len(),
{
    if s.len() > 0 && is_whitespace(s[0]) {
        trim_start(s.drop_first())
    } else {
        s
    }
}

/// `s` without its trailing whitespace.
pub open spec fn trim_end(s: Seq<char>) -> Seq<char>
    decreases s.len(),
{
    if s.len() > 0 && is_whitespace(s.last()) {
        trim_end(s.drop_last())
    } else {
        s
    }
}

/// `s` without leading and trailing whitespace (`str::trim`).
pub open spec fn trim(s: Seq<char>) -> Seq<char> {
    trim_end(trim_start(s))
}

pub open spec fn is_ascii_digit(c: char) -> bool {
    '0' <= c <= '9'
}

/// Every character of `d` is an ASCII digit.
pub open spec fn all_digits(d: Seq<char>) -> bool {
    forall|i: int| 0 <= i < d.len() ==> is_ascii_digit(#[trigger] d[i])
}

/// The value of a string of decimal digits.
pub open spec fn digits_value(d: Seq<char>) -> nat
    decreases d.len(),
{
    if d.len() == 0 {
        0
    } else {
        digits_value(d.drop_last()) * 10 + ((d.last() as nat) - 48) as nat
    }
}

/// What `str::parse` gives for an unsigned integer type whose largest value is
/// `max`: an optional `+`, then at least one ASCII digit, and a value that fits.
pub open spec fn parse_unsigned(s: Seq<char>, max: nat) -> Option<nat> {
    let d = if s.len() > 0 && s[0] == '+' { s.drop_first() } else { s };
    if d.len() > 0 && all_digits(d) && digits_value(d) <= max {
        Some(digits_value(d))
    } else {
        None
    }
}

/// Number of bytes in the UTF-8 encoding of `s`; byte offsets into a `str`
/// are these lengths for prefixes of its characters.
pub open spec fn byte_len(s: Seq<char>) -> nat {
    encode_utf8(s).len()
}

// ---------------------------------------------------------------------------
// Lemmas
// ---------------------------------------------------------------------------

/// `find_from` gives the first occurrence at or after `from`.
pub proof fn lemma_find_from(s: Seq<char>, p: Seq<char>, from: int)
    requires
        0 <= from,
    ensures
        find_from(s, p, from) matches Some(j) ==> from <= j && matches_at(s, p, j) && (forall|k: int|
            from <= k < j ==> !#[trigger] matches_at(s, p, k)),
        find_from(s, p, from) is None ==> forall|k: int| from <= k ==> !#[trigger] matches_at(s, p, k),
    decreases s.len() + 1 - from,
{
    if from + p.len() > s.len() {
    } else if matches_at(s, p, from) {
    } else {
        lemma_find_from(s, p, from + 1);
    }
}

/// Replacing a pattern that does not occur from index `i` on keeps `s[i..]`.
pub proof fn lemma_replace_absent(s: Seq<char>, p: Seq<char>, r: Seq<char>, i: int)
    requires
        0 <= i <= s.len(),
        forall|k: int| i <= k ==> !#[trigger] matches_at(s, p, k),
    ensures
        replace_from(s, p, r, i) == s.subrange(i, s.len() as int),
    decreases s.len() - i,
{
    if i < s.len() {
        lemma_replace_absent(s, p, r, i + 1);
        assert(s.subrange(i, s.len() as int) =~= seq![s[i]] + s.subrange(i + 1, s.len() as int));
    } else {
        assert(s.subrange(i, s.len() as int) =~= Seq::<char>::empty());
    }
}

/// A pattern that does not occur is not replaced: `replace_all` is the identity.
pub proof fn lemma_replace_all_absent(s: Seq<char>, p: Seq<char>, r: Seq<char>)
    requires
        !contains(s, p),
    ensures
        replace_all(s, p, r) == s,
{
    lemma_replace_absent(s, p, r, 0);
    assert(s.subrange(0, s.len() as int) =~= s);
}

/// A non-empty sequence occurs in itself.
pub proof fn lemma_contains_self(t: Seq<char>)
    ensures
        contains(t, t),
{
    assert(t.subrange(0, t.len() as int) =~= t);
    assert(matches_at(t, t, 0));
}

/// What occurs in `s` occurs in `a + s + b`.
pub proof fn lemma_contains_within(a: Seq<char>, s: Seq<char>, b: Seq<char>, t: Seq<char>)
    requires
        contains(s, t),
    ensures
        contains(a + s + b, t),
{
    let i = choose|i: int| matches_at(s, t, i);
    assert((a + s + b).subrange(i + a.len(), i + a.len() + t.len()) =~= s.subrange(i, i + t.len()));
    assert(matches_at(a + s + b, t, i + a.len()));
}

/// What occurs in `s` occurs in `a + s`.
pub proof fn lemma_contains_after(a: Seq<char>, s: Seq<char>, t: Seq<char>)
    requires
        contains(s, t),
    ensures
        contains(a + s, t),
{
    lemma_contains_within(a, s, Seq::empty(), t);
    assert(a + s + Seq::<char>::empty() =~= a + s);
}

/// What occurs in `s` occurs in `s + b`.
pub proof fn lemma_contains_before(s: Seq<char>, b: Seq<char>, t: Seq<char>)
    requires
        contains(s, t),
    ensures
        contains(s + b, t),
{
    lemma_contains_within(Seq::empty(), s, b, t);
    assert(Seq::<char>::empty() + s + b =~= s + b);
}

proof fn lemma_encode_utf8_push(a: Seq<char>, c: char)
    ensures
        encode_utf8(a.push(c)) == encode_utf8(a) + encode_scalar(c as u32),
    decreases a.len(),
{
    if a.len() == 0 {
        assert(a.push(c).drop_first() =~= Seq::<char>::empty());
        assert(encode_utf8(a.push(c).drop_first()) =~= Seq::<u8>::empty());
        assert(encode_utf8(a) =~= Seq::<u8>::empty());
        assert(encode_utf8(a.push(c)) =~= encode_utf8(a) + encode_scalar(c as u32));
    } else {
        lemma_encode_utf8_push(a.drop_first(), c);
        assert(a.push(c).drop_first() =~= a.drop_first().push(c));
        assert(encode_utf8(a.push(c)) =~= encode_utf8(a) + encode_scalar(c as u32));
    }
}

/// Byte length of a prefix grows by the width of the next character.
pub(crate) proof fn lemma_byte_len_take(s: Seq<char>, i: int)
    requires
        0 <= i < s.len(),
    ensures
        byte_len(s.take(i + 1)) == byte_len(s.take(i)) + encode_scalar(s[i] as u32).len(),
{
    assert(s.take(i + 1) =~= s.take(i).push(s[i]));
    lemma_encode_utf8_push(s.take(i), s[i]);
}

// ---------------------------------------------------------------------------
// Conversions between `String` and `Vec<char>`
// ---------------------------------------------------------------------------

/// Appends one character to a `String` (std's `String::push`).
/// Trusted: the documentation of `String::push` says that it appends the given
/// `char` to the end of the string; the contract states exactly that.
#[verifier::external_body]
pub(crate) fn push_char(s: &mut String, c: char)
    ensures
        final(s)@ == old(s)@.push(c),
{
    s.push(c);
}

/// The characters of a string slice, in order.
pub fn chars_of(s: &str) -> (v: Vec<char>)
    ensures
        v@ == s@,
{
    let mut v: Vec<char> = Vec::new();
    for c in it: s.chars()
        invariant
            v@ == it.seq().take(it.index() as int),
    {
        v.push(c);
    }
    v
}

/// A string holding the characters `v[from..to]`.
pub fn string_of(v: &Vec<char>, from: usize, to: usize) -> (s: String)
    requires
        from <= to <= v.len(),
    ensures
        s@ == v@.subrange(from as int, to as int),
{
    let mut s = String::new();
    let mut i = from;
    while i < to
        invariant
            from <= i <= to <= v.len(),
            s@ == v@.subrange(from as int, i as int),
        decreases to - i,
    {
        push_char(&mut s, v[i]);
        assert(v@.subrange(from as int, i + 1) =~= v@.subrange(from as int, i as int).push(v@[i as int]));
        i += 1;
    }
    s
}

/// A copy of a string slice as a `String`.
pub fn owned(s: &str) -> (r: String)
    ensures
        r@ == s@,
{
    let mut r = String::new();
    r.append(s);
    assert(r@ =~= s@);
    r
}

/// The concatenation of two string slices.
pub fn concat2(a: &str, b: &str) -> (r: String)
    ensures
        r@ == a@ + b@,
{
    let mut r = owned(a);
    r.append(b);
    r
}

// ---------------------------------------------------------------------------
// Searching
// ---------------------------------------------------------------------------

/// Whether `p` occurs in `s` at index `i`.
pub fn matches_here(s: &Vec<char>, p: &Vec<char>, i: usize) -> (b: bool)
    ensures
        b == matches_at(s@, p@, i as int),
{
    if i > s.len() || p.len() > s.len() - i {
        return false;
    }
    let mut j: usize = 0;
    while j < p.len()
        invariant
            j <= p.len(),
            i + p.len() <= s.len(),
            forall|k: int| 0 <= k < j ==> s@[i + k] == p@[k],
        decreases p.len() - j,
    {
        if s[i + j] != p[j] {
            assert(s@.subrange(i as int, i + p.len())[j as int] != p@[j as int]);
            return false;
        }
        j += 1;
    }
    assert(s@.subrange(i as int, i + p.len()) =~= p@);
    true
}

/// The first index at or after `from` where `p` occurs in `s`.
pub fn find_in(s: &Vec<char>, p: &Vec<char>, from: usize) -> (r: Option<usize>)
    ensures
        r matches Some(j) ==> find_from(s@, p@, from as int) == Some(j as int),
        r is None ==> find_from(s@, p@, from as int) is None,
{
    if from > s.len() || p.len() > s.len() - from {
        return None;
    }
    let last = s.len() - p.len();
    let mut i = from;
    while i <= last
        invariant
            from <= i,
            last + p.len() == s.len(),
            i <= last + 1,
            find_from(s@, p@, from as int) == find_from(s@, p@, i as int),
        decreases last + 1 - i,
    {
        if matches_here(s, p, i) {
            return Some(i);
        }
        if i == last {
            assert(find_from(s@, p@, i + 1) is None);
            return None;
        }
        i += 1;
    }
    None
}

/// Whether `p` occurs in `s`.
pub fn contains_in(s: &Vec<char>, p: &Vec<char>) -> (b: bool)
    ensures
        b == contains(s@, p@),
{
    proof {
        lemma_find_from(s@, p@, 0);
    }
    match find_in(s, p, 0) {
        Some(_) => true,
        None => false,
    }
}

/// Number of leftmost, non-overlapping occurrences of `p` in `s`.
pub fn count_in(s: &Vec<char>, p: &Vec<char>) -> (n: usize)
    requires
        p.len() > 0,
    ensures
        n == count(s@, p@),
{
    let mut i: usize = 0;
    let mut n: usize = 0;
    while i < s.len()
        invariant
            i <= s.len(),
            p.len() > 0,
            n <= i,
            count(s@, p@) == n + count_from(s@, p@, i as int),
        decreases s.len() - i,
    {
        if matches_here(s, p, i) {
            n += 1;
            i += p.len();
        } else {
            i += 1;
        }
    }
    n
}

// ---------------------------------------------------------------------------
// Replacing
// ---------------------------------------------------------------------------

/// `s` with every leftmost, non-overlapping occurrence of `p` replaced by `r`.
pub fn replace_in(s: &Vec<char>, p: &Vec<char>, r: &str) -> (out: String)
    requires
        p.len() > 0,
    ensures
        out@ == replace_all(s@, p@, r@),
{
    let mut out = String::new();
    let mut i: usize = 0;
    while i < s.len()
        invariant
            i <= s.len(),
            p.len() > 0,
            replace_all(s@, p@, r@) == out@ + replace_from(s@, p@, r@, i as int),
        decreases s.len() - i,
    {
        if matches_here(s, p, i) {
            let ghost before = out@;
            out.append(r);
            assert(before + (r@ + replace_from(s@, p@, r@, i + p.len())) =~= out@ + replace_from(
                s@,
                p@,
                r@,
                i + p.len(),
            ));
            i += p.len();
        } else {
            let ghost before = out@;
            push_char(&mut out, s[i]);
            assert(before + (seq![s@[i as int]] + replace_from(s@, p@, r@, i + 1)) =~= out@
                + replace_from(s@, p@, r@, i + 1));
            i += 1;
        }
    }
    assert(out@ + replace_from(s@, p@, r@, i as int) =~= out@);
    out
}

/// `str::replace` on string slices, for a non-empty pattern.
pub fn replace_str(s: &str, p: &str, r: &str) -> (out: String)
    requires
        p@.len() > 0,
    ensures
        out@ == replace_all(s@, p@, r@),
{
    let sv = chars_of(s);
    let pv = chars_of(p);
    replace_in(&sv, &pv, r)
}

/// Whether `p` occurs in `s`, on string slices.
pub fn contains_str(s: &str, p: &str) -> (b: bool)
    ensures
        b == contains(s@, p@),
{
    let sv = chars_of(s);
    let pv = chars_of(p);
    contains_in(&sv, &pv)
}

// ---------------------------------------------------------------------------
// Numbers
// ---------------------------------------------------------------------------

/// The decimal representation of `n` (what `n.to_string()` gives).
pub fn decimal_string(n: usize) -> (s: String)
    ensures
        s@ == decimal(n as nat),
    decreases n,
{
    if n < 10 {
        let mut s = String::new();
        push_char(&mut s, ((48 + n) as u8) as char);
        assert(s@ =~= seq![digit_char(n as nat)]);
        s
    } else {
        let mut s = decimal_string(n / 10);
        push_char(&mut s, ((48 + n % 10) as u8) as char);
        s
    }
}

/// What `str::parse` gives for an unsigned type whose largest value is `max`.
pub fn parse_unsigned_in(s: &Vec<char>, max: u64) -> (r: Option<u64>)
    requires
        9 <= max < u64::MAX,
    ensures
        r matches Some(v) ==> parse_unsigned(s@, max as nat) == Some(v as nat),
        r is None ==> parse_unsigned(s@, max as nat) is None,
{
    let start: usize = if s.len() > 0 && s[0] == '+' { 1 } else { 0 };
    let ghost d = if s@.len() > 0 && s@[0] == '+' { s@.drop_first() } else { s@ };
    assert(d =~= s@.subrange(start as int, s@.len() as int));
    if start == s.len() {
        return None;
    }
    // `acc` is the value of the digits read so far, capped at `max + 1`.
    let mut acc: u64 = 0;
    let mut i = start;
    while i < s.len()
        invariant
            start <= i <= s.len(),
            9 <= max < u64::MAX,
            d == s@.subrange(start as int, s@.len() as int),
            d == (if s@.len() > 0 && s@[0] == '+' { s@.drop_first() } else { s@ }),
            forall|k: int| start <= k < i ==> is_ascii_digit(#[trigger] s@[k]),
            acc <= max + 1,
            acc == (if digits_value(s@.subrange(start as int, i as int)) <= max {
                digits_value(s@.subrange(start as int, i as int))
            } else {
                (max + 1) as nat
            }),
        decreases s.len() - i,
    {
        let c = s[i];
        if !('0' <= c && c <= '9') {
            assert(d[i - start] == s@[i as int]);
            assert(!is_ascii_digit(d[i - start]));
            assert(!all_digits(d));
            assert(parse_unsigned(s@, max as nat) is None);
            return None;
        }
        let dv = (c as u32 - 48) as u64;
        let ghost pre = s@.subrange(start as int, i as int);
        let ghost next = s@.subrange(start as int, i + 1);
        assert(next.drop_last() =~= pre);
        assert(digits_value(next) == digits_value(pre) * 10 + dv);
        if acc > max || acc > (max - dv) / 10 {
            proof {
                if digits_value(pre) <= max {
                    assert(acc == digits_value(pre));
                    assert(digits_value(pre) * 10 + dv > max) by (nonlinear_arith)
                        requires
                            acc == digits_value(pre),
                            acc > (max - dv) / 10,
                            dv <= 9,
                            dv <= max || acc > max,
                    ;
                } else {
                    assert(digits_value(pre) * 10 + dv > max) by (nonlinear_arith)
                        requires
                            digits_value(pre) > max,
                    ;
                }
            }
            acc = max + 1;
        } else {
            assert(acc * 10 + dv <= max) by (nonlinear_arith)
                requires
                    acc <= (max - dv) / 10,
                    dv <= max,
            ;
            acc = acc * 10 + dv;
        }
        i += 1;
    }
    assert(s@.subrange(start as int, i as int) =~= d);
    if acc <= max {
        Some(acc)
    } else {
        None
    }
}

// ---------------------------------------------------------------------------
// Trimming
// ---------------------------------------------------------------------------

/// Whether `c` is Unicode whitespace (`char::is_whitespace`).
pub fn is_whitespace_char(c: char) -> (b: bool)
    ensures
        b == is_whitespace(c),
{
    ('\t' <= c && c <= '\r') || c == ' ' || c == '\u{85}' || c == '\u{A0}' || c == '\u{1680}' || (
    '\u{2000}' <= c && c <= '\u{200A}') || c == '\u{2028}' || c == '\u{2029}' || c == '\u{202F}'
        || c == '\u{205F}' || c == '\u{3000}'
}

/// The characters of `s` without leading and trailing whitespace (`str::trim`).
pub fn trim_in(s: &Vec<char>) -> (t: Vec<char>)
    ensures
        t@ == trim(s@),
{
    let mut a: usize = 0;
    assert(s@.subrange(0, s@.len() as int) =~= s@);
    while a < s.len() && is_whitespace_char(s[a])
        invariant
            a <= s.len(),
            trim_start(s@) == trim_start(s@.subrange(a as int, s@.len() as int)),
        decreases s.len() - a,
    {
        assert(s@.subrange(a as int, s@.len() as int).drop_first() =~= s@.subrange(
            a + 1,
            s@.len() as int,
        ));
        a += 1;
    }
    let ghost left = s@.subrange(a as int, s@.len() as int);
    assert(trim_start(left) == left);
    let mut b: usize = s.len();
    while b > a && is_whitespace_char(s[b - 1])
        invariant
            a <= b <= s.len(),
            left == s@.subrange(a as int, s@.len() as int),
            trim_end(left) == trim_end(s@.subrange(a as int, b as int)),
        decreases b - a,
    {
        assert(s@.subrange(a as int, b as int).drop_last() =~= s@.subrange(a as int, b - 1));
        b -= 1;
    }
    let mut t: Vec<char> = Vec::new();
    let mut i = a;
    while i < b
        invariant
            a <= i <= b <= s.len(),
            t@ == s@.subrange(a as int, i as int),
        decreases b - i,
    {
        t.push(s[i]);
        assert(s@.subrange(a as int, i + 1) =~= s@.subrange(a as int, i as int).push(s@[i as int]));
        i += 1;
    }
    t
}

// ---------------------------------------------------------------------------
// UTF-8 byte offsets
// ---------------------------------------------------------------------------

/// Number of bytes of `c` in UTF-8 (`char::len_utf8`).
pub fn utf8_width(c: char) -> (w: u128)
    ensures
        w == encode_scalar(c as u32).len(),
        1 <= w <= 4,
{
    let v = c as u32;
    proof {
        vstd::utf8::char_is_scalar(c);
    }
    if v <= 0x7F {
        1
    } else if v <= 0x7FF {
        2
    } else if v <= 0xFFFF {
        3
    } else {
        4
    }
}

/// Byte offset of the character index `k` in `s`: the UTF-8 length of `s[..k]`.
pub fn byte_offset(s: &Vec<char>, k: usize) -> (b: u128)
    requires
        k <= s.len(),
    ensures
        b == byte_len(s@.take(k as int)),
        b <= 4 * k,
{
    let mut b: u128 = 0;
    let mut i: usize = 0;
    assert(s@.take(0) =~= Seq::<char>::empty());
    assert(encode_utf8(Seq::<char>::empty()) =~= Seq::<u8>::empty());
    while i < k
        invariant
            i <= k <= s.len(),
            b == byte_len(s@.take(i as int)),
            b <= 4 * i,
        decreases k - i,
    {
        let w = utf8_width(s[i]);
        proof {
            lemma_byte_len_take(s@, i as int);
        }
        b = b + w;
        i += 1;
    }
    b
}

} // verus!
