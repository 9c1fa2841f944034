//! Verified text utilities: character access, decimal rendering, prefix and
//! substring tests, line splitting with the usual newline conventions, and
//! whitespace-aware trimming and tokenization.
//!
//! Unicode classifications that only the standard library can compute
//! (whitespace test, lowercasing) are taken on trust through small wrappers;
//! everything built on them is verified.

use vstd::prelude::*;
use vstd::string::*;
use vstd::utf8::{valid_utf8, decode_utf8, encode_utf8};

verus! {

// ----- trusted names for standard-library results -----

/// What `char::is_whitespace` returns: a fixed predicate of the character.
pub uninterp spec fn is_space_char(c: char) -> bool;

/// What `str::to_lowercase` returns: a function of the characters alone.
pub uninterp spec fn lower_of(s: Seq<char>) -> Seq<char>;

/// Relies on `char::is_whitespace`: the Unicode whitespace test of one
/// character. The usual separators are whitespace; ASCII letters, digits
/// and common path punctuation are not.
#[verifier::external_body]
pub fn char_is_space(c: char) -> (r: bool)
    ensures
        r == is_space_char(c),
        c == ' ' || c == '\t' || c == '\n' || c == '\r' ==> r,
        ('a' <= c && c <= 'z') || ('A' <= c && c <= 'Z') || ('0' <= c && c <= '9') || c == '-'
            || c == '_' || c == '/' || c == '.' ==> !r,
{
    c.is_whitespace()
}

/// Relies on `str::to_lowercase`: the result depends on the characters
/// alone; an empty string stays empty, and on all-ASCII input it is exactly
/// the per-character ASCII lowering.
#[verifier::external_body]
pub fn lowercase(s: &str) -> (r: String)
    ensures
        r@ == lower_of(s@),
        s@.len() == 0 ==> r@.len() == 0,
        is_ascii(s) ==> r@.len() == s@.len() && (forall|i: int|
            0 <= i < s@.len() ==> (('A' <= s@[i] && s@[i] <= 'Z') ==> (#[trigger] r@[i]) as int
                == s@[i] as int + 32) && (!('A' <= s@[i] && s@[i] <= 'Z') ==> r@[i] == s@[i])),
{
    s.to_lowercase()
}

/// Relies on `String::push`: appends exactly the one character.
#[verifier::external_body]
pub fn push_char(s: &mut String, c: char)
    ensures
        final(s)@ == old(s)@.push(c),
{
    s.push(c)
}

/// Relies on `String::from_utf8`: succeeds exactly on valid UTF-8 and returns
/// the string that encodes to the input bytes.
#[verifier::external_body]
pub fn string_from_utf8(bytes: Vec<u8>) -> (r: Option<String>)
    ensures
        r is Some <==> valid_utf8(bytes@),
        r is Some ==> r.unwrap()@ == decode_utf8(bytes@) && encode_utf8(r.unwrap()@) == bytes@,
{
    match String::from_utf8(bytes) {
        Ok(s) => Some(s),
        Err(_) => None,
    }
}

// ----- character vectors and strings -----

/// The characters of a string slice, as a vector.
pub fn chars_vec(s: &str) -> (v: Vec<char>)
    ensures
        v@ == s@,
{
    let n = s.unicode_len();
    let mut v: Vec<char> = Vec::new();
    let mut i: usize = 0;
    while i < n
        invariant
            n == s@.len(),
            i <= n,
            v@ == s@.take(i as int),
        decreases n - i,
    {
        v.push(s.get_char(i));
        i = i + 1;
        assert(s@.take(i as int) == s@.take(i - 1).push(s@[i - 1]));
    }
    assert(s@.take(n as int) == s@);
    v
}

/// A string made of exactly the given characters.
pub fn string_from_chars(v: &[char]) -> (s: String)
    ensures
        s@ == v@,
{
    let mut s = String::new();
    let mut i: usize = 0;
    while i < v.len()
        invariant
            i <= v@.len(),
            s@ == v@.take(i as int),
        decreases v@.len() - i,
    {
        push_char(&mut s, v[i]);
        i = i + 1;
        assert(v@.take(i as int) == v@.take(i - 1).push(v@[i - 1]));
    }
    assert(v@.take(v@.len() as int) == v@);
    s
}

/// The characters `v[from..to]`, as a fresh vector.
pub fn subvec_chars(v: &[char], from: usize, to: usize) -> (r: Vec<char>)
    requires
        from <= to <= v@.len(),
    ensures
        r@ == v@.subrange(from as int, to as int),
{
    let mut r: Vec<char> = Vec::new();
    let mut i: usize = from;
    while i < to
        invariant
            from <= i <= to <= v@.len(),
            r@ == v@.subrange(from as int, i as int),
        decreases to - i,
    {
        r.push(v[i]);
        i = i + 1;
        assert(v@.subrange(from as int, i as int)
            == v@.subrange(from as int, i - 1).push(v@[i - 1]));
    }
    r
}

/// Appending one element inserts it into the set of elements.
pub proof fn lemma_push_to_set<A>(s: Seq<A>, x: A)
    ensures
        (s.push(x)).to_set() == s.to_set().insert(x),
{
    assert forall|a: A| #[trigger] (s.push(x)).to_set().contains(a) implies s.to_set().insert(
        x,
    ).contains(a) by {
        let i = choose|i: int| 0 <= i < s.push(x).len() && s.push(x)[i] == a;
        if i < s.len() {
            assert(s[i] == a);
        }
    }
    assert forall|a: A| s.to_set().insert(x).contains(a) implies #[trigger] (s.push(
        x,
    )).to_set().contains(a) by {
        if s.to_set().contains(a) {
            let i = choose|i: int| 0 <= i < s.len() && s[i] == a;
            assert(s.push(x)[i] == a);
        } else {
            assert(s.push(x)[s.len() as int] == a);
        }
    }
    assert((s.push(x)).to_set() =~= s.to_set().insert(x));
}

// ----- prefix and substring tests -----

/// `p` is a prefix of `s`.
pub open spec fn seq_starts_with(s: Seq<char>, p: Seq<char>) -> bool {
    p.len() <= s.len() && s.take(p.len() as int) == p
}

/// `p` occurs somewhere in `s` as a contiguous run.
pub open spec fn seq_contains_sub(s: Seq<char>, p: Seq<char>) -> bool {
    exists|i: int| 0 <= i && i + p.len() <= s.len() && #[trigger] s.subrange(i, i + p.len()) == p
}

/// Whether the characters `p` are a prefix of `s`.
pub fn chars_start_with(s: &[char], p: &[char]) -> (r: bool)
    ensures
        r == seq_starts_with(s@, p@),
{
    if p.len() > s.len() {
        assert(!seq_starts_with(s@, p@));
        return false;
    }
    let mut i: usize = 0;
    while i < p.len()
        invariant
            p@.len() <= s@.len(),
            i <= p@.len(),
            forall|k: int| 0 <= k < i ==> s@[k] == p@[k],
        decreases p@.len() - i,
    {
        if s[i] != p[i] {
            assert(s@.take(p@.len() as int)[i as int] != p@[i as int]);
            return false;
        }
        i = i + 1;
    }
    assert(s@.take(p@.len() as int) =~= p@);
    true
}

/// `p` is a suffix of `s`.
pub open spec fn seq_ends_with(s: Seq<char>, p: Seq<char>) -> bool {
    p.len() <= s.len() && s.skip(s.len() - p.len()) == p
}

/// Whether the characters `p` are a suffix of `s`.
pub fn chars_end_with(s: &[char], p: &[char]) -> (r: bool)
    ensures
        r == seq_ends_with(s@, p@),
{
    let n = s.len();
    let m = p.len();
    if m > n {
        assert(!seq_ends_with(s@, p@));
        return false;
    }
    let base = n - m;
    let mut j: usize = 0;
    while j < m
        invariant
            n == s@.len(),
            m == p@.len(),
            base == n - m,
            m <= n,
            j <= m,
            forall|k: int| 0 <= k < j ==> s@[base + k] == p@[k],
        decreases m - j,
    {
        if s[base + j] != p[j] {
            assert(s@.skip(s@.len() - p@.len())[j as int] != p@[j as int]);
            return false;
        }
        j = j + 1;
    }
    assert(s@.skip(s@.len() - p@.len()) =~= p@);
    true
}

/// Bytes copied one for one.
pub fn copy_bytes(v: &[u8]) -> (r: Vec<u8>)
    ensures
        r@ == v@,
{
    let mut r: Vec<u8> = Vec::new();
    let n = v.len();
    let mut i: usize = 0;
    while i < n
        invariant
            n == v@.len(),
            i <= n,
            r@ == v@.take(i as int),
        decreases n - i,
    {
        r.push(v[i]);
        i = i + 1;
        assert(v@.take(i as int) == v@.take(i - 1).push(v@[i - 1]));
    }
    assert(v@.take(n as int) == v@);
    r
}

/// Strings copied one for one.
pub fn clone_string_vec(v: &Vec<String>) -> (r: Vec<String>)
    ensures
        r.deep_view() == v.deep_view(),
{
    let mut r: Vec<String> = Vec::new();
    let n = v.len();
    let mut i: usize = 0;
    while i < n
        invariant
            n == v@.len(),
            i <= n,
            r.deep_view() =~= v.deep_view().take(i as int),
        decreases n - i,
    {
        r.push(v[i].clone());
        i = i + 1;
        assert(v.deep_view().take(i as int)
            =~= v.deep_view().take(i - 1).push(v.deep_view()[i - 1]));
    }
    assert(v.deep_view().take(n as int) =~= v.deep_view());
    r
}

/// Whether the characters `p` stand at position `i` of `s`.
pub fn chars_match_at(s: &[char], p: &[char], i: usize) -> (r: bool)
    requires
        i + p@.len() <= s@.len(),
    ensures
        r == (s@.subrange(i as int, i + p@.len()) == p@),
{
    let n = s.len();
    let m = p.len();
    let mut j: usize = 0;
    while j < m
        invariant
            n == s@.len(),
            m == p@.len(),
            i + p@.len() <= s@.len(),
            j <= p@.len(),
            forall|k: int| 0 <= k < j ==> s@[i + k] == p@[k],
        decreases p@.len() - j,
    {
        if s[i + j] != p[j] {
            assert(s@.subrange(i as int, i + p@.len())[j as int] != p@[j as int]);
            return false;
        }
        j = j + 1;
    }
    assert(s@.subrange(i as int, i + p@.len()) =~= p@);
    true
}

/// Whether the characters `p` occur contiguously in `s`.
pub fn chars_contain(s: &[char], p: &[char]) -> (r: bool)
    ensures
        r == seq_contains_sub(s@, p@),
{
    let n = s.len();
    let m = p.len();
    if m > n {
        assert(!seq_contains_sub(s@, p@));
        return false;
    }
    if m == 0 {
        assert(seq_contains_sub(s@, p@)) by {
            assert(s@.subrange(0, 0 + p@.len() as int) =~= p@);
        }
        return true;
    }
    let mut i: usize = 0;
    while i <= n - m
        invariant
            n == s@.len(),
            m == p@.len(),
            1 <= p@.len() <= s@.len(),
            i <= s@.len() - p@.len() + 1,
            forall|k: int| 0 <= k < i ==> #[trigger] s@.subrange(k, k + p@.len()) != p@,
        decreases s@.len() + 1 - i,
    {
        if chars_match_at(s, p, i) {
            return true;
        }
        i = i + 1;
    }
    assert(!seq_contains_sub(s@, p@)) by {
        if seq_contains_sub(s@, p@) {
            let k = choose|k: int| 0 <= k && k + p@.len() <= s@.len()
                && #[trigger] s@.subrange(k, k + p@.len()) == p@;
            assert(s@.subrange(k, k + p@.len()) != p@);
        }
    }
    false
}

// ----- decimal rendering -----

/// The character for one decimal digit.
pub open spec fn digit_char(d: int) -> char {
    if d == 0 { '0' }
    else if d == 1 { '1' }
    else if d == 2 { '2' }
    else if d == 3 { '3' }
    else if d == 4 { '4' }
    else if d == 5 { '5' }
    else if d == 6 { '6' }
    else if d == 7 { '7' }
    else if d == 8 { '8' }
    else { '9' }
}

/// The decimal digits of a nonnegative number, most significant first,
/// without leading zeros (`0` itself is the single digit `0`).
pub open spec fn decimal_digits(n: int) -> Seq<char>
    decreases n,
{
    if n < 10 {
        seq![digit_char(n)]
    } else {
        decimal_digits(n / 10).push(digit_char(n % 10))
    }
}

/// A decimal string has at least one digit.
pub proof fn lemma_decimal_digits_len_pos(n: int)
    ensures
        decimal_digits(n).len() >= 1,
    decreases n,
{
    if n >= 10 {
        lemma_decimal_digits_len_pos(n / 10);
    }
}

/// Digit characters are distinct for distinct digits.
proof fn lemma_digit_char_injective(a: int, b: int)
    requires
        0 <= a < 10,
        0 <= b < 10,
        digit_char(a) == digit_char(b),
    ensures
        a == b,
{
}

/// Decimal strings are unique: equal strings mean equal numbers.
pub proof fn lemma_decimal_digits_injective(a: int, b: int)
    requires
        0 <= a,
        0 <= b,
        decimal_digits(a) == decimal_digits(b),
    ensures
        a == b,
    decreases a + b,
{
    lemma_decimal_digits_len_pos(a);
    lemma_decimal_digits_len_pos(b);
    if a < 10 && b < 10 {
        assert(decimal_digits(a)[0] == digit_char(a));
        assert(decimal_digits(b)[0] == digit_char(b));
        lemma_digit_char_injective(a % 10, b % 10);
        lemma_digit_char_injective(a, b);
    } else if a < 10 {
        lemma_decimal_digits_len_pos(b / 10);
        assert(decimal_digits(a).len() == 1);
        assert(decimal_digits(b).len() >= 2);
    } else if b < 10 {
        lemma_decimal_digits_len_pos(a / 10);
        assert(decimal_digits(a).len() >= 2);
        assert(decimal_digits(b).len() == 1);
    } else {
        assert(decimal_digits(a).last() == digit_char(a % 10));
        assert(decimal_digits(b).last() == digit_char(b % 10));
        lemma_digit_char_injective(a % 10, b % 10);
        assert(decimal_digits(a).drop_last() =~= decimal_digits(a / 10));
        assert(decimal_digits(b).drop_last() =~= decimal_digits(b / 10));
        lemma_decimal_digits_injective(a / 10, b / 10);
    }
}

/// A number whose decimal string extends another's is at least as large:
/// the shorter string names the smaller number.
pub proof fn lemma_prefix_digits_le(a: int, b: int)
    requires
        0 <= a,
        0 <= b,
        seq_starts_with(decimal_digits(b), decimal_digits(a)),
    ensures
        a <= b,
    decreases b,
{
    lemma_decimal_digits_len_pos(a);
    lemma_decimal_digits_len_pos(b);
    let da = decimal_digits(a);
    let db = decimal_digits(b);
    if da.len() == db.len() {
        assert(db.take(da.len() as int) =~= db);
        lemma_decimal_digits_injective(a, b);
    } else {
        assert(da.len() < db.len());
        assert(b >= 10) by {
            if b < 10 {
                assert(db.len() == 1);
            }
        }
        assert(db == decimal_digits(b / 10).push(digit_char(b % 10)));
        assert(db.drop_last() =~= decimal_digits(b / 10));
        assert(seq_starts_with(decimal_digits(b / 10), da)) by {
            assert(decimal_digits(b / 10).take(da.len() as int) =~= db.take(da.len() as int));
        }
        lemma_prefix_digits_le(a, b / 10);
        assert(b / 10 < b) by {
            assert(b == 10 * (b / 10) + b % 10);
        }
    }
}

fn digit_char_exec(d: u64) -> (c: char)
    requires
        d < 10,
    ensures
        c == digit_char(d as int),
{
    if d == 0 { '0' }
    else if d == 1 { '1' }
    else if d == 2 { '2' }
    else if d == 3 { '3' }
    else if d == 4 { '4' }
    else if d == 5 { '5' }
    else if d == 6 { '6' }
    else if d == 7 { '7' }
    else if d == 8 { '8' }
    else { '9' }
}

fn push_decimal(out: &mut Vec<char>, n: u64)
    ensures
        final(out)@ == old(out)@ + decimal_digits(n as int),
    decreases n,
{
    if n >= 10 {
        push_decimal(out, n / 10);
    }
    out.push(digit_char_exec(n % 10));
    proof {
        if n < 10 {
            assert(n % 10 == n as int);
            assert(old(out)@ + decimal_digits(n as int) =~= old(out)@.push(digit_char(n as int)));
        } else {
            assert(old(out)@ + decimal_digits(n as int)
                =~= (old(out)@ + decimal_digits(n as int / 10)).push(digit_char(n as int % 10)));
        }
    }
}

/// The decimal string of `n`.
pub fn u64_to_string(n: u64) -> (s: String)
    ensures
        s@ == decimal_digits(n as int),
{
    let mut v: Vec<char> = Vec::new();
    push_decimal(&mut v, n);
    assert(v@ =~= decimal_digits(n as int));
    string_from_chars(v.as_slice())
}

/// The decimal characters of `n`, as a vector.
pub fn u64_to_chars(n: u64) -> (v: Vec<char>)
    ensures
        v@ == decimal_digits(n as int),
{
    let mut v: Vec<char> = Vec::new();
    push_decimal(&mut v, n);
    assert(v@ =~= decimal_digits(n as int));
    v
}

// ----- line splitting -----

/// Index of the first newline of `s` at or after `i`, or the length if none.
pub open spec fn next_newline(s: Seq<char>, i: int) -> int
    decreases s.len() - i,
{
    if i >= s.len() {
        s.len() as int
    } else if s[i] == '\n' {
        i
    } else {
        next_newline(s, i + 1)
    }
}

pub proof fn lemma_next_newline(s: Seq<char>, i: int)
    requires
        0 <= i <= s.len(),
    ensures
        i <= next_newline(s, i) <= s.len(),
        next_newline(s, i) < s.len() ==> s[next_newline(s, i)] == '\n',
        forall|k: int| i <= k < next_newline(s, i) ==> s[k] != '\n',
    decreases s.len() - i,
{
    if i < s.len() && s[i] != '\n' {
        lemma_next_newline(s, i + 1);
    }
}

pub proof fn lemma_next_newline_is(s: Seq<char>, i: int, j: int)
    requires
        0 <= i <= j <= s.len(),
        forall|k: int| i <= k < j ==> s[k] != '\n',
        j < s.len() ==> s[j] == '\n',
    ensures
        next_newline(s, i) == j,
    decreases j - i,
{
    if i < j {
        lemma_next_newline_is(s, i + 1, j);
    }
}

/// One line as `str::lines` yields it: a carriage return standing just before
/// the line feed is dropped along with it.
pub open spec fn strip_cr(line: Seq<char>) -> Seq<char> {
    if line.len() > 0 && line.last() == '\r' {
        line.drop_last()
    } else {
        line
    }
}

/// The lines of `s[i..]`, split as `str::lines` splits: lines end at `\n` or
/// `\r\n`, terminators are dropped, and a final line without a terminator is
/// kept (a trailing terminator adds no empty final line).
pub open spec fn lines_from(s: Seq<char>, i: int) -> Seq<Seq<char>>
    decreases s.len() - i
        when 0 <= i
        via lines_from_dec
{
    if i >= s.len() {
        Seq::empty()
    } else {
        let j = next_newline(s, i);
        if j >= s.len() {
            seq![s.subrange(i, s.len() as int)]
        } else {
            seq![strip_cr(s.subrange(i, j))] + lines_from(s, j + 1)
        }
    }
}

#[via_fn]
proof fn lines_from_dec(s: Seq<char>, i: int) {
    if 0 <= i < s.len() {
        lemma_next_newline(s, i);
    }
}

/// All lines of `s`.
pub open spec fn spec_lines(s: Seq<char>) -> Seq<Seq<char>> {
    lines_from(s, 0)
}

/// Splits `s` into its lines, exactly as `str::lines` does.
pub fn split_lines(s: &str) -> (r: Vec<String>)
    ensures
        r.deep_view() == spec_lines(s@),
{
    let cs = chars_vec(s);
    let n = cs.len();
    let mut out: Vec<String> = Vec::new();
    let mut i: usize = 0;
    while i < n
        invariant
            n == cs@.len(),
            cs@ == s@,
            i <= n + 1,
            out.deep_view() + lines_from(s@, i as int) == spec_lines(s@),
        decreases n + 1 - i,
    {
        let ghost prev = out.deep_view();
        let mut j: usize = i;
        while j < n && cs[j] != '\n'
            invariant
                n == cs@.len(),
                cs@ == s@,
                i <= j <= n,
                forall|k: int| i <= k < j ==> s@[k] != '\n',
            decreases n - j,
        {
            j = j + 1;
        }
        proof {
            lemma_next_newline_is(s@, i as int, j as int);
        }
        let line_end = if j < n && j > i && cs[j - 1] == '\r' {
            j - 1
        } else {
            j
        };
        let line = subvec_chars(cs.as_slice(), i, line_end);
        let line_str = string_from_chars(line.as_slice());
        out.push(line_str);
        let next_i = if j < n {
            j + 1
        } else {
            n
        };
        proof {
            assert(out.deep_view() =~= prev.push(line_str@));
            if j < n {
                assert(line_str@ == strip_cr(s@.subrange(i as int, j as int)));
                assert(prev.push(line_str@) + lines_from(s@, next_i as int)
                    =~= prev + lines_from(s@, i as int));
            } else {
                assert(line_str@ == s@.subrange(i as int, n as int));
                assert(lines_from(s@, i as int) =~= seq![line_str@]);
                assert(lines_from(s@, next_i as int) =~= Seq::<Seq<char>>::empty());
                assert(prev.push(line_str@) + lines_from(s@, next_i as int)
                    =~= prev + lines_from(s@, i as int));
            }
        }
        i = next_i;
    }
    proof {
        assert(out.deep_view() + lines_from(s@, i as int) =~= out.deep_view());
    }
    out
}

// ----- trimming -----

/// Index of the first non-whitespace character of `s` at or after `i`,
/// or the length if none.
pub open spec fn next_non_space(s: Seq<char>, i: int) -> int
    decreases s.len() - i,
{
    if i >= s.len() {
        s.len() as int
    } else if !is_space_char(s[i]) {
        i
    } else {
        next_non_space(s, i + 1)
    }
}

/// Index of the last non-whitespace character of `s` at or before `i`,
/// or `-1` if none.
pub open spec fn prev_non_space(s: Seq<char>, i: int) -> int
    decreases i + 1,
{
    if i < 0 {
        -1
    } else if !is_space_char(s[i]) {
        i
    } else {
        prev_non_space(s, i - 1)
    }
}

/// `s` with leading and trailing whitespace removed, as `str::trim` does.
pub open spec fn spec_trim(s: Seq<char>) -> Seq<char> {
    let a = next_non_space(s, 0);
    let b = prev_non_space(s, s.len() - 1);
    if b < a {
        Seq::empty()
    } else {
        s.subrange(a, b + 1)
    }
}

proof fn lemma_next_non_space_is(s: Seq<char>, i: int, j: int)
    requires
        0 <= i <= j <= s.len(),
        forall|k: int| i <= k < j ==> is_space_char(s[k]),
        j < s.len() ==> !is_space_char(s[j]),
    ensures
        next_non_space(s, i) == j,
    decreases j - i,
{
    if i < j {
        lemma_next_non_space_is(s, i + 1, j);
    }
}

proof fn lemma_prev_non_space_is(s: Seq<char>, i: int, j: int)
    requires
        -1 <= j <= i < s.len(),
        forall|k: int| j < k <= i ==> is_space_char(s[k]),
        j >= 0 ==> !is_space_char(s[j]),
    ensures
        prev_non_space(s, i) == j,
    decreases i - j,
{
    if j < i {
        lemma_prev_non_space_is(s, i - 1, j);
    }
}

/// The characters of `cs` with leading and trailing whitespace removed.
pub fn trim_chars(cs: &[char]) -> (r: Vec<char>)
    ensures
        r@ == spec_trim(cs@),
{
    let n = cs.len();
    let mut a: usize = 0;
    while a < n && char_is_space(cs[a])
        invariant
            n == cs@.len(),
            a <= n,
            forall|k: int| 0 <= k < a ==> is_space_char(cs@[k]),
        decreases n - a,
    {
        a = a + 1;
    }
    proof {
        lemma_next_non_space_is(cs@, 0, a as int);
    }
    if a == n {
        proof {
            lemma_prev_non_space_is(cs@, n as int - 1, -1);
        }
        return Vec::new();
    }
    let mut b: usize = n - 1;
    while b > a && char_is_space(cs[b])
        invariant
            n == cs@.len(),
            a <= b < n,
            forall|k: int| b < k < n ==> is_space_char(cs@[k]),
        decreases b,
    {
        b = b - 1;
    }
    proof {
        assert(!is_space_char(cs@[a as int]));
        lemma_prev_non_space_is(cs@, n as int - 1, b as int);
    }
    subvec_chars(cs, a, b + 1)
}

// ----- tokenization -----

/// Token separator: whitespace, `-`, `_` or `/`.
pub open spec fn is_sep(c: char) -> bool {
    is_space_char(c) || c == '-' || c == '_' || c == '/'
}

/// Whether `c` separates tokens.
pub fn char_is_sep(c: char) -> (r: bool)
    ensures
        r == is_sep(c),
{
    char_is_space(c) || c == '-' || c == '_' || c == '/'
}

/// Index of the first separator of `s` at or after `i`, or the length if none.
pub open spec fn next_sep(s: Seq<char>, i: int) -> int
    decreases s.len() - i,
{
    if i >= s.len() {
        s.len() as int
    } else if is_sep(s[i]) {
        i
    } else {
        next_sep(s, i + 1)
    }
}

proof fn lemma_next_sep(s: Seq<char>, i: int)
    requires
        0 <= i <= s.len(),
    ensures
        i <= next_sep(s, i) <= s.len(),
    decreases s.len() - i,
{
    if i < s.len() && !is_sep(s[i]) {
        lemma_next_sep(s, i + 1);
    }
}

pub proof fn lemma_next_sep_is(s: Seq<char>, i: int, j: int)
    requires
        0 <= i <= j <= s.len(),
        forall|k: int| i <= k < j ==> !is_sep(s[k]),
        j < s.len() ==> is_sep(s[j]),
    ensures
        next_sep(s, i) == j,
    decreases j - i,
{
    if i < j {
        lemma_next_sep_is(s, i + 1, j);
    }
}

/// The lower-cased tokens of `s[i..]`: maximal runs of non-separator
/// characters, each passed through `lower_of`, empties dropped.
pub open spec fn tokens_from(s: Seq<char>, i: int) -> Seq<Seq<char>>
    decreases s.len() - i
        when 0 <= i
        via tokens_from_dec
{
    if i >= s.len() {
        Seq::empty()
    } else if is_sep(s[i]) {
        tokens_from(s, i + 1)
    } else {
        let j = next_sep(s, i);
        seq![lower_of(s.subrange(i, j))] + tokens_from(s, j)
    }
}

#[via_fn]
proof fn tokens_from_dec(s: Seq<char>, i: int) {
    if 0 <= i < s.len() && !is_sep(s[i]) {
        lemma_next_sep(s, i + 1);
    }
}

/// The lower-cased tokens of `s`.
pub open spec fn spec_tokens(s: Seq<char>) -> Seq<Seq<char>> {
    tokens_from(s, 0)
}

} // verus!
