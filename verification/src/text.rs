//! Character and string helpers shared by the views.
use vstd::prelude::*;

verus! {

broadcast use vstd::string::group_string_axioms;

/// The characters of a string slice, in order.
pub fn str_chars(s: &str) -> (out: Vec<char>)
    ensures
        out@ == s@,
{
    let mut out: Vec<char> = Vec::new();
    for c in it: s.chars()
        invariant
            out@ == it.seq().take(it.index() as int),
            it.seq() == s@,
    {
        out.push(c);
    }
    out
}


/// A `String` holding exactly the characters of `chars`.
#[verifier::external_body]
pub fn string_from_chars(chars: &Vec<char>) -> (s: String)
    ensures
        s@ == chars@,
{
    chars.iter().collect::<String>()
}

/// The character for a decimal digit `d < 10`.
pub open spec fn digit_char(d: int) -> char {
    (48 + d) as char
}

/// The decimal representation of `n`, without leading zeros.
pub open spec fn decimal(n: nat) -> Seq<char>
    decreases n,
{
    if n < 10 {
        seq![digit_char(n as int)]
    } else {
        decimal(n / 10).push(digit_char((n % 10) as int))
    }
}

fn digit(d: u64) -> (c: char)
    requires
        d < 10,
    ensures
        c == digit_char(d as int),
{
    let b: u8 = 48 + d as u8;
    b as char
}

/// The decimal digits of `n`.
pub fn decimal_chars(n: u64) -> (v: Vec<char>)
    ensures
        v@ == decimal(n as nat),
    decreases n,
{
    if n < 10 {
        let mut v: Vec<char> = Vec::new();
        v.push(digit(n));
        v
    } else {
        let mut v = decimal_chars(n / 10);
        v.push(digit(n % 10));
        v
    }
}

pub open spec fn spec_is_ascii_digit(c: char) -> bool {
    '0' <= c <= '9'
}

pub open spec fn spec_is_ascii_upper(c: char) -> bool {
    'A' <= c <= 'Z'
}

pub open spec fn spec_is_ascii_lower(c: char) -> bool {
    'a' <= c <= 'z'
}

pub open spec fn spec_is_ascii_alpha(c: char) -> bool {
    spec_is_ascii_upper(c) || spec_is_ascii_lower(c)
}

/// ASCII letters mapped to lower case, everything else unchanged.
pub open spec fn spec_to_lower(c: char) -> char {
    if spec_is_ascii_upper(c) { ((c as int) + 32) as char } else { c }
}

/// ASCII letters mapped to upper case, everything else unchanged.
pub open spec fn spec_to_upper(c: char) -> char {
    if spec_is_ascii_lower(c) { ((c as int) - 32) as char } else { c }
}

/// The characters with the Unicode `White_Space` property.
pub open spec fn spec_is_whitespace(c: char) -> bool {
    ||| '\u{9}' <= c <= '\u{d}'
    ||| c == ' '
    ||| c == '\u{85}'
    ||| c == '\u{a0}'
    ||| c == '\u{1680}'
    ||| '\u{2000}' <= c <= '\u{200a}'
    ||| c == '\u{2028}'
    ||| c == '\u{2029}'
    ||| c == '\u{202f}'
    ||| c == '\u{205f}'
    ||| c == '\u{3000}'
}

pub fn is_ascii_digit(c: char) -> (b: bool)
    ensures
        b == spec_is_ascii_digit(c),
{
    '0' <= c && c <= '9'
}

pub fn is_ascii_alpha(c: char) -> (b: bool)
    ensures
        b == spec_is_ascii_alpha(c),
{
    ('A' <= c && c <= 'Z') || ('a' <= c && c <= 'z')
}

pub fn to_ascii_lower(c: char) -> (r: char)
    ensures
        r == spec_to_lower(c),
{
    if 'A' <= c && c <= 'Z' {
        let b: u8 = c as u8 + 32;
        b as char
    } else {
        c
    }
}

pub fn to_ascii_upper(c: char) -> (r: char)
    ensures
        r == spec_to_upper(c),
{
    if 'a' <= c && c <= 'z' {
        let b: u8 = c as u8 - 32;
        b as char
    } else {
        c
    }
}

pub fn is_whitespace(c: char) -> (b: bool)
    ensures
        b == spec_is_whitespace(c),
{
    ('\u{9}' <= c && c <= '\u{d}') || c == ' ' || c == '\u{85}' || c == '\u{a0}'
        || c == '\u{1680}' || ('\u{2000}' <= c && c <= '\u{200a}') || c == '\u{2028}'
        || c == '\u{2029}' || c == '\u{202f}' || c == '\u{205f}' || c == '\u{3000}'
}

/// Whether two character sequences are equal.
pub fn chars_equal(a: &Vec<char>, b: &Vec<char>) -> (eq: bool)
    ensures
        eq == (a@ == b@),
{
    if a.len() != b.len() {
        return false;
    }
    let mut i: usize = 0;
    while i < a.len()
        invariant
            a@.len() == b@.len(),
            i <= a@.len(),
            forall|k: int| 0 <= k < i ==> a@[k] == b@[k],
        decreases a.len() - i,
    {
        if a[i] != b[i] {
            return false;
        }
        i = i + 1;
    }
    assert(a@ =~= b@);
    true
}

/// The sequence with ASCII letters lowered.
pub open spec fn lowered(s: Seq<char>) -> Seq<char> {
    s.map_values(|c: char| spec_to_lower(c))
}

/// Whether two character sequences are equal ignoring ASCII case.
pub fn chars_equal_ignore_case(a: &Vec<char>, b: &Vec<char>) -> (eq: bool)
    ensures
        eq == (lowered(a@) == lowered(b@)),
{
    if a.len() != b.len() {
        assert(lowered(a@).len() != lowered(b@).len());
        return false;
    }
    let mut i: usize = 0;
    while i < a.len()
        invariant
            a@.len() == b@.len(),
            i <= a@.len(),
            forall|k: int| 0 <= k < i ==> spec_to_lower(a@[k]) == spec_to_lower(b@[k]),
        decreases a.len() - i,
    {
        if to_ascii_lower(a[i]) != to_ascii_lower(b[i]) {
            assert(lowered(a@)[i as int] != lowered(b@)[i as int]);
            return false;
        }
        i = i + 1;
    }
    assert(lowered(a@) =~= lowered(b@));
    true
}


/// The first `n` characters of `v` (all of them when `v` is shorter).
pub fn take_chars(v: &Vec<char>, n: usize) -> (out: Vec<char>)
    ensures
        out@ == (if n < v@.len() { v@.take(n as int) } else { v@ }),
{
    let m = if n < v.len() { n } else { v.len() };
    let mut out: Vec<char> = Vec::new();
    let mut i: usize = 0;
    while i < m
        invariant
            m <= v@.len(),
            i <= m,
            out@ == v@.take(i as int),
        decreases m - i,
    {
        out.push(v[i]);
        i = i + 1;
        assert(out@ =~= v@.take(i as int));
    }
    assert(v@.take(v@.len() as int) =~= v@);
    out
}

/// The characters of a `String`.
pub fn string_chars(s: &String) -> (out: Vec<char>)
    ensures
        out@ == s@,
{
    str_chars(s.as_str())
}


/// Character `i` of `v`.
pub fn char_at(v: &Vec<char>, i: usize) -> (c: char)
    requires
        i < v@.len(),
    ensures
        c == v@[i as int],
{
    v[i]
}

/// Whether `pat` occurs in `s` at index `i`.
pub open spec fn matches_at(s: Seq<char>, i: int, pat: Seq<char>) -> bool {
    0 <= i && i + pat.len() <= s.len() && s.subrange(i, i + pat.len()) == pat
}

/// The first index at or after `i` where `pat` occurs in `s`.
pub open spec fn find_from(s: Seq<char>, pat: Seq<char>, i: int) -> Option<int>
    decreases s.len() + 1 - i,
{
    if i < 0 || i + pat.len() > s.len() {
        None
    } else if matches_at(s, i, pat) {
        Some(i)
    } else {
        find_from(s, pat, i + 1)
    }
}

/// A match found from `i` lies at or after `i` and is the first one there.
pub proof fn lemma_find_from(s: Seq<char>, pat: Seq<char>, i: int)
    requires
        0 <= i,
    ensures
        find_from(s, pat, i) matches Some(k) ==> i <= k && k + pat.len() <= s.len() && matches_at(s, k, pat)
            && forall|j: int| i <= j < k ==> !matches_at(s, j, pat),
        find_from(s, pat, i) is None ==> forall|j: int| i <= j ==> !matches_at(s, j, pat),
    decreases s.len() + 1 - i,
{
    if i + pat.len() > s.len() {
    } else if matches_at(s, i, pat) {
    } else {
        lemma_find_from(s, pat, i + 1);
    }
}

/// Whether `pat` occurs in `s` at index `i`.
pub fn chars_match_at(s: &Vec<char>, i: usize, pat: &Vec<char>) -> (b: bool)
    ensures
        b == matches_at(s@, i as int, pat@),
{
    if pat.len() > s.len() || i > s.len() - pat.len() {
        return false;
    }
    let n = s.len();
    let mut k: usize = 0;
    while k < pat.len()
        invariant
            n == s@.len(),
            i + pat@.len() <= s@.len(),
            k <= pat@.len(),
            forall|j: int| 0 <= j < k ==> s@[i + j] == pat@[j],
        decreases pat@.len() - k,
    {
        if s[i + k] != pat[k] {
            assert(s@.subrange(i as int, i + pat@.len())[k as int] != pat@[k as int]);
            return false;
        }
        k = k + 1;
    }
    assert(s@.subrange(i as int, i + pat@.len()) =~= pat@);
    true
}

/// The first index at or after `start` where `pat` occurs in `s`.
pub fn find_chars(s: &Vec<char>, start: usize, pat: &Vec<char>) -> (r: Option<usize>)
    ensures
        match r {
            Some(k) => find_from(s@, pat@, start as int) == Some(k as int),
            None => find_from(s@, pat@, start as int) is None,
        },
{
    let mut i: usize = start;
    while i <= s.len() && pat.len() <= s.len() - i
        invariant
            start <= i,
            find_from(s@, pat@, start as int) == find_from(s@, pat@, i as int),
        decreases s@.len() + 1 - i,
    {
        if chars_match_at(s, i, pat) {
            return Some(i);
        }
        assert(pat@.len() == 0 ==> s@.subrange(i as int, i as int) =~= pat@);
        i = i + 1;
    }
    None
}

/// The characters of `s` from `a` up to `b`.
pub fn sub_chars(s: &Vec<char>, a: usize, b: usize) -> (out: Vec<char>)
    requires
        a <= b <= s@.len(),
    ensures
        out@ == s@.subrange(a as int, b as int),
{
    let mut out: Vec<char> = Vec::new();
    let mut i: usize = a;
    while i < b
        invariant
            a <= i <= b,
            b <= s@.len(),
            out@ == s@.subrange(a as int, i as int),
        decreases b - i,
    {
        out.push(s[i]);
        i = i + 1;
        assert(out@ =~= s@.subrange(a as int, i as int));
    }
    out
}

/// Append the characters of `src` to `dst`.
pub fn extend_chars(dst: &mut Vec<char>, src: &Vec<char>)
    ensures
        final(dst)@ == old(dst)@ + src@,
{
    let mut i: usize = 0;
    while i < src.len()
        invariant
            i <= src@.len(),
            dst@ == old(dst)@ + src@.subrange(0, i as int),
        decreases src@.len() - i,
    {
        dst.push(src[i]);
        i = i + 1;
        assert(dst@ =~= old(dst)@ + src@.subrange(0, i as int));
    }
    assert(src@.subrange(0, src@.len() as int) =~= src@);
}

/// Whether `a` comes strictly before `b` in the order of their characters.
pub open spec fn seq_lt(a: Seq<char>, b: Seq<char>) -> bool
    decreases a.len(),
{
    if b.len() == 0 {
        false
    } else if a.len() == 0 {
        true
    } else if a[0] != b[0] {
        a[0] < b[0]
    } else {
        seq_lt(a.subrange(1, a.len() as int), b.subrange(1, b.len() as int))
    }
}

/// Exactly one of `a < b`, `a == b`, `b < a` holds.
pub proof fn lemma_seq_lt_trichotomy(a: Seq<char>, b: Seq<char>)
    ensures
        a == b || seq_lt(a, b) || seq_lt(b, a),
        !(seq_lt(a, b) && seq_lt(b, a)),
        !seq_lt(a, a),
    decreases a.len(),
{
    if a.len() > 0 && b.len() > 0 && a[0] == b[0] {
        lemma_seq_lt_trichotomy(a.subrange(1, a.len() as int), b.subrange(1, b.len() as int));
        if a.subrange(1, a.len() as int) == b.subrange(1, b.len() as int) {
            assert(a =~= seq![a[0]] + a.subrange(1, a.len() as int));
            assert(b =~= seq![b[0]] + b.subrange(1, b.len() as int));
        }
    }
    if a.len() > 0 {
        lemma_seq_lt_trichotomy(a.subrange(1, a.len() as int), a.subrange(1, a.len() as int));
    }
    if a.len() == 0 && b.len() == 0 {
        assert(a =~= b);
    }
}

/// The order is transitive.
pub proof fn lemma_seq_lt_trans(a: Seq<char>, b: Seq<char>, c: Seq<char>)
    requires
        seq_lt(a, b),
        seq_lt(b, c),
    ensures
        seq_lt(a, c),
    decreases a.len(),
{
    if a.len() > 0 && b.len() > 0 && c.len() > 0 && a[0] == b[0] && b[0] == c[0] {
        lemma_seq_lt_trans(a.subrange(1, a.len() as int), b.subrange(1, b.len() as int), c.subrange(1, c.len() as int));
    }
}

/// How two character sequences are ordered.
#[derive(Clone, Copy, Debug, PartialEq, Eq, Structural)]
pub enum Order {
    Before,
    Same,
    After,
}

/// Compare `a` and `b` character by character.
pub fn compare_chars(a: &Vec<char>, b: &Vec<char>) -> (r: Order)
    ensures
        r == Order::Before <==> seq_lt(a@, b@),
        r == Order::Same <==> a@ == b@,
        r == Order::After <==> seq_lt(b@, a@),
{
    proof { lemma_seq_lt_trichotomy(a@, b@); }
    assert(a@.subrange(0, a@.len() as int) =~= a@);
    assert(b@.subrange(0, b@.len() as int) =~= b@);
    let mut i: usize = 0;
    while i < a.len() && i < b.len()
        invariant
            i <= a@.len(),
            i <= b@.len(),
            a@.subrange(0, i as int) == b@.subrange(0, i as int),
            seq_lt(a@, b@) == seq_lt(a@.subrange(i as int, a@.len() as int), b@.subrange(i as int, b@.len() as int)),
            seq_lt(b@, a@) == seq_lt(b@.subrange(i as int, b@.len() as int), a@.subrange(i as int, a@.len() as int)),
        decreases a@.len() - i,
    {
        let ghost ra = a@.subrange(i as int, a@.len() as int);
        let ghost rb = b@.subrange(i as int, b@.len() as int);
        assert(ra[0] == a@[i as int]);
        assert(rb[0] == b@[i as int]);
        if a[i] != b[i] {
            if a[i] < b[i] {
                return Order::Before;
            } else {
                return Order::After;
            }
        }
        assert(ra.subrange(1, ra.len() as int) =~= a@.subrange(i + 1, a@.len() as int));
        assert(rb.subrange(1, rb.len() as int) =~= b@.subrange(i + 1, b@.len() as int));
        assert(a@.subrange(0, i + 1) =~= a@.subrange(0, i as int).push(a@[i as int]));
        assert(b@.subrange(0, i + 1) =~= b@.subrange(0, i as int).push(b@[i as int]));
        i = i + 1;
    }
    if i < b.len() {
        assert(a@ =~= a@.subrange(0, i as int));
        assert(seq_lt(a@.subrange(i as int, a@.len() as int), b@.subrange(i as int, b@.len() as int)));
        Order::Before
    } else if i < a.len() {
        assert(b@ =~= b@.subrange(0, i as int));
        assert(seq_lt(b@.subrange(i as int, b@.len() as int), a@.subrange(i as int, a@.len() as int)));
        Order::After
    } else {
        assert(a@ =~= a@.subrange(0, i as int));
        assert(b@ =~= b@.subrange(0, i as int));
        Order::Same
    }
}

/// The first index at or after `i` that holds no whitespace, or the length.
pub open spec fn skip_ws(s: Seq<char>, i: int) -> int
    decreases s.len() - i,
{
    if i < 0 || i >= s.len() {
        s.len() as int
    } else if spec_is_whitespace(s[i]) {
        skip_ws(s, i + 1)
    } else {
        i
    }
}

/// The end of `s` up to `j` with trailing whitespace dropped, but not before `lo`.
pub open spec fn back_ws(s: Seq<char>, lo: int, j: int) -> int
    decreases j - lo,
{
    if j <= lo {
        lo
    } else if spec_is_whitespace(s[j - 1]) {
        back_ws(s, lo, j - 1)
    } else {
        j
    }
}

/// `s` without leading and trailing whitespace.
pub open spec fn trim(s: Seq<char>) -> Seq<char> {
    let a = skip_ws(s, 0);
    s.subrange(a, back_ws(s, a, s.len() as int))
}

proof fn lemma_skip_ws_bounds(s: Seq<char>, i: int)
    requires
        0 <= i <= s.len(),
    ensures
        i <= skip_ws(s, i) <= s.len(),
    decreases s.len() - i,
{
    if i < s.len() && spec_is_whitespace(s[i]) {
        lemma_skip_ws_bounds(s, i + 1);
    }
}

proof fn lemma_back_ws_bounds(s: Seq<char>, lo: int, j: int)
    requires
        lo <= j,
    ensures
        lo <= back_ws(s, lo, j) <= j,
    decreases j - lo,
{
    if j > lo && spec_is_whitespace(s[j - 1]) {
        lemma_back_ws_bounds(s, lo, j - 1);
    }
}

/// `s` without leading and trailing whitespace.
pub fn trim_chars(s: &Vec<char>) -> (out: Vec<char>)
    ensures
        out@ == trim(s@),
{
    let n = s.len();
    let mut a: usize = 0;
    while a < n && is_whitespace(s[a])
        invariant
            n == s@.len(),
            a <= n,
            skip_ws(s@, 0) == skip_ws(s@, a as int),
        decreases n - a,
    {
        a = a + 1;
    }
    let mut b: usize = n;
    while b > a && is_whitespace(s[b - 1])
        invariant
            n == s@.len(),
            a <= b <= n,
            skip_ws(s@, 0) == a,
            back_ws(s@, a as int, n as int) == back_ws(s@, a as int, b as int),
        decreases b - a,
    {
        b = b - 1;
    }
    sub_chars(s, a, b)
}

/// `line` without the carriage return that ended it before its line feed.
pub open spec fn strip_cr(line: Seq<char>) -> Seq<char> {
    if line.len() > 0 && line[line.len() - 1] == '\r' { line.drop_last() } else { line }
}

/// The lines of `s` from index `i` on: split at line feeds, a carriage return
/// just before a line feed dropped, no empty line after a final line feed.
pub open spec fn lines_from(s: Seq<char>, i: int) -> Seq<Seq<char>>
    decreases s.len() - i,
{
    if i < 0 || i >= s.len() {
        seq![]
    } else {
        proof {
            lemma_find_from(s, seq!['\n'], i);
        }
        match find_from(s, seq!['\n'], i) {
            None => seq![s.subrange(i, s.len() as int)],
            Some(k) => seq![strip_cr(s.subrange(i, k))] + lines_from(s, k + 1),
        }
    }
}

/// The views of the character vectors of `v`.
pub open spec fn chars_view(v: Seq<Vec<char>>) -> Seq<Seq<char>> {
    v.map_values(|c: Vec<char>| c@)
}

/// The lines of `s`, as `lines_from` describes them.
pub fn split_lines(s: &Vec<char>) -> (out: Vec<Vec<char>>)
    ensures
        chars_view(out@) == lines_from(s@, 0),
{
    let n = s.len();
    let nl: Vec<char> = vec!['\n'];
    assert(nl@ == seq!['\n']);
    let mut out: Vec<Vec<char>> = Vec::new();
    let mut i: usize = 0;
    let mut done = false;
    while !done && i < n
        invariant
            n == s@.len(),
            i <= n,
            nl@ == seq!['\n'],
            done ==> chars_view(out@) == lines_from(s@, 0),
            !done ==> chars_view(out@) + lines_from(s@, i as int) == lines_from(s@, 0),
        decreases n - i + (if done { 0int } else { 1int }),
    {
        proof { lemma_find_from(s@, seq!['\n'], i as int); }
        let ghost prev = chars_view(out@);
        match find_chars(s, i, &nl) {
            None => {
                let line = sub_chars(s, i, n);
                out.push(line);
                assert(chars_view(out@) =~= prev + lines_from(s@, i as int));
                done = true;
            },
            Some(k) => {
                let mut line = sub_chars(s, i, k);
                if line.len() > 0 && line[line.len() - 1] == '\r' {
                    line.pop();
                }
                assert(line@ == strip_cr(s@.subrange(i as int, k as int)));
                out.push(line);
                assert(chars_view(out@) + lines_from(s@, k + 1) =~= prev + lines_from(s@, i as int));
                i = k + 1;
            },
        }
    }
    if !done {
        assert(chars_view(out@) + lines_from(s@, i as int) == lines_from(s@, 0));
        assert(chars_view(out@) =~= lines_from(s@, 0));
    }
    out
}

/// The decimal representation of `v`, with a minus sign when negative.
pub open spec fn signed_decimal(v: int) -> Seq<char> {
    if v < 0 { seq!['-'] + decimal((-v) as nat) } else { decimal(v as nat) }
}

/// The decimal representation of `v`, as `{}` formats an integer.
pub fn signed_decimal_chars(v: i64) -> (out: Vec<char>)
    ensures
        out@ == signed_decimal(v as int),
{
    if v < 0 {
        let magnitude: u64 = if v == i64::MIN { 9223372036854775808u64 } else { (-v) as u64 };
        let digits = decimal_chars(magnitude);
        let mut out: Vec<char> = vec!['-'];
        extend_chars(&mut out, &digits);
        out
    } else {
        decimal_chars(v as u64)
    }
}

/// The first character of the upper-case mapping of `c` (Unicode case tables).
pub uninterp spec fn upper_first(c: char) -> char;

/// `char::to_uppercase`, first character of the mapping (there always is one; a
/// character without a mapping maps to itself). Claimed: the result is
/// `upper_first(c)`, and ASCII letters map to ASCII upper case. The rest of the
/// Unicode table is left unsaid.
#[verifier::external_body]
pub fn first_upper(c: char) -> (u: char)
    ensures
        u == upper_first(c),
        spec_is_ascii_lower(c) ==> u == spec_to_upper(c),
        spec_is_ascii_upper(c) ==> u == c,
{
    c.to_uppercase().next().unwrap_or(c)
}

/// The bytes of the characters of `s`, each taken as one byte.
pub open spec fn ascii_bytes(s: Seq<char>) -> Seq<u8> {
    s.map_values(|c: char| c as u8)
}

/// The decimal digits of `n`, as bytes.
pub fn decimal_bytes(n: u64) -> (out: Vec<u8>)
    ensures
        out@ == ascii_bytes(decimal(n as nat)),
{
    let digits = decimal_chars(n);
    chars_to_bytes(&digits)
}

/// Each character of `s` taken as one byte.
pub fn chars_to_bytes(s: &Vec<char>) -> (out: Vec<u8>)
    ensures
        out@ == ascii_bytes(s@),
{
    let mut out: Vec<u8> = Vec::new();
    let mut i: usize = 0;
    while i < s.len()
        invariant
            i <= s@.len(),
            out@ == ascii_bytes(s@.subrange(0, i as int)),
        decreases s@.len() - i,
    {
        let c = s[i];
        out.push(c as u8);
        i = i + 1;
        assert(out@ =~= ascii_bytes(s@.subrange(0, i as int)));
    }
    assert(s@.subrange(0, i as int) =~= s@);
    out
}

/// Append the bytes of `src` to `dst`.
pub fn extend_bytes(dst: &mut Vec<u8>, src: &Vec<u8>)
    ensures
        final(dst)@ == old(dst)@ + src@,
{
    let mut i: usize = 0;
    while i < src.len()
        invariant
            i <= src@.len(),
            dst@ == old(dst)@ + src@.subrange(0, i as int),
        decreases src@.len() - i,
    {
        dst.push(src[i]);
        i = i + 1;
        assert(dst@ =~= old(dst)@ + src@.subrange(0, i as int));
    }
    assert(src@.subrange(0, src@.len() as int) =~= src@);
}

} // verus!
