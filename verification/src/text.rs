//! Character-level text handling: whitespace, trimming, searching, lines and
//! UTF-8 byte lengths, over `Seq<char>` models of Rust strings.
use vstd::prelude::*;

verus! {

/// Rust's `char::is_whitespace`: the Unicode `White_Space` property.
pub open spec fn is_whitespace(c: char) -> bool {
    let u = c as u32;
    ||| 0x09 <= u <= 0x0d
    ||| u == 0x20
    ||| u == 0x85
    ||| u == 0xa0
    ||| u == 0x1680
    ||| 0x2000 <= u <= 0x200a
    ||| u == 0x2028
    ||| u == 0x2029
    ||| u == 0x202f
    ||| u == 0x205f
    ||| u == 0x3000
}

/// Rust's `char::is_ascii_digit`.
pub open spec fn is_ascii_digit(c: char) -> bool {
    '0' <= c <= '9'
}

/// `s` without its leading whitespace.
pub open spec fn trim_start(s: Seq<char>) -> Seq<char>
    decreases s.len(),
{
    if s.len() > 0 && is_whitespace(s[0]) {
        trim_start(s.drop_first())
    } else {
        s
    }
}

/// `s` without its trailing whitespace.
pub open spec fn trim_end(s: Seq<char>) -> Seq<char>
    decreases s.len(),
{
    if s.len() > 0 && is_whitespace(s.last()) {
        trim_end(s.drop_last())
    } else {
        s
    }
}

/// Rust's `str::trim`: `s` without leading and trailing whitespace.
pub open spec fn trim(s: Seq<char>) -> Seq<char> {
    trim_end(trim_start(s))
}

/// `pat` occurs in `s` as a contiguous run (Rust's `str::contains` with a `&str`).
pub open spec fn contains(s: Seq<char>, pat: Seq<char>) -> bool {
    exists|i: int| 0 <= i && i + pat.len() <= s.len() && #[trigger] s.subrange(i, i + pat.len()) == pat
}

/// Position of the last occurrence of `c` in `s` (Rust's `str::rfind` with a `char`,
/// counted in characters).
pub open spec fn last_index_of(s: Seq<char>, c: char) -> Option<int>
    decreases s.len(),
{
    if s.len() == 0 {
        None
    } else if s.last() == c {
        Some(s.len() - 1)
    } else {
        last_index_of(s.drop_last(), c)
    }
}

/// The pieces of `s` between line feeds (the last piece may be empty).
pub open spec fn split_lines(s: Seq<char>) -> Seq<Seq<char>>
    decreases s.len(),
{
    match last_index_of(s, '\n') {
        None => seq![s],
        Some(i) => {
            proof {
                lemma_last_index_of_bounds(s, '\n');
            }
            split_lines(s.take(i)).push(s.skip(i + 1))
        },
    }
}

/// Number of bytes of the UTF-8 encoding of `c` (Rust's `char::len_utf8`).
pub open spec fn utf8_width(c: char) -> nat {
    let u = c as u32;
    if u < 0x80 {
        1
    } else if u < 0x800 {
        2
    } else if u < 0x10000 {
        3
    } else {
        4
    }
}

/// Number of bytes of the UTF-8 encoding of `s` (Rust's `str::len`).
pub open spec fn byte_len(s: Seq<char>) -> nat
    decreases s.len(),
{
    if s.len() == 0 {
        0
    } else {
        byte_len(s.drop_last()) + utf8_width(s.last())
    }
}

/// The number of leading characters of `s` whose encoding takes exactly `b` bytes,
/// when `b` falls on a character boundary.
pub open spec fn chars_in_bytes(s: Seq<char>, b: int) -> Option<int> {
    if exists|k: int| 0 <= k <= s.len() && #[trigger] byte_len(s.take(k)) == b {
        Some(choose|k: int| 0 <= k <= s.len() && #[trigger] byte_len(s.take(k)) == b)
    } else {
        None
    }
}

/// Decimal notation of `n`, without leading zeros (Rust's `Display` for integers).
pub open spec fn decimal(n: nat) -> Seq<char>
    decreases n,
{
    if n < 10 {
        seq![digit_char(n)]
    } else {
        decimal(n / 10).push(digit_char(n % 10))
    }
}

/// The ASCII digit for `d < 10`.
pub open spec fn digit_char(d: nat) -> char {
    if d == 0 {
        '0'
    } else if d == 1 {
        '1'
    } else if d == 2 {
        '2'
    } else if d == 3 {
        '3'
    } else if d == 4 {
        '4'
    } else if d == 5 {
        '5'
    } else if d == 6 {
        '6'
    } else if d == 7 {
        '7'
    } else if d == 8 {
        '8'
    } else {
        '9'
    }
}

// ----------------------------------------------------------------------------
// Lemmas
// ----------------------------------------------------------------------------

/// Byte length distributes over concatenation.
pub proof fn lemma_byte_len_add(a: Seq<char>, b: Seq<char>)
    ensures
        byte_len(a + b) == byte_len(a) + byte_len(b),
    decreases b.len(),
{
    if b.len() == 0 {
        assert(a + b =~= a);
    } else {
        assert((a + b).drop_last() =~= a + b.drop_last());
        lemma_byte_len_add(a, b.drop_last());
    }
}

/// The byte length of a prefix grows with the prefix.
pub proof fn lemma_byte_len_take_step(s: Seq<char>, k: int)
    requires
        0 <= k < s.len(),
    ensures
        byte_len(s.take(k + 1)) == byte_len(s.take(k)) + utf8_width(s[k]),
{
    assert(s.take(k + 1).drop_last() =~= s.take(k));
}

/// Prefix byte lengths are strictly increasing in the prefix length.
pub proof fn lemma_byte_len_take_mono(s: Seq<char>, j: int, k: int)
    requires
        0 <= j < k <= s.len(),
    ensures
        byte_len(s.take(j)) < byte_len(s.take(k)),
    decreases k - j,
{
    lemma_byte_len_take_step(s, k - 1);
    if j < k - 1 {
        lemma_byte_len_take_mono(s, j, k - 1);
    }
}

/// `byte_len` is the length of vstd's UTF-8 encoding, which Rust's `str::len` reports.
pub proof fn lemma_byte_len_is_encoding_len(s: Seq<char>)
    ensures
        byte_len(s) == vstd::utf8::encode_utf8(s).len(),
    decreases s.len(),
{
    if s.len() > 0 {
        lemma_byte_len_is_encoding_len(s.drop_first());
        lemma_byte_len_add(seq![s[0]], s.drop_first());
        assert(seq![s[0]] + s.drop_first() =~= s);
        assert(seq![s[0]].drop_last() =~= Seq::<char>::empty());
        reveal_with_fuel(byte_len, 2);
        assert(byte_len(seq![s[0]]) == utf8_width(s[0]));
        vstd::utf8::char_is_scalar(s[0]);
        assert(vstd::utf8::encode_scalar(s[0] as u32).len() == utf8_width(s[0]));
    }
}

/// Appending a character that is not a line feed extends the last line.
proof fn lemma_split_lines_push_other(s: Seq<char>, c: char)
    requires
        c != '\n',
    ensures
        split_lines(s.push(c)) == split_lines(s).drop_last().push(split_lines(s).last().push(c)),
        split_lines(s).len() >= 1,
    decreases s.len(),
{
    let t = s.push(c);
    assert(t.drop_last() =~= s);
    lemma_split_lines_nonempty(s);
    match last_index_of(s, '\n') {
        None => {
            assert(last_index_of(t, '\n') == None::<int>);
        },
        Some(i) => {
            assert(last_index_of(t, '\n') == Some(i));
            lemma_last_index_of_bounds(s, '\n');
            assert(t.take(i) =~= s.take(i));
            assert(t.skip(i + 1) =~= s.skip(i + 1).push(c));
        },
    }
}

proof fn lemma_split_lines_nonempty(s: Seq<char>)
    ensures
        split_lines(s).len() >= 1,
    decreases s.len(),
{
    match last_index_of(s, '\n') {
        None => {},
        Some(i) => {
            lemma_last_index_of_bounds(s, '\n');
            lemma_split_lines_nonempty(s.take(i));
        },
    }
}

/// Bounds and meaning of `last_index_of`.
pub proof fn lemma_last_index_of_bounds(s: Seq<char>, c: char)
    ensures
        last_index_of(s, c) matches Some(i) ==> {
            &&& 0 <= i < s.len()
            &&& s[i] == c
            &&& forall|j: int| i < j < s.len() ==> s[j] != c
        },
        last_index_of(s, c) is None ==> forall|j: int| 0 <= j < s.len() ==> s[j] != c,
    decreases s.len(),
{
    if s.len() > 0 && s.last() != c {
        lemma_last_index_of_bounds(s.drop_last(), c);
        assert forall|j: int| 0 <= j < s.len() - 1 implies s.drop_last()[j] == s[j] by {}
    }
}

/// Appending a line feed starts a new, empty line.
proof fn lemma_split_lines_push_newline(s: Seq<char>)
    ensures
        split_lines(s.push('\n')) == split_lines(s).push(Seq::<char>::empty()),
{
    let t = s.push('\n');
    assert(last_index_of(t, '\n') == Some(s.len() as int));
    assert(t.take(s.len() as int) =~= s);
    assert(t.skip(s.len() as int + 1) =~= Seq::<char>::empty());
}

proof fn lemma_trim_start_skip(s: Seq<char>, a: int)
    requires
        0 <= a <= s.len(),
        forall|j: int| 0 <= j < a ==> is_whitespace(s[j]),
    ensures
        trim_start(s) == trim_start(s.skip(a)),
    decreases a,
{
    if a > 0 {
        assert(s.drop_first().skip(a - 1) =~= s.skip(a));
        lemma_trim_start_skip(s.drop_first(), a - 1);
    } else {
        assert(s.skip(0) =~= s);
    }
}

proof fn lemma_trim_end_take(s: Seq<char>, b: int)
    requires
        0 <= b <= s.len(),
        forall|j: int| b <= j < s.len() ==> is_whitespace(s[j]),
    ensures
        trim_end(s) == trim_end(s.take(b)),
    decreases s.len() - b,
{
    if b < s.len() {
        assert(s.drop_last().take(b) =~= s.take(b));
        lemma_trim_end_take(s.drop_last(), b);
    } else {
        assert(s.take(b) =~= s);
    }
}

// ----------------------------------------------------------------------------
// Executable text operations
// ----------------------------------------------------------------------------

/// The characters of a string, in order.
pub fn chars_of(s: &str) -> (v: Vec<char>)
    ensures
        v@ == s@,
{
    broadcast use vstd::string::group_string_axioms;

    let mut v: Vec<char> = Vec::new();
    for c in it: s.chars()
        invariant
            v@ == it.seq().take(it.index()),
    {
        v.push(c);
    }
    v
}

/// Builds a `String` from characters (std's `FromIterator<&char>` for `String`).
#[verifier::external_body]
pub(crate) fn string_from_chars(chars: &[char]) -> (s: String)
    ensures
        s@ == chars@,
{
    chars.iter().collect()
}

/// `c` is whitespace (`char::is_whitespace`).
pub fn char_is_whitespace(c: char) -> (r: bool)
    ensures
        r == is_whitespace(c),
{
    let u = c as u32;
    (0x09 <= u && u <= 0x0d) || u == 0x20 || u == 0x85 || u == 0xa0 || u == 0x1680 || (0x2000
        <= u && u <= 0x200a) || u == 0x2028 || u == 0x2029 || u == 0x202f || u == 0x205f || u
        == 0x3000
}

/// `c` is an ASCII digit (`char::is_ascii_digit`).
pub fn char_is_ascii_digit(c: char) -> (r: bool)
    ensures
        r == is_ascii_digit(c),
{
    '0' <= c && c <= '9'
}

/// Bytes of the UTF-8 encoding of `c` (`char::len_utf8`).
pub fn char_utf8_width(c: char) -> (w: usize)
    ensures
        w == utf8_width(c),
        1 <= w <= 4,
{
    let u = c as u32;
    if u < 0x80 {
        1
    } else if u < 0x800 {
        2
    } else if u < 0x10000 {
        3
    } else {
        4
    }
}

/// Bytes of the UTF-8 encoding of `s` (`str::len`).
pub fn chars_byte_len(s: &[char]) -> (n: u128)
    ensures
        n == byte_len(s@),
{
    let mut n: u128 = 0;
    let mut k: usize = 0;
    while k < s.len()
        invariant
            0 <= k <= s@.len(),
            n == byte_len(s@.take(k as int)),
            n <= 4 * k,
        decreases s@.len() - k,
    {
        proof {
            lemma_byte_len_take_step(s@, k as int);
        }
        n = n + char_utf8_width(s[k]) as u128;
        k = k + 1;
    }
    assert(s@.take(k as int) =~= s@);
    n
}

/// Bytes of the UTF-8 encoding of `s` (`str::len`).
pub fn str_byte_len(s: &str) -> (n: u128)
    ensures
        n == byte_len(s@),
{
    let cs = chars_of(s);
    chars_byte_len(cs.as_slice())
}

/// Whether two character runs are equal.
pub fn chars_eq(a: &[char], b: &[char]) -> (r: bool)
    ensures
        r == (a@ == b@),
{
    if a.len() != b.len() {
        return false;
    }
    let mut i: usize = 0;
    while i < a.len()
        invariant
            0 <= i <= a@.len(),
            a@.len() == b@.len(),
            forall|j: int| 0 <= j < i ==> a@[j] == b@[j],
        decreases a@.len() - i,
    {
        if a[i] != b[i] {
            return false;
        }
        i = i + 1;
    }
    assert(a@ =~= b@);
    true
}

/// Whether `pat` occurs in `s` starting at position `at`.
pub fn occurs_at(s: &[char], at: usize, pat: &[char]) -> (r: bool)
    requires
        at <= s@.len(),
    ensures
        r == (at + pat@.len() <= s@.len() && s@.subrange(at as int, at + pat@.len()) == pat@),
{
    if pat.len() > s.len() - at {
        return false;
    }
    let mut i: usize = 0;
    while i < pat.len()
        invariant
            0 <= i <= pat@.len(),
            at + pat.len() <= s.len(),
            forall|j: int| 0 <= j < i ==> s@[at + j] == pat@[j],
        decreases pat@.len() - i,
    {
        if s[at + i] != pat[i] {
            return false;
        }
        i = i + 1;
    }
    assert(s@.subrange(at as int, at + pat@.len()) =~= pat@);
    true
}

/// `pat` is a prefix of `s` (`str::starts_with`).
pub fn has_prefix(s: &[char], pat: &[char]) -> (r: bool)
    ensures
        r == pat@.is_prefix_of(s@),
{
    occurs_at(s, 0, pat)
}

/// `pat` is a suffix of `s` (`str::ends_with`).
pub fn has_suffix(s: &[char], pat: &[char]) -> (r: bool)
    ensures
        r == pat@.is_suffix_of(s@),
{
    if pat.len() > s.len() {
        return false;
    }
    occurs_at(s, s.len() - pat.len(), pat)
}

/// `pat` occurs somewhere in `s` (`str::contains`).
pub fn has_infix(s: &[char], pat: &[char]) -> (r: bool)
    ensures
        r == contains(s@, pat@),
{
    if pat.len() > s.len() {
        return false;
    }
    let last = s.len() - pat.len();
    let mut i: usize = 0;
    loop
        invariant
            0 <= i <= last,
            last + pat@.len() == s@.len(),
            forall|j: int|
                0 <= j < i ==> #[trigger] s@.subrange(j, j + pat@.len()) != pat@,
        decreases last - i,
    {
        if occurs_at(s, i, pat) {
            return true;
        }
        if i == last {
            return false;
        }
        i = i + 1;
    }
}

/// The bounds of `trim(s)` within `s`.
pub fn trim_bounds(s: &[char]) -> (r: (usize, usize))
    ensures
        r.0 <= r.1 <= s@.len(),
        s@.subrange(r.0 as int, r.1 as int) == trim(s@),
{
    let mut a: usize = 0;
    while a < s.len() && char_is_whitespace(s[a])
        invariant
            0 <= a <= s@.len(),
            forall|j: int| 0 <= j < a ==> is_whitespace(s@[j]),
        decreases s@.len() - a,
    {
        a = a + 1;
    }
    proof {
        lemma_trim_start_skip(s@, a as int);
    }
    let ghost t = s@.skip(a as int);
    assert(trim_start(t) == t);
    let mut b: usize = s.len();
    while b > a && char_is_whitespace(s[b - 1])
        invariant
            a <= b <= s@.len(),
            forall|j: int| b <= j < s@.len() ==> is_whitespace(s@[j]),
        decreases b,
    {
        b = b - 1;
    }
    proof {
        lemma_trim_end_take(t, b - a);
        assert(t.take(b - a) =~= s@.subrange(a as int, b as int));
        let u = s@.subrange(a as int, b as int);
        if u.len() > 0 {
            assert(!is_whitespace(u.last()));
        }
    }
    (a, b)
}

/// Position of the last `c` in `s` (`str::rfind`, counted in characters).
pub fn last_index_of_char(s: &[char], c: char) -> (r: Option<usize>)
    ensures
        r matches Some(i) ==> last_index_of(s@, c) == Some(i as int),
        r is None ==> last_index_of(s@, c) is None,
{
    let mut k: usize = s.len();
    assert(s@.take(k as int) =~= s@);
    while k > 0
        invariant
            0 <= k <= s@.len(),
            last_index_of(s@, c) == last_index_of(s@.take(k as int), c),
        decreases k,
    {
        assert(s@.take(k as int).drop_last() =~= s@.take(k - 1));
        if s[k - 1] == c {
            return Some(k - 1);
        }
        k = k - 1;
    }
    None
}

/// Bounds of the pieces of `s` between line feeds, in order.
pub fn line_bounds(s: &[char]) -> (r: Vec<(usize, usize)>)
    ensures
        r@.len() == split_lines(s@).len(),
        forall|i: int| #![trigger r@[i]]
            0 <= i < r@.len() ==> {
                &&& r@[i].0 <= r@[i].1 <= s@.len()
                &&& s@.subrange(r@[i].0 as int, r@[i].1 as int) == split_lines(
                    s@,
                )[i]
            },
{
    let mut r: Vec<(usize, usize)> = Vec::new();
    let mut start: usize = 0;
    let mut k: usize = 0;
    proof {
        assert(s@.take(0) =~= Seq::<char>::empty());
        assert(last_index_of(Seq::<char>::empty(), '\n') == None::<int>);
    }
    while k < s.len()
        invariant
            0 <= start <= k <= s@.len(),
            r@.len() + 1 == split_lines(s@.take(k as int)).len(),
            forall|i: int| #![trigger r@[i]]
                0 <= i < r@.len() ==> {
                    &&& r@[i].0 <= r@[i].1 <= s@.len()
                    &&& s@.subrange(r@[i].0 as int, r@[i].1 as int) == split_lines(
                        s@.take(k as int),
                    )[i]
                },
            split_lines(s@.take(k as int)).last() == s@.subrange(start as int, k as int),
        decreases s@.len() - k,
    {
        let ghost before = s@.take(k as int);
        let ghost r_before = r@;
        assert(s@.take(k + 1) =~= before.push(s@[k as int]));
        let ghost old_start = start;
        if s[k] == '\n' {
            proof {
                lemma_split_lines_push_newline(before);
                assert(split_lines(s@.take(k + 1)) == split_lines(before).push(Seq::<char>::empty()));
            }
            r.push((start, k));
            start = k + 1;
            assert(s@.subrange(start as int, k + 1) =~= Seq::<char>::empty());
            assert forall|i: int| #![trigger r@[i]] 0 <= i < r@.len() implies {
                &&& r@[i].0 <= r@[i].1 <= s@.len()
                &&& s@.subrange(r@[i].0 as int, r@[i].1 as int) == split_lines(
                    s@.take(k + 1),
                )[i]
            } by {
                if i < r_before.len() {
                    assert(r@[i] == r_before[i]);
                    assert(split_lines(s@.take(k + 1))[i] == split_lines(before)[i]);
                } else {
                    assert(r@[i] == (old_start, k));
                    assert(split_lines(s@.take(k + 1))[i] == split_lines(before).last());
                }
            }
        } else {
            proof {
                lemma_split_lines_push_other(before, s@[k as int]);
                assert(s@.subrange(start as int, k + 1) =~= s@.subrange(start as int, k as int).push(
                    s@[k as int],
                ));
            }
            assert forall|i: int| #![trigger r@[i]] 0 <= i < r@.len() implies {
                &&& r@[i].0 <= r@[i].1 <= s@.len()
                &&& s@.subrange(r@[i].0 as int, r@[i].1 as int) == split_lines(
                    s@.take(k + 1),
                )[i]
            } by {
                assert(split_lines(s@.take(k + 1)) == split_lines(before).drop_last().push(
                    split_lines(before).last().push(s@[k as int]),
                ));
                assert(split_lines(before).drop_last()[i] == split_lines(before)[i]);
                assert(split_lines(s@.take(k + 1))[i] == split_lines(before)[i]);
            }
        }
        k = k + 1;
    }
    assert(s@.take(k as int) =~= s@);
    proof {
        lemma_split_lines_nonempty(s@);
    }
    let ghost r_before = r@;
    r.push((start, k));
    assert forall|i: int| #![trigger r@[i]] 0 <= i < r@.len() implies {
        &&& r@[i].0 <= r@[i].1 <= s@.len()
        &&& s@.subrange(r@[i].0 as int, r@[i].1 as int) == split_lines(s@)[i]
    } by {
        assert(split_lines(s@) == split_lines(s@.take(k as int)));
        if i < r_before.len() {
            assert(r@[i] == r_before[i]);
        } else {
            assert(r@[i] == (start, k));
            assert(split_lines(s@)[i] == split_lines(s@.take(k as int)).last());
        }
    }
    r
}


/// `s` equals the literal `lit`.
pub fn lit_eq(s: &[char], lit: &str) -> (r: bool)
    ensures
        r == (s@ == lit@),
{
    let l = chars_of(lit);
    chars_eq(s, l.as_slice())
}

/// `lit` is a prefix of `s`.
pub fn lit_prefix(s: &[char], lit: &str) -> (r: bool)
    ensures
        r == lit@.is_prefix_of(s@),
{
    let l = chars_of(lit);
    has_prefix(s, l.as_slice())
}

/// `lit` is a suffix of `s`.
pub fn lit_suffix(s: &[char], lit: &str) -> (r: bool)
    ensures
        r == lit@.is_suffix_of(s@),
{
    let l = chars_of(lit);
    has_suffix(s, l.as_slice())
}

/// `lit` occurs in `s`.
pub fn lit_infix(s: &[char], lit: &str) -> (r: bool)
    ensures
        r == contains(s@, lit@),
{
    let l = chars_of(lit);
    has_infix(s, l.as_slice())
}

/// Two strings are equal (`str == str`).
pub fn str_eq(a: &str, b: &str) -> (r: bool)
    ensures
        r == (a@ == b@),
{
    let x = chars_of(a);
    let y = chars_of(b);
    chars_eq(x.as_slice(), y.as_slice())
}

/// Rust's `str::trim`, as an owned string.
pub fn trimmed(s: &str) -> (r: String)
    ensures
        r@ == trim(s@),
{
    let cs = chars_of(s);
    let (a, b) = trim_bounds(cs.as_slice());
    string_from_chars(vstd::slice::slice_subrange(cs.as_slice(), a, b))
}

/// The number of leading characters of `s` that take exactly `b` bytes, if `b` falls
/// on a character boundary.
pub fn chars_within_bytes(s: &[char], b: usize) -> (r: Option<usize>)
    ensures
        r matches Some(k) ==> chars_in_bytes(s@, b as int) == Some(k as int),
        r is None ==> chars_in_bytes(s@, b as int) is None,
{
    let mut k: usize = 0;
    // the sum is widened so that adding a character's width never overflows
    let mut acc: u128 = 0;
    while k < s.len() && acc < b as u128
        invariant
            0 <= k <= s@.len(),
            acc == byte_len(s@.take(k as int)),
            acc <= b + 4,
            forall|j: int| 0 <= j < k ==> byte_len(#[trigger] s@.take(j)) < b,
        decreases s@.len() - k,
    {
        proof {
            lemma_byte_len_take_step(s@, k as int);
        }
        acc = acc + char_utf8_width(s[k]) as u128;
        k = k + 1;
    }
    if acc == b as u128 {
        proof {
            let w = choose|j: int| 0 <= j <= s@.len() && #[trigger] byte_len(s@.take(j)) == b;
            if w < k {
                lemma_byte_len_take_mono(s@, w, k as int);
            } else if w > k {
                lemma_byte_len_take_mono(s@, k as int, w);
            }
        }
        Some(k)
    } else {
        proof {
            assert forall|j: int| 0 <= j <= s@.len() implies #[trigger] byte_len(s@.take(j)) != b by {
                if j > k {
                    lemma_byte_len_take_mono(s@, k as int, j);
                }
                if j == k && k == s@.len() {
                }
            }
        }
        None
    }
}

/// The ASCII digit for `d < 10`.
fn digit_of(d: usize) -> (c: char)
    requires
        d < 10,
    ensures
        c == digit_char(d as nat),
{
    if d == 0 {
        '0'
    } else if d == 1 {
        '1'
    } else if d == 2 {
        '2'
    } else if d == 3 {
        '3'
    } else if d == 4 {
        '4'
    } else if d == 5 {
        '5'
    } else if d == 6 {
        '6'
    } else if d == 7 {
        '7'
    } else if d == 8 {
        '8'
    } else {
        '9'
    }
}

/// Appends the decimal notation of `n` to `out`.
pub fn push_decimal(n: usize, out: &mut Vec<char>)
    ensures
        final(out)@ == old(out)@ + decimal(n as nat),
    decreases n,
{
    if n >= 10 {
        push_decimal(n / 10, out);
    }
    let ghost mid = out@;
    out.push(digit_of(n % 10));
    proof {
        if n >= 10 {
            assert(old(out)@ + decimal((n / 10) as nat) == mid);
            assert(decimal(n as nat) == decimal((n / 10) as nat).push(digit_char((n % 10) as nat)));
            assert(out@ =~= old(out)@ + decimal(n as nat));
        } else {
            assert(n % 10 == n);
            assert(out@ =~= old(out)@ + decimal(n as nat));
        }
    }
}

/// Decimal notation of `n` (integer `Display`).
pub fn decimal_string(n: usize) -> (s: String)
    ensures
        s@ == decimal(n as nat),
{
    let mut digits: Vec<char> = Vec::new();
    push_decimal(n, &mut digits);
    assert(digits@ =~= decimal(n as nat));
    string_from_chars(digits.as_slice())
}

} // verus!
