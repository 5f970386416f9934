//! Character-level text helpers shared by the parsers: Unicode whitespace trimming,
//! line splitting with `\n` / `\r\n` endings, truncation with an ellipsis, and
//! decimal / hexadecimal formatting and parsing of integers.
use std::collections::VecDeque;
use vstd::prelude::*;
use vstd::string::*;

verus! {

/// `String::push` — appends one character.
#[verifier::external_body]
pub(crate) fn push_char(s: &mut String, c: char)
    ensures
        final(s)@ == old(s)@.push(c),
{
    s.push(c);
}

/// The text `String::from_utf8_lossy` decodes from `bytes` (invalid sequences become
/// U+FFFD).
pub uninterp spec fn utf8_lossy(bytes: Seq<u8>) -> Seq<char>;

/// `String::from_utf8_lossy`, as an owned `String`. Claims only that the result is the
/// text named by `utf8_lossy` for `bytes`.
#[verifier::external_body]
pub(crate) fn decode_lossy(bytes: &[u8]) -> (r: String)
    ensures
        r@ == utf8_lossy(bytes@),
{
    String::from_utf8_lossy(bytes).into_owned()
}

/// Take every element out of `q`, front first, leaving it empty.
pub fn drain_front<T>(q: &mut VecDeque<T>) -> (r: Vec<T>)
    ensures
        r@ == old(q)@,
        final(q)@ == Seq::<T>::empty(),
{
    let mut out: Vec<T> = Vec::new();
    let ghost start = q@;
    loop
        invariant
            start == old(q)@,
            out@ + q@ == start,
        decreases q@.len(),
    {
        match q.pop_front() {
            Some(x) => {
                let ghost before = out@;
                out.push(x);
                assert(out@ + q@ =~= before + (seq![x] + q@));
            },
            None => {
                assert(out@ =~= start);
                return out;
            },
        }
    }
}

/// A `String` holding exactly `s`.
pub fn owned(s: &str) -> (r: String)
    ensures
        r@ == s@,
{
    s.to_owned()
}

/// The view of an optional string.
pub open spec fn opt_view(o: Option<String>) -> Option<Seq<char>> {
    match o {
        Some(s) => Some(s@),
        None => None,
    }
}

/// The views of a sequence of strings.
pub open spec fn views(v: Seq<String>) -> Seq<Seq<char>> {
    v.map_values(|s: String| s@)
}

// ------------------------------------------------------------------------------------
// Whitespace and trimming
// ------------------------------------------------------------------------------------
/// The Unicode `White_Space` property (what `char::is_whitespace` tests).
pub open spec fn is_ws(c: char) -> bool {
    let u = c as u32;
    ||| 0x09 <= u <= 0x0D
    ||| u == 0x20
    ||| u == 0x85
    ||| u == 0xA0
    ||| u == 0x1680
    ||| 0x2000 <= u <= 0x200A
    ||| u == 0x2028
    ||| u == 0x2029
    ||| u == 0x202F
    ||| u == 0x205F
    ||| u == 0x3000
}

pub fn is_whitespace(c: char) -> (b: bool)
    ensures
        b == is_ws(c),
{
    let u = c as u32;
    (0x09 <= u && u <= 0x0D) || u == 0x20 || u == 0x85 || u == 0xA0 || u == 0x1680 || (0x2000
        <= u && u <= 0x200A) || u == 0x2028 || u == 0x2029 || u == 0x202F || u == 0x205F || u
        == 0x3000
}

/// `s` without its leading whitespace.
pub open spec fn trim_start(s: Seq<char>) -> Seq<char>
    decreases s.len(),
{
    if s.len() > 0 && is_ws(s[0]) {
        trim_start(s.drop_first())
    } else {
        s
    }
}

/// `s` without its trailing whitespace.
pub open spec fn trim_end(s: Seq<char>) -> Seq<char>
    decreases s.len(),
{
    if s.len() > 0 && is_ws(s.last()) {
        trim_end(s.drop_last())
    } else {
        s
    }
}

/// `s` without leading and trailing whitespace (`str::trim`).
pub open spec fn trimmed(s: Seq<char>) -> Seq<char> {
    trim_end(trim_start(s))
}

proof fn lemma_trim_start_step(s: Seq<char>, i: int)
    requires
        0 <= i < s.len(),
        is_ws(s[i]),
    ensures
        trim_start(s.subrange(i, s.len() as int)) == trim_start(s.subrange(i + 1, s.len() as int)),
{
    assert(s.subrange(i, s.len() as int).drop_first() =~= s.subrange(i + 1, s.len() as int));
}

proof fn lemma_trim_end_step(s: Seq<char>, i: int, j: int)
    requires
        0 <= i < j <= s.len(),
        is_ws(s[j - 1]),
    ensures
        trim_end(s.subrange(i, j)) == trim_end(s.subrange(i, j - 1)),
{
    assert(s.subrange(i, j).drop_last() =~= s.subrange(i, j - 1));
}

/// `str::trim`: the text without leading and trailing whitespace.
pub fn trim(s: &str) -> (r: String)
    ensures
        r@ == trimmed(s@),
{
    let n = s.unicode_len();
    let mut i: usize = 0;
    assert(s@.subrange(0, s@.len() as int) =~= s@);
    while i < n && is_whitespace(s.get_char(i))
        invariant
            n == s@.len(),
            i <= n,
            trim_start(s@) == trim_start(s@.subrange(i as int, n as int)),
        decreases n - i,
    {
        proof {
            lemma_trim_start_step(s@, i as int);
        }
        i = i + 1;
    }
    let ghost start = s@.subrange(i as int, n as int);
    assert(trim_start(s@) == start);
    let mut j: usize = n;
    while j > i && is_whitespace(s.get_char(j - 1))
        invariant
            n == s@.len(),
            i <= j <= n,
            start == s@.subrange(i as int, n as int),
            trim_end(start) == trim_end(s@.subrange(i as int, j as int)),
        decreases j - i,
    {
        proof {
            lemma_trim_end_step(s@, i as int, j as int);
        }
        j = j - 1;
    }
    assert(trim_end(s@.subrange(i as int, j as int)) == s@.subrange(i as int, j as int));
    owned(s.substring_char(i, j))
}

// ------------------------------------------------------------------------------------
// Prefixes, truncation
// ------------------------------------------------------------------------------------
/// Whether `s` begins with `p` (`str::starts_with`).
pub fn starts_with(s: &str, p: &str) -> (b: bool)
    ensures
        b == (p@.len() <= s@.len() && s@.subrange(0, p@.len() as int) == p@),
{
    let n = s.unicode_len();
    let m = p.unicode_len();
    if m > n {
        return false;
    }
    let mut k: usize = 0;
    while k < m
        invariant
            n == s@.len(),
            m == p@.len(),
            m <= n,
            k <= m,
            forall|x: int| 0 <= x < k ==> s@[x] == p@[x],
        decreases m - k,
    {
        if s.get_char(k) != p.get_char(k) {
            assert(s@.subrange(0, m as int)[k as int] != p@[k as int]);
            return false;
        }
        k = k + 1;
    }
    assert(s@.subrange(0, m as int) =~= p@);
    true
}

/// The first `n` characters of `s`, followed by `…` when anything was cut.
pub open spec fn truncated(s: Seq<char>, n: nat) -> Seq<char> {
    if s.len() <= n {
        s
    } else {
        s.take(n as int).push('\u{2026}')
    }
}

/// A shortened text is never longer than `n` characters plus the mark, keeps the text
/// whole when it fits, and otherwise keeps exactly its first `n` characters, then `…`.
pub proof fn lemma_truncated(s: Seq<char>, n: nat)
    ensures
        truncated(s, n).len() <= n + 1,
        s.len() <= n ==> truncated(s, n) == s,
        s.len() > n ==> truncated(s, n).len() == n + 1 && truncated(s, n).subrange(0, n as int)
            == s.subrange(0, n as int) && truncated(s, n)[n as int] == '\u{2026}',
{
    if s.len() > n {
        assert(truncated(s, n).subrange(0, n as int) =~= s.subrange(0, n as int));
    }
}

/// Shorten `s` to at most `n` characters, marking a cut with `…`.
pub fn truncate(s: &str, n: usize) -> (r: String)
    ensures
        r@ == truncated(s@, n as nat),
{
    let len = s.unicode_len();
    if len <= n {
        owned(s)
    } else {
        let mut r = owned(s.substring_char(0, n));
        push_char(&mut r, '\u{2026}');
        r
    }
}

// ------------------------------------------------------------------------------------
// Lines
// ------------------------------------------------------------------------------------
/// The index of the first `c` in `s` at or after `from`.
pub open spec fn find_from(s: Seq<char>, c: char, from: int) -> Option<int>
    decreases s.len() - from,
{
    if from < 0 || from >= s.len() {
        None
    } else if s[from] == c {
        Some(from)
    } else {
        find_from(s, c, from + 1)
    }
}

/// A line without the `\r` of a `\r\n` ending.
pub open spec fn strip_cr(line: Seq<char>) -> Seq<char> {
    if line.len() > 0 && line.last() == '\r' {
        line.drop_last()
    } else {
        line
    }
}

/// `str::lines`: split at `\n`, drop a `\r` that precedes it, no trailing empty line.
pub open spec fn lines_of(s: Seq<char>) -> Seq<Seq<char>>
    decreases s.len(),
{
    if s.len() == 0 {
        seq![]
    } else {
        match find_from(s, '\n', 0) {
            Some(i) => {
                proof {
                    lemma_find_from_bounds(s, '\n', 0);
                }
                seq![strip_cr(s.take(i))] + lines_of(s.skip(i + 1))
            },
            None => seq![s],
        }
    }
}

pub proof fn lemma_find_from_bounds(s: Seq<char>, c: char, from: int)
    requires
        from >= 0,
    ensures
        find_from(s, c, from) matches Some(i) ==> from <= i < s.len() && s[i] == c && forall|
            k: int,
        |
            from <= k < i ==> s[k] != c,
        find_from(s, c, from) is None ==> forall|k: int| from <= k < s.len() ==> s[k] != c,
    decreases s.len() - from,
{
    if from >= 0 && from < s.len() && s[from] != c {
        lemma_find_from_bounds(s, c, from + 1);
    }
}

proof fn lemma_find_from_skip(s: Seq<char>, c: char, p: int, j: int)
    requires
        0 <= p <= j <= s.len(),
        forall|k: int| p <= k < j ==> s[k] != c,
    ensures
        find_from(s.skip(p), c, j - p) == (match find_from(s, c, j) {
            Some(i) => Some(i - p),
            None => None,
        }),
        find_from(s.skip(p), c, 0) == find_from(s.skip(p), c, j - p),
    decreases s.len() - j,
{
    if j < s.len() && s[j] != c {
        lemma_find_from_skip(s, c, p, j + 1);
    }
    lemma_find_from_prefix_free(s.skip(p), c, 0, j - p);
}

proof fn lemma_find_from_prefix_free(s: Seq<char>, c: char, a: int, b: int)
    requires
        0 <= a <= b <= s.len(),
        forall|k: int| a <= k < b ==> s[k] != c,
    ensures
        find_from(s, c, a) == find_from(s, c, b),
    decreases b - a,
{
    if a < b {
        lemma_find_from_prefix_free(s, c, a + 1, b);
    }
}

/// The lines of `s`, as `str::lines` gives them.
pub fn split_lines(s: &str) -> (r: Vec<String>)
    ensures
        views(r@) == lines_of(s@),
{
    let n = s.unicode_len();
    let mut out: Vec<String> = Vec::new();
    let mut p: usize = 0;
    assert(s@.skip(0) =~= s@);
    while p < n
        invariant
            n == s@.len(),
            p <= n,
            views(out@) + lines_of(s@.skip(p as int)) == lines_of(s@),
        decreases n - p,
    {
        let ghost rest = s@.skip(p as int);
        let mut j: usize = p;
        while j < n && s.get_char(j) != '\n'
            invariant
                n == s@.len(),
                p <= j <= n,
                forall|k: int| p <= k < j ==> s@[k] != '\n',
            decreases n - j,
        {
            j = j + 1;
        }
        proof {
            lemma_find_from_skip(s@, '\n', p as int, j as int);
            lemma_find_from_bounds(s@, '\n', j as int);
        }
        if j < n {
            // a line ended by `\n` (and perhaps `\r\n`)
            let mut end = j;
            if end > p && s.get_char(end - 1) == '\r' {
                end = end - 1;
            }
            let line = owned(s.substring_char(p, end));
            proof {
                assert(rest.take(j - p) =~= s@.subrange(p as int, j as int));
                assert(rest.skip(j - p + 1) =~= s@.skip(j + 1));
                assert(line@ == strip_cr(rest.take(j - p))) by {
                    if j > p && s@[j - 1] == '\r' {
                        assert(rest.take(j - p).drop_last() =~= s@.subrange(p as int, end as int));
                    } else {
                        assert(rest.take(j - p) =~= s@.subrange(p as int, end as int));
                    }
                }
                assert(lines_of(rest) == seq![line@] + lines_of(s@.skip(j + 1)));
            }
            let ghost before = out@;
            out.push(line);
            proof {
                assert(views(out@) =~= views(before).push(line@)) by {
                    assert(out@ =~= before.push(line));
                }
            }
            p = j + 1;
            proof {
                assert(views(out@) + lines_of(s@.skip(p as int)) =~= views(before) + lines_of(
                    rest,
                ));
            }
        } else {
            // the last line, without an ending
            let line = owned(s.substring_char(p, n));
            proof {
                assert(rest =~= s@.subrange(p as int, n as int));
                assert(lines_of(rest) == seq![line@]);
                assert(s@.skip(n as int) =~= Seq::<char>::empty());
            }
            let ghost before = out@;
            out.push(line);
            proof {
                assert(out@ =~= before.push(line));
                assert(views(out@) =~= views(before).push(line@));
            }
            p = n;
            proof {
                assert(views(out@) + lines_of(s@.skip(p as int)) =~= views(before) + lines_of(
                    rest,
                ));
            }
        }
    }
    assert(s@.skip(n as int) =~= Seq::<char>::empty());
    assert(views(out@) + lines_of(s@.skip(n as int)) =~= views(out@));
    out
}

// ------------------------------------------------------------------------------------
// Decimal
// ------------------------------------------------------------------------------------
pub open spec fn digit_char(d: nat) -> char {
    if d == 0 {
        '0'
    } else if d == 1 {
        '1'
    } else if d == 2 {
        '2'
    } else if d == 3 {
        '3'
    } else if d == 4 {
        '4'
    } else if d == 5 {
        '5'
    } else if d == 6 {
        '6'
    } else if d == 7 {
        '7'
    } else if d == 8 {
        '8'
    } else {
        '9'
    }
}

/// The decimal digits of `n`, without sign or leading zeros.
pub open spec fn dec(n: nat) -> Seq<char>
    decreases n,
{
    if n < 10 {
        seq![digit_char(n)]
    } else {
        dec(n / 10).push(digit_char(n % 10))
    }
}

fn digit(d: u64) -> (c: char)
    requires
        d < 10,
    ensures
        c == digit_char(d as nat),
{
    if d == 0 {
        '0'
    } else if d == 1 {
        '1'
    } else if d == 2 {
        '2'
    } else if d == 3 {
        '3'
    } else if d == 4 {
        '4'
    } else if d == 5 {
        '5'
    } else if d == 6 {
        '6'
    } else if d == 7 {
        '7'
    } else if d == 8 {
        '8'
    } else {
        '9'
    }
}

/// `n` in decimal, as `Display` writes it.
pub fn u64_to_dec(n: u64) -> (r: String)
    ensures
        r@ == dec(n as nat),
    decreases n,
{
    if n < 10 {
        let mut r = String::new();
        push_char(&mut r, digit(n));
        assert(r@ =~= seq![digit_char(n as nat)]);
        r
    } else {
        let mut r = u64_to_dec(n / 10);
        push_char(&mut r, digit(n % 10));
        r
    }
}

/// The value of a non-empty run of decimal digits.
pub open spec fn digits_value(s: Seq<char>) -> nat
    decreases s.len(),
{
    if s.len() == 0 {
        0
    } else {
        digits_value(s.drop_last()) * 10 + ((s.last() as u32) - ('0' as u32)) as nat
    }
}

pub open spec fn is_digit(c: char) -> bool {
    '0' as u32 <= c as u32 <= '9' as u32
}

pub open spec fn all_digits(s: Seq<char>) -> bool {
    forall|i: int| 0 <= i < s.len() ==> is_digit(#[trigger] s[i])
}

/// A run of decimal digits read as a `u64`, if it is non-empty, all digits and in range.
pub open spec fn parsed_digits(d: Seq<char>) -> Option<u64> {
    if d.len() > 0 && all_digits(d) && digits_value(d) <= u64::MAX {
        Some(digits_value(d) as u64)
    } else {
        None
    }
}

/// `u64::from_str`: an optional `+`, then one or more decimal digits, within range.
pub open spec fn parsed_u64(s: Seq<char>) -> Option<u64> {
    if s.len() > 1 && s[0] == '+' {
        parsed_digits(s.drop_first())
    } else {
        parsed_digits(s)
    }
}

proof fn lemma_digits_value_prefix_le(s: Seq<char>, k: int)
    requires
        0 <= k <= s.len(),
        all_digits(s),
    ensures
        digits_value(s.take(k)) <= digits_value(s),
    decreases s.len() - k,
{
    if k < s.len() {
        lemma_digits_value_prefix_le(s, k + 1);
        assert(s.take(k + 1).drop_last() =~= s.take(k));
        assert(is_digit(s[k]));
    } else {
        assert(s.take(k) =~= s);
    }
}

proof fn lemma_digits_overflow(d: Seq<char>, k: int)
    requires
        0 <= k <= d.len(),
        digits_value(d.take(k)) > u64::MAX,
    ensures
        parsed_digits(d) is None,
{
    if all_digits(d) {
        lemma_digits_value_prefix_le(d, k);
    }
}

fn parse_digits(s: &str, start: usize) -> (r: Option<u64>)
    requires
        start <= s@.len(),
    ensures
        r == parsed_digits(s@.skip(start as int)),
{
    let ghost d = s@.skip(start as int);
    let n = s.unicode_len();
    if start == n {
        return None;
    }
    let mut i: usize = start;
    let mut v: u64 = 0;
    while i < n
        invariant
            n == s@.len(),
            start <= i <= n,
            d == s@.skip(start as int),
            forall|k: int| 0 <= k < i - start ==> is_digit(#[trigger] d[k]),
            v as nat == digits_value(d.take(i - start)),
        decreases n - i,
    {
        let c = s.get_char(i);
        let cu = c as u32;
        assert(d[i - start] == c);
        if !(48 <= cu && cu <= 57) {
            assert(!all_digits(d));
            return None;
        }
        let dv = (cu - 48) as u64;
        proof {
            assert(d.take(i - start + 1).drop_last() =~= d.take(i - start));
            assert(digits_value(d.take(i - start + 1)) == v * 10 + dv);
        }
        let m = v.checked_mul(10);
        if m.is_none() {
            proof {
                lemma_digits_overflow(d, i - start + 1);
            }
            return None;
        }
        let w = m.unwrap().checked_add(dv);
        if w.is_none() {
            proof {
                lemma_digits_overflow(d, i - start + 1);
            }
            return None;
        }
        v = w.unwrap();
        i = i + 1;
    }
    assert(d.take(n - start) =~= d);
    Some(v)
}

/// Parse an unsigned decimal number as `str::parse::<u64>` does.
pub fn parse_u64(s: &str) -> (r: Option<u64>)
    ensures
        r == parsed_u64(s@),
{
    let n = s.unicode_len();
    if n > 1 && s.get_char(0) == '+' {
        assert(s@.drop_first() =~= s@.skip(1));
        parse_digits(s, 1)
    } else {
        assert(s@ =~= s@.skip(0));
        parse_digits(s, 0)
    }
}

proof fn lemma_dec_digits(n: nat)
    ensures
        dec(n).len() > 0,
        all_digits(dec(n)),
        digits_value(dec(n)) == n,
    decreases n,
{
    if n >= 10 {
        lemma_dec_digits(n / 10);
        let d = dec(n / 10);
        let c = digit_char(n % 10);
        assert(d.push(c).drop_last() =~= d);
        assert(d.push(c).last() == c);
        assert(((c as u32) - ('0' as u32)) as nat == n % 10);
        assert(n == (n / 10) * 10 + n % 10) by (nonlinear_arith);
        assert(digits_value(d.push(c)) == digits_value(d) * 10 + n % 10);
        assert forall|i: int| 0 <= i < d.push(c).len() implies is_digit(#[trigger] d.push(c)[i]) by {
            if i < d.len() {
                assert(d.push(c)[i] == d[i]);
            }
        }
    } else {
        let c = digit_char(n);
        assert(seq![c].drop_last() =~= Seq::<char>::empty());
        assert(((c as u32) - ('0' as u32)) as nat == n);
        assert(digits_value(seq![c]) == digits_value(Seq::<char>::empty()) * 10 + n);
    }
}

/// Reading back the decimal text of a number gives the number: `parse_u64` of what
/// `u64_to_dec` writes for `n` is `n`, for every `n`.
pub proof fn lemma_parse_dec_round_trip(n: u64)
    ensures
        parsed_u64(dec(n as nat)) == Some(n),
{
    lemma_dec_digits(n as nat);
    assert(is_digit(dec(n as nat)[0]));
}

// ------------------------------------------------------------------------------------
// Hexadecimal
// ------------------------------------------------------------------------------------
pub open spec fn hex_char(d: nat) -> char {
    if d < 10 {
        digit_char(d)
    } else if d == 10 {
        'a'
    } else if d == 11 {
        'b'
    } else if d == 12 {
        'c'
    } else if d == 13 {
        'd'
    } else if d == 14 {
        'e'
    } else {
        'f'
    }
}

/// The lowest `width` hexadecimal digits of `n`, lower case, most significant first.
pub open spec fn hex_pad(n: nat, width: nat) -> Seq<char>
    decreases width,
{
    if width == 0 {
        seq![]
    } else {
        hex_pad(n / 16, (width - 1) as nat).push(hex_char(n % 16))
    }
}

fn hex_digit(d: u64) -> (c: char)
    requires
        d < 16,
    ensures
        c == hex_char(d as nat),
{
    if d < 10 {
        digit(d)
    } else if d == 10 {
        'a'
    } else if d == 11 {
        'b'
    } else if d == 12 {
        'c'
    } else if d == 13 {
        'd'
    } else if d == 14 {
        'e'
    } else {
        'f'
    }
}

/// Append the lowest `width` hex digits of `n` to `out` (`{:0width$x}` for values that fit).
pub fn push_hex_pad(out: &mut String, n: u64, width: usize)
    ensures
        final(out)@ == old(out)@ + hex_pad(n as nat, width as nat),
    decreases width,
{
    if width == 0 {
        assert(old(out)@ + hex_pad(n as nat, 0) =~= old(out)@);
    } else {
        push_hex_pad(out, n / 16, width - 1);
        push_hex_pad_last(out, n);
        assert(old(out)@ + hex_pad(n as nat, width as nat) =~= old(out)@ + hex_pad(
            (n / 16) as nat,
            (width - 1) as nat,
        ) + seq![hex_char((n % 16) as nat)]);
    }
}

fn push_hex_pad_last(out: &mut String, n: u64)
    ensures
        final(out)@ == old(out)@ + seq![hex_char((n % 16) as nat)],
{
    push_char(out, hex_digit(n % 16));
    assert(old(out)@.push(hex_char((n % 16) as nat)) =~= old(out)@ + seq![
        hex_char((n % 16) as nat),
    ]);
}

/// Two lower-case hex digits per byte.
pub open spec fn hex_bytes(b: Seq<u8>) -> Seq<char>
    decreases b.len(),
{
    if b.len() == 0 {
        seq![]
    } else {
        hex_bytes(b.drop_last()) + hex_pad(b.last() as nat, 2)
    }
}

/// Lower-case hex encoding of `bytes` (two digits per byte).
pub fn hex(bytes: &[u8]) -> (r: String)
    ensures
        r@ == hex_bytes(bytes@),
{
    let mut out = String::new();
    let mut i: usize = 0;
    while i < bytes.len()
        invariant
            i <= bytes@.len(),
            out@ == hex_bytes(bytes@.take(i as int)),
        decreases bytes@.len() - i,
    {
        push_hex_pad(&mut out, bytes[i] as u64, 2);
        assert(bytes@.take(i + 1).drop_last() =~= bytes@.take(i as int));
        i = i + 1;
    }
    assert(bytes@.take(bytes@.len() as int) =~= bytes@);
    out
}

} // verus!
