//! Character-level text helpers shared by the rest of the library: Unicode
//! whitespace trimming, line splitting, and decimal rendering of integers.

use vstd::prelude::*;

verus! {

/// Unicode `White_Space` property — the set `char::is_whitespace` tests.
pub open spec fn is_ws(c: char) -> bool {
    let u = c as u32;
    ||| 0x09 <= u <= 0x0D
    ||| u == 0x20
    ||| u == 0x85
    ||| u == 0xA0
    ||| u == 0x1680
    ||| 0x2000 <= u <= 0x200A
    ||| u == 0x2028
    ||| u == 0x2029
    ||| u == 0x202F
    ||| u == 0x205F
    ||| u == 0x3000
}

/// `s` with leading whitespace removed.
pub open spec fn trim_start(s: Seq<char>) -> Seq<char>
    decreases s.len(),
{
    if s.len() > 0 && is_ws(s[0]) {
        trim_start(s.drop_first())
    } else {
        s
    }
}

/// `s` with trailing whitespace removed.
pub open spec fn trim_end(s: Seq<char>) -> Seq<char>
    decreases s.len(),
{
    if s.len() > 0 && is_ws(s.last()) {
        trim_end(s.drop_last())
    } else {
        s
    }
}

/// `str::trim`: both ends stripped of whitespace.
pub open spec fn trim(s: Seq<char>) -> Seq<char> {
    trim_end(trim_start(s))
}

/// Executable whitespace test agreeing with `is_ws`.
pub fn char_is_ws(c: char) -> (b: bool)
    ensures
        b == is_ws(c),
{
    let u = c as u32;
    (0x09 <= u && u <= 0x0D) || u == 0x20 || u == 0x85 || u == 0xA0 || u == 0x1680 || (0x2000
        <= u && u <= 0x200A) || u == 0x2028 || u == 0x2029 || u == 0x202F || u == 0x205F || u
        == 0x3000
}

proof fn lemma_trim_start_skip(s: Seq<char>, i: int)
    requires
        0 <= i <= s.len(),
        forall|j: int| 0 <= j < i ==> is_ws(#[trigger] s[j]),
    ensures
        trim_start(s) == trim_start(s.subrange(i, s.len() as int)),
    decreases i,
{
    if i > 0 {
        assert(s.subrange(1, s.len() as int) =~= s.drop_first());
        lemma_trim_start_skip(s.drop_first(), i - 1);
        assert(s.drop_first().subrange(i - 1, s.drop_first().len() as int) =~= s.subrange(
            i,
            s.len() as int,
        ));
    } else {
        assert(s.subrange(0, s.len() as int) =~= s);
    }
}

proof fn lemma_trim_end_skip(s: Seq<char>, k: int)
    requires
        0 <= k <= s.len(),
        forall|j: int| k <= j < s.len() ==> is_ws(#[trigger] s[j]),
    ensures
        trim_end(s) == trim_end(s.subrange(0, k)),
    decreases s.len() - k,
{
    if k < s.len() {
        lemma_trim_end_skip(s.drop_last(), k);
        assert(s.drop_last().subrange(0, k) =~= s.subrange(0, k));
    } else {
        assert(s.subrange(0, k) =~= s);
    }
}

/// The first character after leading whitespace, if any.
pub fn first_non_ws(v: &Vec<char>) -> (r: Option<char>)
    ensures
        trim_start(v@).len() > 0 ==> r == Some(trim_start(v@)[0]),
        trim_start(v@).len() == 0 ==> r is None,
{
    let n = v.len();
    let mut i: usize = 0;
    while i < n && char_is_ws(v[i])
        invariant
            n == v.len(),
            i <= n,
            forall|j: int| 0 <= j < i ==> is_ws(#[trigger] v@[j]),
        decreases n - i,
    {
        i += 1;
    }
    proof {
        lemma_trim_start_skip(v@, i as int);
        if i < n {
            assert(!is_ws(v@[i as int]));
            assert(v@.subrange(i as int, n as int)[0] == v@[i as int]);
        } else {
            assert(v@.subrange(i as int, n as int).len() == 0);
        }
    }
    if i < n {
        Some(v[i])
    } else {
        None
    }
}

/// Trim a character vector (`str::trim` over its characters).
pub fn trim_chars(v: &Vec<char>) -> (r: Vec<char>)
    ensures
        r@ == trim(v@),
{
    let n = v.len();
    let mut i: usize = 0;
    while i < n && char_is_ws(v[i])
        invariant
            n == v.len(),
            i <= n,
            forall|j: int| 0 <= j < i ==> is_ws(#[trigger] v@[j]),
        decreases n - i,
    {
        i += 1;
    }
    proof {
        lemma_trim_start_skip(v@, i as int);
        if i < n {
            assert(!is_ws(v@[i as int]));
        }
    }
    let ghost rest = v@.subrange(i as int, n as int);
    assert(trim_start(v@) == rest);
    let mut k: usize = n;
    while k > i && char_is_ws(v[k - 1])
        invariant
            n == v.len(),
            i <= k <= n,
            rest == v@.subrange(i as int, n as int),
            forall|j: int| k <= j < n ==> is_ws(#[trigger] v@[j]),
        decreases k,
    {
        k -= 1;
    }
    proof {
        lemma_trim_end_skip(rest, (k - i) as int);
        assert(rest.subrange(0, (k - i) as int) =~= v@.subrange(i as int, k as int));
    }
    let mut r: Vec<char> = Vec::new();
    let mut p: usize = i;
    while p < k
        invariant
            i <= p <= k <= n,
            n == v.len(),
            r@ =~= v@.subrange(i as int, p as int),
        decreases k - p,
    {
        r.push(v[p]);
        p += 1;
    }
    proof {
        let t = v@.subrange(i as int, k as int);
        if t.len() > 0 {
            assert(!is_ws(t[0]));
            assert(!is_ws(t.last()));
        }
    }
    r
}


/// A decimal digit character for a value below ten.
pub open spec fn digit_char(d: nat) -> char {
    ((48 + d) as u8) as char
}

/// The decimal rendering of a natural number (no sign, no leading zeros).
pub open spec fn decimal(n: nat) -> Seq<char>
    decreases n,
{
    if n < 10 {
        seq![digit_char(n)]
    } else {
        decimal(n / 10).push(digit_char(n % 10))
    }
}

/// A decimal rendering left-padded with zeros to at least two digits (`{:02}`).
pub open spec fn decimal2(n: nat) -> Seq<char> {
    if n < 10 {
        seq!['0', digit_char(n)]
    } else {
        decimal(n)
    }
}

fn digit(d: u64) -> (c: char)
    requires
        d < 10,
    ensures
        c == digit_char(d as nat),
{
    let b: u8 = 48u8 + (d as u8);
    b as char
}

fn push_decimal(n: u64, out: &mut Vec<char>)
    ensures
        final(out)@ == old(out)@ + decimal(n as nat),
    decreases n,
{
    if n >= 10 {
        push_decimal(n / 10, out);
    }
    out.push(digit(n % 10));
    proof {
        if n < 10 {
            assert(old(out)@ + decimal(n as nat) =~= old(out)@.push(digit_char(n as nat)));
        }
    }
}

/// Decimal digits of `n`, as `format!("{n}")` renders an unsigned integer.
pub fn decimal_chars(n: u64) -> (r: Vec<char>)
    ensures
        r@ == decimal(n as nat),
{
    let mut out: Vec<char> = Vec::new();
    push_decimal(n, &mut out);
    assert(out@ =~= decimal(n as nat));
    out
}

/// Two-digit zero-padded decimal (`{:02}`).
pub fn decimal2_chars(n: u64) -> (r: Vec<char>)
    ensures
        r@ == decimal2(n as nat),
{
    if n < 10 {
        let mut out: Vec<char> = Vec::new();
        out.push('0');
        out.push(digit(n));
        assert(out@ =~= decimal2(n as nat));
        out
    } else {
        decimal_chars(n)
    }
}

/// The characters of a string slice.
#[verifier::external_body]
pub fn chars_of(s: &str) -> (v: Vec<char>)
    ensures
        v@ == s@,
{
    s.chars().collect()
}

/// A `String` holding exactly the given characters.
#[verifier::external_body]
pub fn string_of(v: &Vec<char>) -> (s: String)
    ensures
        s@ == v@,
{
    v.iter().collect()
}

/// Character-wise equality of two vectors.
pub fn chars_eq(a: &Vec<char>, b: &Vec<char>) -> (r: bool)
    ensures
        r == (a@ == b@),
{
    if a.len() != b.len() {
        return false;
    }
    let mut i: usize = 0;
    while i < a.len()
        invariant
            a.len() == b.len(),
            i <= a.len(),
            forall|j: int| 0 <= j < i ==> a@[j] == b@[j],
        decreases a.len() - i,
    {
        if a[i] != b[i] {
            return false;
        }
        i += 1;
    }
    assert(a@ =~= b@);
    true
}

/// Append all of `b` to `a`.
pub fn extend_chars(a: &mut Vec<char>, b: &Vec<char>)
    ensures
        final(a)@ == old(a)@ + b@,
{
    let mut i: usize = 0;
    while i < b.len()
        invariant
            i <= b.len(),
            a@ == old(a)@ + b@.subrange(0, i as int),
        decreases b.len() - i,
    {
        a.push(b[i]);
        i += 1;
        assert(a@ =~= old(a)@ + b@.subrange(0, i as int));
    }
    assert(b@.subrange(0, b.len() as int) =~= b@);
}

/// Append the characters of a string slice.
pub fn extend_str(a: &mut Vec<char>, s: &str)
    ensures
        final(a)@ == old(a)@ + s@,
{
    let b = chars_of(s);
    extend_chars(a, &b);
}

/// Index of the first `'\n'` at or after `i`, or `s.len()` if there is none.
pub open spec fn nl_index(s: Seq<char>, i: int) -> int
    decreases s.len() - i,
{
    if i >= s.len() {
        s.len() as int
    } else if s[i] == '\n' {
        i
    } else {
        nl_index(s, i + 1)
    }
}

/// Drop one trailing `'\r'`.
pub open spec fn strip_cr(t: Seq<char>) -> Seq<char> {
    if t.len() > 0 && t.last() == '\r' {
        t.drop_last()
    } else {
        t
    }
}

/// `str::lines`: split on `'\n'`, each newline-terminated line losing one
/// trailing `'\r'`; no empty final line after a trailing newline.
pub open spec fn lines(s: Seq<char>) -> Seq<Seq<char>>
    decreases s.len(),
{
    if s.len() == 0 {
        Seq::empty()
    } else {
        let k = nl_index(s, 0);
        proof {
            lemma_nl_index_bounds(s, 0);
        }
        if k < s.len() {
            seq![strip_cr(s.subrange(0, k))] + lines(s.subrange(k + 1, s.len() as int))
        } else {
            seq![s]
        }
    }
}

/// `s.lines().next().unwrap_or(s)`.
pub open spec fn first_line(s: Seq<char>) -> Seq<char> {
    if s.len() == 0 {
        s
    } else {
        lines(s)[0]
    }
}

pub proof fn lemma_nl_index_bounds(s: Seq<char>, i: int)
    requires
        0 <= i <= s.len(),
    ensures
        i <= nl_index(s, i) <= s.len(),
        nl_index(s, i) < s.len() ==> s[nl_index(s, i)] == '\n',
        forall|j: int| i <= j < nl_index(s, i) ==> s[j] != '\n',
    decreases s.len() - i,
{
    if i < s.len() && s[i] != '\n' {
        lemma_nl_index_bounds(s, i + 1);
    }
}

proof fn lemma_nl_index_shift(s: Seq<char>, st: int, i: int)
    requires
        0 <= st <= i <= s.len(),
    ensures
        nl_index(s.subrange(st, s.len() as int), i - st) == nl_index(s, i) - st,
    decreases s.len() - i,
{
    if i < s.len() && s[i] != '\n' {
        lemma_nl_index_shift(s, st, i + 1);
    }
}

fn strip_cr_chars(t: Vec<char>) -> (r: Vec<char>)
    ensures
        r@ == strip_cr(t@),
{
    let mut t = t;
    if t.len() > 0 && t[t.len() - 1] == '\r' {
        t.pop();
    }
    t
}

fn slice_chars(v: &Vec<char>, a: usize, b: usize) -> (r: Vec<char>)
    requires
        a <= b <= v.len(),
    ensures
        r@ == v@.subrange(a as int, b as int),
{
    let mut r: Vec<char> = Vec::new();
    let mut p = a;
    while p < b
        invariant
            a <= p <= b <= v.len(),
            r@ =~= v@.subrange(a as int, p as int),
        decreases b - p,
    {
        r.push(v[p]);
        p += 1;
    }
    r
}

/// Sub-vector `v[a..b]`.
pub fn sub_chars(v: &Vec<char>, a: usize, b: usize) -> (r: Vec<char>)
    requires
        a <= b <= v.len(),
    ensures
        r@ == v@.subrange(a as int, b as int),
{
    slice_chars(v, a, b)
}

/// The lines of a character vector, as `str::lines` yields them.
pub fn lines_of(v: &Vec<char>) -> (r: Vec<Vec<char>>)
    ensures
        r@.len() == lines(v@).len(),
        forall|j: int| 0 <= j < r@.len() ==> #[trigger] r@[j]@ == lines(v@)[j],
{
    let n = v.len();
    let mut out: Vec<Vec<char>> = Vec::new();
    let mut st: usize = 0;
    let mut i: usize = 0;
    let ghost mut acc: Seq<Seq<char>> = Seq::empty();
    assert(v@.subrange(0, n as int) =~= v@);
    assert(acc + lines(v@) =~= lines(v@));
    while i < n
        invariant
            n == v.len(),
            st <= i <= n,
            out@.len() == acc.len(),
            forall|j: int| 0 <= j < acc.len() ==> #[trigger] out@[j]@ == acc[j],
            lines(v@) == acc + lines(v@.subrange(st as int, n as int)),
            forall|j: int| st <= j < i ==> v@[j] != '\n',
        decreases n - i,
    {
        if v[i] == '\n' {
            let ghost rest = v@.subrange(st as int, n as int);
            proof {
                lemma_nl_index_shift(v@, st as int, st as int);
                lemma_nl_index_bounds(v@, st as int);
                assert(nl_index(v@, st as int) == i) by {
                    lemma_nl_index_bounds(v@, st as int);
                    if nl_index(v@, st as int) < i {
                        assert(v@[nl_index(v@, st as int)] == '\n');
                    }
                    if nl_index(v@, st as int) > i {
                        assert(v@[i as int] != '\n');
                    }
                };
                assert(rest.subrange(0, (i - st) as int) =~= v@.subrange(st as int, i as int));
                assert(rest.subrange((i - st + 1) as int, rest.len() as int) =~= v@.subrange(
                    (i + 1) as int,
                    n as int,
                ));
            }
            let line = strip_cr_chars(slice_chars(v, st, i));
            proof {
                acc = acc.push(line@);
            }
            out.push(line);
            st = i + 1;
            proof {
                assert(lines(v@) =~= acc + lines(v@.subrange(st as int, n as int)));
            }
        }
        i += 1;
    }
    if st < n {
        let ghost rest = v@.subrange(st as int, n as int);
        proof {
            lemma_nl_index_shift(v@, st as int, st as int);
            lemma_nl_index_bounds(v@, st as int);
            assert(nl_index(v@, st as int) == n) by {
                if nl_index(v@, st as int) < n {
                    assert(v@[nl_index(v@, st as int)] == '\n');
                }
            };
        }
        let last = slice_chars(v, st, n);
        proof {
            acc = acc.push(last@);
        }
        out.push(last);
    }
    proof {
        assert(lines(v@) =~= acc);
    }
    out
}

/// An ASCII decimal digit.
pub open spec fn is_digit(c: char) -> bool {
    '0' <= c <= '9'
}

/// The value of a run of decimal digits.
pub open spec fn digits_value(s: Seq<char>) -> nat
    decreases s.len(),
{
    if s.len() == 0 {
        0
    } else {
        digits_value(s.drop_last()) * 10 + ((s.last() as u32) - 48) as nat
    }
}

/// Every character is a decimal digit.
pub open spec fn all_digits(s: Seq<char>) -> bool {
    forall|i: int| 0 <= i < s.len() ==> is_digit(#[trigger] s[i])
}

/// A non-empty digit run whose value fits under `max`.
pub open spec fn digits_within(s: Seq<char>, max: nat) -> Option<nat> {
    if s.len() > 0 && all_digits(s) && digits_value(s) <= max {
        Some(digits_value(s))
    } else {
        None
    }
}

/// `str::parse` for an unsigned integer type whose maximum is `max`: an
/// optional leading `'+'`, then one or more ASCII digits, in range.
pub open spec fn parse_unsigned(s: Seq<char>, max: nat) -> Option<nat> {
    if s.len() > 0 && s[0] == '+' {
        digits_within(s.drop_first(), max)
    } else {
        digits_within(s, max)
    }
}

/// `str::parse` for a signed integer type with range `[-(max + 1), max]`.
pub open spec fn parse_signed(s: Seq<char>, max: nat) -> Option<int> {
    if s.len() > 0 && s[0] == '-' {
        match digits_within(s.drop_first(), max + 1) {
            Some(v) => Some(-(v as int)),
            None => None,
        }
    } else {
        match parse_unsigned(s, max) {
            Some(v) => Some(v as int),
            None => None,
        }
    }
}

proof fn lemma_digits_value_prefix_mono(s: Seq<char>, i: int)
    requires
        0 <= i <= s.len(),
        all_digits(s),
    ensures
        digits_value(s.subrange(0, i)) <= digits_value(s),
    decreases s.len() - i,
{
    if i < s.len() {
        lemma_digits_value_prefix_mono(s.drop_last(), if i < s.len() { i } else { i - 1 });
        assert(s.drop_last().subrange(0, i) =~= s.subrange(0, i));
    } else {
        assert(s.subrange(0, i) =~= s);
    }
}

fn parse_digits_from(v: &Vec<char>, start: usize, max: u64) -> (r: Option<u64>)
    requires
        start <= v.len(),
        max >= 9,
    ensures
        match digits_within(v@.subrange(start as int, v.len() as int), max as nat) {
            Some(x) => r == Some(x as u64),
            None => r is None,
        },
{
    let n = v.len();
    let ghost body = v@.subrange(start as int, n as int);
    if start == n {
        return None;
    }
    let mut acc: u64 = 0;
    let mut i: usize = start;
    while i < n
        invariant
            n == v.len(),
            start <= i <= n,
            body == v@.subrange(start as int, n as int),
            all_digits(body.subrange(0, (i - start) as int)),
            acc as nat == digits_value(body.subrange(0, (i - start) as int)),
            acc <= max,
            max >= 9,
        decreases n - i,
    {
        let c = v[i];
        if !('0' <= c && c <= '9') {
            assert(!is_digit(body[(i - start) as int]));
            return None;
        }
        let d: u64 = ((c as u32) - 48) as u64;
        assert(d <= 9);
        let ghost pre = body.subrange(0, (i - start) as int);
        let ghost nxt = body.subrange(0, (i - start + 1) as int);
        assert(nxt.drop_last() =~= pre);
        if acc > (max - d) / 10 {
            proof {
                assert(acc * 10 + d > max) by (nonlinear_arith)
                    requires
                        acc > (max - d) / 10,
                        d <= 9,
                        max >= 9,
                ;
                if all_digits(body) {
                    lemma_digits_value_prefix_mono(body, (i - start + 1) as int);
                }
            }
            return None;
        }
        proof {
            assert(acc * 10 + d <= max) by (nonlinear_arith)
                requires
                    acc <= (max - d) / 10,
                    d <= max,
            ;
        }
        acc = acc * 10 + d;
        i += 1;
        assert(all_digits(body.subrange(0, (i - start) as int)));
    }
    assert(body.subrange(0, (n - start) as int) =~= body);
    Some(acc)
}

/// `str::parse::<u64>()` over characters.
pub fn parse_u64(v: &Vec<char>) -> (r: Option<u64>)
    ensures
        match parse_unsigned(v@, u64::MAX as nat) {
            Some(x) => r == Some(x as u64),
            None => r is None,
        },
{
    if v.len() > 0 && v[0] == '+' {
        assert(v@.drop_first() =~= v@.subrange(1, v.len() as int));
        parse_digits_from(v, 1, u64::MAX)
    } else {
        assert(v@ =~= v@.subrange(0, v.len() as int));
        parse_digits_from(v, 0, u64::MAX)
    }
}

/// `str::parse::<u16>()` over characters.
pub fn parse_u16(v: &Vec<char>) -> (r: Option<u16>)
    ensures
        match parse_unsigned(v@, u16::MAX as nat) {
            Some(x) => r == Some(x as u16),
            None => r is None,
        },
{
    let r = if v.len() > 0 && v[0] == '+' {
        assert(v@.drop_first() =~= v@.subrange(1, v.len() as int));
        parse_digits_from(v, 1, u16::MAX as u64)
    } else {
        assert(v@ =~= v@.subrange(0, v.len() as int));
        parse_digits_from(v, 0, u16::MAX as u64)
    };
    match r {
        Some(m) => Some(m as u16),
        None => None,
    }
}

/// `str::parse::<i64>()` over characters.
pub fn parse_i64(v: &Vec<char>) -> (r: Option<i64>)
    ensures
        match parse_signed(v@, i64::MAX as nat) {
            Some(x) => r == Some(x as i64),
            None => r is None,
        },
{
    if v.len() > 0 && v[0] == '-' {
        assert(v@.drop_first() =~= v@.subrange(1, v.len() as int));
        match parse_digits_from(v, 1, 0x8000_0000_0000_0000u64) {
            Some(m) => {
                if m == 0x8000_0000_0000_0000u64 {
                    Some(i64::MIN)
                } else {
                    Some(-(m as i64))
                }
            },
            None => None,
        }
    } else {
        let r = if v.len() > 0 && v[0] == '+' {
            assert(v@.drop_first() =~= v@.subrange(1, v.len() as int));
            parse_digits_from(v, 1, i64::MAX as u64)
        } else {
            assert(v@ =~= v@.subrange(0, v.len() as int));
            parse_digits_from(v, 0, i64::MAX as u64)
        };
        match r {
            Some(m) => Some(m as i64),
            None => None,
        }
    }
}


/// Lexicographic order on character sequences (by code point), the order
/// `String`'s `Ord` uses.
pub open spec fn seq_lt(a: Seq<char>, b: Seq<char>) -> bool
    decreases a.len(),
{
    if a.len() == 0 {
        b.len() > 0
    } else if b.len() == 0 {
        false
    } else if a[0] != b[0] {
        a[0] < b[0]
    } else {
        seq_lt(a.drop_first(), b.drop_first())
    }
}

/// `seq_lt` is transitive.
pub proof fn lemma_seq_lt_trans(a: Seq<char>, b: Seq<char>, c: Seq<char>)
    requires
        seq_lt(a, b),
        seq_lt(b, c),
    ensures
        seq_lt(a, c),
    decreases a.len(),
{
    if a.len() > 0 && b.len() > 0 && c.len() > 0 && a[0] == b[0] && b[0] == c[0] {
        lemma_seq_lt_trans(a.drop_first(), b.drop_first(), c.drop_first());
    }
}

/// `seq_lt` is irreflexive.
pub proof fn lemma_seq_lt_irrefl(a: Seq<char>)
    ensures
        !seq_lt(a, a),
    decreases a.len(),
{
    if a.len() > 0 {
        lemma_seq_lt_irrefl(a.drop_first());
    }
}

/// `seq_lt` is total on distinct sequences and asymmetric.
pub proof fn lemma_seq_lt_total(a: Seq<char>, b: Seq<char>)
    ensures
        a != b ==> (seq_lt(a, b) || seq_lt(b, a)),
        !(seq_lt(a, b) && seq_lt(b, a)),
    decreases a.len(),
{
    if a.len() > 0 && b.len() > 0 && a[0] == b[0] {
        lemma_seq_lt_total(a.drop_first(), b.drop_first());
        assert(a =~= seq![a[0]] + a.drop_first());
        assert(b =~= seq![b[0]] + b.drop_first());
    } else if a.len() == 0 && b.len() == 0 {
        assert(a =~= b);
    } else if a.len() > 0 && b.len() > 0 {
    }
}

/// Result of a three-way comparison.
#[derive(Clone, Copy, Debug, PartialEq, Eq, Structural)]
pub enum Order {
    Less,
    Equal,
    Greater,
}

/// Three-way lexicographic comparison of character vectors.
pub fn compare_chars(a: &Vec<char>, b: &Vec<char>) -> (r: Order)
    ensures
        r == Order::Less <==> seq_lt(a@, b@),
        r == Order::Equal <==> a@ == b@,
        r == Order::Greater <==> seq_lt(b@, a@),
{
    let mut i: usize = 0;
    while i < a.len() && i < b.len() && a[i] == b[i]
        invariant
            i <= a.len(),
            i <= b.len(),
            forall|j: int| 0 <= j < i ==> a@[j] == b@[j],
        decreases a.len() - i,
    {
        i += 1;
    }
    proof {
        lemma_seq_lt_skip(a@, b@, i as int);
        lemma_seq_lt_total(a@, b@);
        lemma_seq_lt_irrefl(a@);
    }
    if i < a.len() && i < b.len() {
        assert(a@[i as int] != b@[i as int]);
        if a[i] < b[i] {
            Order::Less
        } else {
            Order::Greater
        }
    } else if i == a.len() && i == b.len() {
        assert(a@ =~= b@);
        Order::Equal
    } else if i == a.len() {
        Order::Less
    } else {
        Order::Greater
    }
}

proof fn lemma_seq_lt_skip(a: Seq<char>, b: Seq<char>, i: int)
    requires
        0 <= i <= a.len(),
        i <= b.len(),
        forall|j: int| 0 <= j < i ==> a[j] == b[j],
    ensures
        seq_lt(a, b) == seq_lt(a.subrange(i, a.len() as int), b.subrange(i, b.len() as int)),
        seq_lt(b, a) == seq_lt(b.subrange(i, b.len() as int), a.subrange(i, a.len() as int)),
    decreases i,
{
    if i > 0 {
        lemma_seq_lt_skip(a.drop_first(), b.drop_first(), i - 1);
        assert(a.drop_first().subrange(i - 1, a.len() - 1) =~= a.subrange(i, a.len() as int));
        assert(b.drop_first().subrange(i - 1, b.len() - 1) =~= b.subrange(i, b.len() as int));
    } else {
        assert(a.subrange(0, a.len() as int) =~= a);
        assert(b.subrange(0, b.len() as int) =~= b);
    }
}

} // verus!
