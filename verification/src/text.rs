//! Small text utilities: decimal formatting and parsing of unsigned
//! integers, whitespace trimming, joining, and lower-case hex encoding.

use vstd::prelude::*;

verus! {

/// The character of a decimal digit `d` (`0 <= d < 10`).
pub open spec fn digit_char(d: nat) -> char {
    ((48 + d) as u32) as char
}

/// The shortest decimal spelling of `n`, most significant digit first.
pub open spec fn decimal(n: nat) -> Seq<char>
    decreases n,
{
    if n < 10 {
        seq![digit_char(n)]
    } else {
        decimal(n / 10).push(digit_char(n % 10))
    }
}

/// Appends one character to a string (`String::push`).
#[verifier::external_body]
pub(crate) fn push_char(s: &mut String, c: char)
    ensures
        final(s)@ == old(s)@.push(c),
{
    s.push(c);
}

fn digit(d: u64) -> (c: char)
    requires
        d < 10,
    ensures
        c == digit_char(d as nat),
{
    let b: u8 = 48u8 + (d as u8);
    b as char
}

/// Appends the decimal spelling of `n` to `s`.
pub fn push_decimal(s: &mut String, n: u64)
    ensures
        final(s)@ == old(s)@ + decimal(n as nat),
    decreases n,
{
    if n >= 10 {
        push_decimal(s, n / 10);
    }
    let c = digit(n % 10);
    push_char(s, c);
    proof {
        if n >= 10 {
            assert(decimal(n as nat) == decimal((n / 10) as nat).push(digit_char((n % 10) as nat)));
        }
    }
}


/// The characters of a string slice, in order.
pub fn chars_of(s: &str) -> (v: Vec<char>)
    ensures
        v@ == s@,
{
    broadcast use vstd::string::axiom_spec_iter;
    let mut v: Vec<char> = Vec::new();
    for c in it: s.chars()
        invariant
            it.seq() == s@,
            v@ == it.seq().take(it.index() as int),
    {
        v.push(c);
    }
    assert(v@ =~= s@);
    v
}

/// A string made of the given characters.
pub fn string_of(chars: &Vec<char>) -> (s: String)
    ensures
        s@ == chars@,
{
    let mut s = String::new();
    let mut i: usize = 0;
    while i < chars.len()
        invariant
            i <= chars.len(),
            s@ == chars@.take(i as int),
        decreases chars.len() - i,
    {
        push_char(&mut s, chars[i]);
        i = i + 1;
        assert(s@ =~= chars@.take(i as int));
    }
    assert(chars@.take(i as int) =~= chars@);
    s
}

/// Why a decimal spelling of an unsigned integer was refused.
#[derive(Clone, Copy, Debug, PartialEq, Eq, Structural)]
pub enum IntErrorKind {
    /// The text is empty.
    Empty,
    /// A character is not a decimal digit (or the text is a lone sign).
    InvalidDigit,
    /// The value does not fit in the target type.
    PosOverflow,
}

/// Whether `c` is an ASCII decimal digit.
pub open spec fn is_digit(c: char) -> bool {
    '0' <= c <= '9'
}

/// The value of an ASCII decimal digit.
pub open spec fn digit_value(c: char) -> nat {
    ((c as u32) - 48) as nat
}

/// Reading the digits `d[0..i]` left to right into a value no larger than
/// `max`: the value so far, or the first reason to stop.
pub open spec fn scan_digits(d: Seq<char>, max: nat, i: nat) -> Result<nat, IntErrorKind>
    decreases i,
{
    if i == 0 {
        Ok(0)
    } else {
        match scan_digits(d, max, (i - 1) as nat) {
            Err(k) => Err(k),
            Ok(acc) => {
                let c = d[i - 1];
                if !is_digit(c) {
                    Err(IntErrorKind::InvalidDigit)
                } else if acc * 10 + digit_value(c) > max {
                    Err(IntErrorKind::PosOverflow)
                } else {
                    Ok(acc * 10 + digit_value(c))
                }
            }
        }
    }
}

/// The result of reading `s` as an unsigned integer no larger than `max`,
/// the way Rust's `FromStr` reads unsigned integers: an optional leading
/// `+`, then one or more decimal digits.
pub open spec fn parse_unsigned(s: Seq<char>, max: nat) -> Result<nat, IntErrorKind> {
    if s.len() == 0 {
        Err(IntErrorKind::Empty)
    } else if s.len() == 1 && (s[0] == '+' || s[0] == '-') {
        Err(IntErrorKind::InvalidDigit)
    } else {
        let d = if s[0] == '+' { s.drop_first() } else { s };
        scan_digits(d, max, d.len())
    }
}

fn scan_u64(d: &Vec<char>, start: usize, max: u64) -> (r: Result<u64, IntErrorKind>)
    requires
        start <= d.len(),
    ensures
        r matches Ok(v) ==> scan_digits(d@.skip(start as int), max as nat, (d.len() - start) as nat) == Ok::<nat, IntErrorKind>(v as nat),
        r matches Err(k) ==> scan_digits(d@.skip(start as int), max as nat, (d.len() - start) as nat) == Err::<nat, IntErrorKind>(k),
{
    let ghost ds = d@.skip(start as int);
    let mut acc: u64 = 0;
    let mut i: usize = start;
    while i < d.len()
        invariant
            start <= i <= d.len(),
            ds == d@.skip(start as int),
            scan_digits(ds, max as nat, (i - start) as nat) == Ok::<nat, IntErrorKind>(acc as nat),
            acc <= max,
        decreases d.len() - i,
    {
        let c = d[i];
        assert(ds[(i + 1 - start) - 1] == c);
        if !('0' <= c && c <= '9') {
            proof {
                lemma_scan_err_sticks(ds, max as nat, (i + 1 - start) as nat, (d.len() - start) as nat);
            }
            return Err(IntErrorKind::InvalidDigit);
        }
        let v: u64 = ((c as u32) - 48) as u64;
        if v > max || acc > (max - v) / 10 {
            assert(acc * 10 + v > max) by (nonlinear_arith)
                requires v > max || acc > (max - v) / 10, acc >= 0;
            proof {
                lemma_scan_err_sticks(ds, max as nat, (i + 1 - start) as nat, (d.len() - start) as nat);
            }
            return Err(IntErrorKind::PosOverflow);
        }
        assert(acc * 10 + v <= max) by (nonlinear_arith)
            requires acc <= (max - v) / 10, v <= max;
        acc = acc * 10 + v;
        i = i + 1;
    }
    Ok(acc)
}

proof fn lemma_scan_err_sticks(d: Seq<char>, max: nat, i: nat, j: nat)
    requires
        i <= j,
        scan_digits(d, max, i) is Err,
    ensures
        scan_digits(d, max, j) == scan_digits(d, max, i),
    decreases j - i,
{
    if j > i {
        lemma_scan_err_sticks(d, max, i, (j - 1) as nat);
    }
}

fn parse_unsigned_exec(s: &str, max: u64) -> (r: Result<u64, IntErrorKind>)
    ensures
        r matches Ok(v) ==> parse_unsigned(s@, max as nat) == Ok::<nat, IntErrorKind>(v as nat),
        r matches Err(k) ==> parse_unsigned(s@, max as nat) == Err::<nat, IntErrorKind>(k),
{
    let cs = chars_of(s);
    if cs.len() == 0 {
        return Err(IntErrorKind::Empty);
    }
    if cs.len() == 1 && (cs[0] == '+' || cs[0] == '-') {
        return Err(IntErrorKind::InvalidDigit);
    }
    let start: usize = if cs[0] == '+' { 1 } else { 0 };
    assert(start == 0 ==> cs@.skip(0) =~= cs@);
    scan_u64(&cs, start, max)
}

/// Reads `s` as a `u64` (Rust's `str::parse::<u64>`).
pub fn parse_u64(s: &str) -> (r: Result<u64, IntErrorKind>)
    ensures
        r matches Ok(v) ==> parse_unsigned(s@, u64::MAX as nat) == Ok::<nat, IntErrorKind>(v as nat),
        r matches Err(k) ==> parse_unsigned(s@, u64::MAX as nat) == Err::<nat, IntErrorKind>(k),
{
    parse_unsigned_exec(s, u64::MAX)
}

/// Reads `s` as a `u16` (Rust's `str::parse::<u16>`).
pub fn parse_u16(s: &str) -> (r: Result<u16, IntErrorKind>)
    ensures
        r matches Ok(v) ==> parse_unsigned(s@, u16::MAX as nat) == Ok::<nat, IntErrorKind>(v as nat),
        r matches Err(k) ==> parse_unsigned(s@, u16::MAX as nat) == Err::<nat, IntErrorKind>(k),
{
    match parse_unsigned_exec(s, 0xffff) {
        Ok(v) => Ok(v as u16),
        Err(k) => Err(k),
    }
}

/// Reads `s` as a `u8` (Rust's `str::parse::<u8>`).
pub fn parse_u8(s: &str) -> (r: Result<u8, IntErrorKind>)
    ensures
        r matches Ok(v) ==> parse_unsigned(s@, u8::MAX as nat) == Ok::<nat, IntErrorKind>(v as nat),
        r matches Err(k) ==> parse_unsigned(s@, u8::MAX as nat) == Err::<nat, IntErrorKind>(k),
{
    match parse_unsigned_exec(s, 0xff) {
        Ok(v) => Ok(v as u8),
        Err(k) => Err(k),
    }
}

/// Whether `c` has the Unicode `White_Space` property (`char::is_whitespace`).
pub open spec fn is_white(c: char) -> bool {
    let u = c as u32;
    ||| 9 <= u <= 13
    ||| u == 32
    ||| u == 0x85
    ||| u == 0xa0
    ||| u == 0x1680
    ||| 0x2000 <= u <= 0x200a
    ||| u == 0x2028
    ||| u == 0x2029
    ||| u == 0x202f
    ||| u == 0x205f
    ||| u == 0x3000
}

fn is_white_exec(c: char) -> (b: bool)
    ensures
        b == is_white(c),
{
    let u = c as u32;
    (9 <= u && u <= 13) || u == 32 || u == 0x85 || u == 0xa0 || u == 0x1680 || (0x2000 <= u && u
        <= 0x200a) || u == 0x2028 || u == 0x2029 || u == 0x202f || u == 0x205f || u == 0x3000
}

/// `s` without its leading white space.
pub open spec fn trim_start(s: Seq<char>) -> Seq<char>
    decreases s.len(),
{
    if s.len() > 0 && is_white(s[0]) {
        trim_start(s.drop_first())
    } else {
        s
    }
}

/// `s` without its trailing white space.
pub open spec fn trim_end(s: Seq<char>) -> Seq<char>
    decreases s.len(),
{
    if s.len() > 0 && is_white(s.last()) {
        trim_end(s.drop_last())
    } else {
        s
    }
}

/// `s` without leading and trailing white space (`str::trim`).
pub open spec fn trim(s: Seq<char>) -> Seq<char> {
    trim_end(trim_start(s))
}

proof fn lemma_trim_start_skip(s: Seq<char>, i: int)
    requires
        0 <= i <= s.len(),
        forall|j: int| 0 <= j < i ==> is_white(#[trigger] s[j]),
    ensures
        trim_start(s) == trim_start(s.skip(i)),
    decreases i,
{
    if i > 0 {
        assert(s.drop_first().skip(i - 1) =~= s.skip(i));
        lemma_trim_start_skip(s.drop_first(), i - 1);
    } else {
        assert(s.skip(0) =~= s);
    }
}

proof fn lemma_trim_end_take(s: Seq<char>, i: int)
    requires
        0 <= i <= s.len(),
        forall|j: int| i <= j < s.len() ==> is_white(#[trigger] s[j]),
    ensures
        trim_end(s) == trim_end(s.take(i)),
    decreases s.len() - i,
{
    if i < s.len() {
        assert(s.drop_last().take(i) =~= s.take(i));
        lemma_trim_end_take(s.drop_last(), i);
    } else {
        assert(s.take(i) =~= s);
    }
}

/// `s` with leading and trailing white space removed (`str::trim`).
pub fn trim_string(s: &str) -> (r: String)
    ensures
        r@ == trim(s@),
{
    let cs = chars_of(s);
    let mut lo: usize = 0;
    while lo < cs.len() && is_white_exec(cs[lo])
        invariant
            lo <= cs.len(),
            forall|j: int| 0 <= j < lo ==> is_white(#[trigger] cs@[j]),
        decreases cs.len() - lo,
    {
        lo = lo + 1;
    }
    let mut hi: usize = cs.len();
    while hi > lo && is_white_exec(cs[hi - 1])
        invariant
            lo <= hi <= cs.len(),
            forall|j: int| hi <= j < cs.len() ==> is_white(#[trigger] cs@[j]),
        decreases hi,
    {
        hi = hi - 1;
    }
    let ghost t = cs@.skip(lo as int);
    proof {
        lemma_trim_start_skip(cs@, lo as int);
        if lo < cs.len() {
            assert(!is_white(t[0]));
        }
        assert(trim_start(t) == t);
        assert forall|j: int| hi - lo <= j < t.len() implies is_white(#[trigger] t[j]) by {
            assert(t[j] == cs@[j + lo]);
        }
        lemma_trim_end_take(t, hi - lo);
        if hi > lo {
            assert(t.take(hi - lo).last() == cs@[hi - 1]);
        }
        assert(trim_end(t.take(hi - lo)) == t.take(hi - lo));
    }
    let mut out = String::new();
    let mut k: usize = lo;
    while k < hi
        invariant
            lo <= k <= hi,
            hi <= cs.len(),
            out@ == cs@.subrange(lo as int, k as int),
        decreases hi - k,
    {
        push_char(&mut out, cs[k]);
        k = k + 1;
        assert(out@ =~= cs@.subrange(lo as int, k as int));
    }
    assert(t.take(hi - lo) =~= cs@.subrange(lo as int, hi as int));
    out
}

/// The pieces `parts` with `sep` between consecutive ones (`[..].join(sep)`).
pub open spec fn join(parts: Seq<Seq<char>>, sep: Seq<char>) -> Seq<char>
    decreases parts.len(),
{
    if parts.len() == 0 {
        Seq::empty()
    } else if parts.len() == 1 {
        parts[0]
    } else {
        join(parts.drop_last(), sep) + sep + parts.last()
    }
}

/// The views of a list of strings.
pub open spec fn views(v: Seq<String>) -> Seq<Seq<char>> {
    v.map_values(|s: String| s@)
}

/// Appends `t` to `s` (`String::push_str`).
pub fn push_str(s: &mut String, t: &str)
    ensures
        final(s)@ == old(s)@ + t@,
{
    let cs = chars_of(t);
    let mut i: usize = 0;
    while i < cs.len()
        invariant
            i <= cs.len(),
            s@ == old(s)@ + cs@.take(i as int),
        decreases cs.len() - i,
    {
        push_char(s, cs[i]);
        i = i + 1;
        assert(s@ =~= old(s)@ + cs@.take(i as int));
    }
    assert(cs@.take(i as int) =~= cs@);
}

/// The strings of `parts[from..]` joined with `sep`.
pub fn join_from(parts: &Vec<String>, from: usize, sep: &str) -> (r: String)
    requires
        from <= parts.len(),
    ensures
        r@ == join(views(parts@.skip(from as int)), sep@),
{
    let mut out = String::new();
    let mut i: usize = from;
    assert(views(parts@.skip(from as int)).take(0) =~= Seq::<Seq<char>>::empty());
    while i < parts.len()
        invariant
            from <= i <= parts.len(),
            out@ == join(views(parts@.skip(from as int)).take((i - from) as int), sep@),
        decreases parts.len() - i,
    {
        let ghost ps = views(parts@.skip(from as int));
        let ghost n = (i - from) as int;
        if i > from {
            push_str(&mut out, sep);
        }
        push_str(&mut out, parts[i].as_str());
        i = i + 1;
        proof {
            assert(ps.take(n + 1).drop_last() =~= ps.take(n));
            assert(ps[n] == parts@[n + from]@);
            if n == 0 {
                assert(join(ps.take(1), sep@) == ps.take(1)[0]);
            }
        }
    }
    assert(views(parts@.skip(from as int)).take((i - from) as int) =~= views(parts@.skip(from as int)));
    out
}

/// The lower-case hex character of a nibble `d` (`0 <= d < 16`).
pub open spec fn hex_char(d: nat) -> char {
    if d < 10 {
        digit_char(d)
    } else {
        ((87 + d) as u32) as char
    }
}

/// Two lower-case hex characters per byte, high nibble first.
pub open spec fn hex_lower(bytes: Seq<u8>) -> Seq<char>
    decreases bytes.len(),
{
    if bytes.len() == 0 {
        Seq::empty()
    } else {
        hex_lower(bytes.drop_last()).push(hex_char((bytes.last() / 16) as nat)).push(
            hex_char((bytes.last() % 16) as nat),
        )
    }
}

fn hex_digit(d: u8) -> (c: char)
    requires
        d < 16,
    ensures
        c == hex_char(d as nat),
{
    if d < 10 {
        (48u8 + d) as char
    } else {
        (87u8 + d) as char
    }
}

/// The lower-case hex spelling of `bytes` (`format!("{:x}", ..)` of a byte array).
pub fn hex_string(bytes: &Vec<u8>) -> (s: String)
    ensures
        s@ == hex_lower(bytes@),
{
    let mut s = String::new();
    let mut i: usize = 0;
    while i < bytes.len()
        invariant
            i <= bytes.len(),
            s@ == hex_lower(bytes@.take(i as int)),
        decreases bytes.len() - i,
    {
        let b = bytes[i];
        push_char(&mut s, hex_digit(b / 16));
        push_char(&mut s, hex_digit(b % 16));
        i = i + 1;
        assert(bytes@.take(i as int).drop_last() =~= bytes@.take(i - 1));
    }
    assert(bytes@.take(i as int) =~= bytes@);
    s
}

/// Whether two strings hold the same characters.
pub fn text_eq(a: &str, b: &str) -> (r: bool)
    ensures
        r == (a@ == b@),
{
    let ca = chars_of(a);
    let cb = chars_of(b);
    if ca.len() != cb.len() {
        return false;
    }
    let mut i: usize = 0;
    while i < ca.len()
        invariant
            i <= ca.len(),
            ca.len() == cb.len(),
            ca@ == a@,
            cb@ == b@,
            forall|j: int| 0 <= j < i ==> ca@[j] == cb@[j],
        decreases ca.len() - i,
    {
        let x = ca[i];
        let y = cb[i];
        if x != y {
            assert(ca@[i as int] != cb@[i as int]);
            return false;
        }
        i = i + 1;
    }
    assert(ca@ =~= cb@);
    true
}

proof fn lemma_digit_char(d: nat)
    requires
        d < 10,
    ensures
        is_digit(digit_char(d)),
        digit_value(digit_char(d)) == d,
        digit_char(d) != '+',
        digit_char(d) != '-',
{
    assert(((48 + d) as u32) as char == digit_char(d));
    assert((digit_char(d) as u32) == 48 + d);
}

proof fn lemma_scan_prefix(d: Seq<char>, c: char, max: nat, i: nat)
    requires
        i <= d.len(),
    ensures
        scan_digits(d.push(c), max, i) == scan_digits(d, max, i),
    decreases i,
{
    if i > 0 {
        lemma_scan_prefix(d, c, max, (i - 1) as nat);
        assert(d.push(c)[i - 1] == d[i - 1]);
    }
}

proof fn lemma_decimal_scans(n: nat, max: nat)
    requires
        n <= max,
    ensures
        decimal(n).len() >= 1,
        is_digit(decimal(n)[0]),
        scan_digits(decimal(n), max, decimal(n).len()) == Ok::<nat, IntErrorKind>(n),
    decreases n,
{
    if n < 10 {
        lemma_digit_char(n);
        assert(scan_digits(decimal(n), max, 0) == Ok::<nat, IntErrorKind>(0));
    } else {
        let q = n / 10;
        let r = n % 10;
        lemma_decimal_scans(q, max);
        lemma_digit_char(r);
        let d = decimal(q);
        assert(decimal(n) == d.push(digit_char(r)));
        lemma_scan_prefix(d, digit_char(r), max, d.len());
        assert(q * 10 + r == n);
        assert(decimal(n)[0] == d[0]);
    }
}

/// Reading the decimal spelling of a number gives the number back, under
/// any bound that the number respects.
pub proof fn lemma_decimal_parses_back(n: nat, max: nat)
    requires
        n <= max,
    ensures
        parse_unsigned(decimal(n), max) == Ok::<nat, IntErrorKind>(n),
{
    lemma_decimal_scans(n, max);
    let s = decimal(n);
    assert(s[0] != '+' && s[0] != '-');
}

} // verus!
