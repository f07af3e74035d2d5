//! Text primitives: comparing, trimming, splitting, number parsing and number formatting.
//!
//! A string is modelled by its sequence of characters.

use vstd::prelude::*;

verus! {

/// `String::push` appends one character at the end of the string.
pub assume_specification[ String::push ](s: &mut String, c: char)
    ensures
        final(s)@ == old(s)@.push(c),
;

/// The characters of `s`, in order.
pub fn chars_of(s: &str) -> (r: Vec<char>)
    ensures
        r@ == s@,
{
    let mut r: Vec<char> = Vec::new();
    for c in it: s.chars()
        invariant
            it.seq() == s@,
            r@ == s@.take(it.index() as int),
    {
        r.push(c);
        assert(s@.take(it.index() as int + 1) =~= s@.take(it.index() as int).push(c));
    }
    assert(s@.take(s@.len() as int) =~= s@);
    r
}

/// The string made of the characters `cs[from..to]`.
pub fn string_of(cs: &Vec<char>, from: usize, to: usize) -> (r: String)
    requires
        from <= to <= cs.len(),
    ensures
        r@ == cs@.subrange(from as int, to as int),
{
    let mut r = String::new();
    let mut i: usize = from;
    while i < to
        invariant
            from <= i <= to <= cs.len(),
            r@ == cs@.subrange(from as int, i as int),
        decreases to - i,
    {
        r.push(cs[i]);
        assert(cs@.subrange(from as int, i as int + 1) =~= cs@.subrange(from as int, i as int).push(
            cs@[i as int],
        ));
        i = i + 1;
    }
    r
}

/// Whether two strings hold the same characters.
pub fn same(a: &str, b: &str) -> (r: bool)
    ensures
        r == (a@ == b@),
{
    let x = chars_of(a);
    let y = chars_of(b);
    if x.len() != y.len() {
        return false;
    }
    let mut i: usize = 0;
    while i < x.len()
        invariant
            i <= x.len(),
            x.len() == y.len(),
            x@ == a@,
            y@ == b@,
            x@.take(i as int) == y@.take(i as int),
        decreases x.len() - i,
    {
        if x[i] != y[i] {
            return false;
        }
        assert(x@.take(i as int + 1) =~= x@.take(i as int).push(x@[i as int]));
        assert(y@.take(i as int + 1) =~= y@.take(i as int).push(y@[i as int]));
        i = i + 1;
    }
    assert(x@.take(x@.len() as int) =~= x@);
    assert(y@.take(y@.len() as int) =~= y@);
    true
}

/// The characters of an optional string.
pub open spec fn opt(s: Option<String>) -> Option<Seq<char>> {
    match s {
        Some(x) => Some(x@),
        None => None,
    }
}

/// `a` followed by `b`.
pub fn cat(a: &str, b: &str) -> (r: String)
    ensures
        r@ == a@ + b@,
{
    let mut r = a.to_owned();
    r.append(b);
    r
}

/// `a`, `b` and `c` in a row.
pub fn cat3(a: &str, b: &str, c: &str) -> (r: String)
    ensures
        r@ == a@ + b@ + c@,
{
    let mut r = a.to_owned();
    r.append(b);
    r.append(c);
    r
}

/// A text in double quotes, with escapes for what cannot be shown plainly.
pub uninterp spec fn quoted(s: Seq<char>) -> Seq<char>;

/// The `Debug` form of a `str`, which std's `format` writes for `{:?}`: the text in double
/// quotes, quotes and unprintable characters escaped. Which characters are escaped is a table of
/// std's: the result is named, not spelled out.
#[verifier::external_body]
pub(crate) fn quote(s: &str) -> (r: String)
    ensures
        r@ == quoted(s@),
{
    format!("{:?}", s)
}

// ---------------------------------------------------------------- numbers

/// The character of the digit `d` in bases up to sixteen, lower case.
pub open spec fn digit_char(d: nat) -> char {
    if d < 10 {
        (('0' as nat) + d) as char
    } else {
        (('a' as nat) + (d - 10)) as char
    }
}

/// The decimal text of `n`, without leading zeros.
pub open spec fn decimal(n: nat) -> Seq<char>
    decreases n,
{
    if n < 10 {
        seq![digit_char(n)]
    } else {
        decimal(n / 10).push(digit_char(n % 10))
    }
}

/// The last `width` hexadecimal digits of `n`, lower case, with leading zeros.
pub open spec fn hex_fixed(n: nat, width: nat) -> Seq<char>
    decreases width,
{
    if width == 0 {
        Seq::empty()
    } else {
        hex_fixed(n / 16, (width - 1) as nat).push(digit_char(n % 16))
    }
}

/// The hexadecimal text of `n`, lower case, without leading zeros.
pub open spec fn hex(n: nat) -> Seq<char>
    decreases n,
{
    if n < 16 {
        seq![digit_char(n)]
    } else {
        hex(n / 16).push(digit_char(n % 16))
    }
}

fn digit_to_char(d: u8) -> (c: char)
    requires
        d < 16,
    ensures
        c == digit_char(d as nat),
{
    if d < 10 {
        (48u8 + d) as char
    } else {
        (87u8 + d) as char
    }
}

/// Appends the decimal text of `n`.
pub fn push_decimal(s: &mut String, n: u64)
    ensures
        final(s)@ == old(s)@ + decimal(n as nat),
    decreases n,
{
    if n >= 10 {
        push_decimal(s, n / 10);
    }
    s.push(digit_to_char((n % 10) as u8));
}

/// The decimal text of `n`.
pub fn decimal_text(n: u64) -> (r: String)
    ensures
        r@ == decimal(n as nat),
{
    let mut r = String::new();
    push_decimal(&mut r, n);
    r
}

/// The decimal text of `n`, with a minus sign where it is negative.
pub open spec fn signed_decimal(n: int) -> Seq<char> {
    if n < 0 {
        seq!['-'] + decimal((-n) as nat)
    } else {
        decimal(n as nat)
    }
}

/// Appends the decimal text of `n`.
pub fn push_signed(s: &mut String, n: i32)
    ensures
        final(s)@ == old(s)@ + signed_decimal(n as int),
{
    let ghost before = s@;
    if n < 0 {
        s.push('-');
        push_decimal(s, (-(n as i64)) as u64);
    } else {
        push_decimal(s, n as u64);
    }
    assert(s@ =~= before + signed_decimal(n as int));
}

/// Appends the last `width` hexadecimal digits of `n`.
pub fn push_hex(s: &mut String, n: u64, width: u8)
    ensures
        final(s)@ == old(s)@ + hex_fixed(n as nat, width as nat),
    decreases width,
{
    if width > 0 {
        push_hex(s, n / 16, width - 1);
        s.push(digit_to_char((n % 16) as u8));
    }
}

/// Appends the hexadecimal text of `n`.
pub fn push_hex_short(s: &mut String, n: u64)
    ensures
        final(s)@ == old(s)@ + hex(n as nat),
    decreases n,
{
    if n >= 16 {
        push_hex_short(s, n / 16);
    }
    s.push(digit_to_char((n % 16) as u8));
}

/// Why a text is no unsigned number.
#[derive(Clone, Copy, Debug, PartialEq, Eq, Structural)]
pub enum ParseIntError {
    Empty,
    InvalidDigit,
    PosOverflow,
}

impl ParseIntError {
    /// The wording of the error.
    pub open spec fn text(self) -> Seq<char> {
        match self {
            ParseIntError::Empty => "cannot parse integer from empty string"@,
            ParseIntError::InvalidDigit => "invalid digit found in string"@,
            ParseIntError::PosOverflow => "number too large to fit in target type"@,
        }
    }

    pub fn message(&self) -> (r: String)
        ensures
            r@ == self.text(),
    {
        match self {
            ParseIntError::Empty => "cannot parse integer from empty string".to_owned(),
            ParseIntError::InvalidDigit => "invalid digit found in string".to_owned(),
            ParseIntError::PosOverflow => "number too large to fit in target type".to_owned(),
        }
    }
}

/// The value of `c` as a digit in the given base; letters of either case count from ten.
pub open spec fn digit_value(c: char, radix: nat) -> Option<nat> {
    let v = if '0' <= c <= '9' {
        Some((c as nat - '0' as nat) as nat)
    } else if 'a' <= c <= 'z' {
        Some((c as nat - 'a' as nat + 10) as nat)
    } else if 'A' <= c <= 'Z' {
        Some((c as nat - 'A' as nat + 10) as nat)
    } else {
        None
    };
    match v {
        Some(d) if d < radix => Some(d),
        _ => None,
    }
}

/// Reads `s` as digits from the left; the first bad character, or the first digit that takes
/// the value past `max`, decides the error.
pub open spec fn scan_digits(s: Seq<char>, radix: nat, max: nat) -> Result<nat, ParseIntError>
    decreases s.len(),
{
    if s.len() == 0 {
        Ok(0)
    } else {
        match scan_digits(s.drop_last(), radix, max) {
            Err(e) => Err(e),
            Ok(v) => match digit_value(s.last(), radix) {
                None => Err(ParseIntError::InvalidDigit),
                Some(d) => if v * radix + d > max {
                    Err(ParseIntError::PosOverflow)
                } else {
                    Ok(v * radix + d)
                },
            },
        }
    }
}

/// Reads an unsigned number: an optional `+`, then at least one digit.
pub open spec fn parse_uint(s: Seq<char>, radix: nat, max: nat) -> Result<nat, ParseIntError> {
    if s.len() == 0 {
        Err(ParseIntError::Empty)
    } else {
        let body = if s[0] == '+' {
            s.drop_first()
        } else {
            s
        };
        if body.len() == 0 {
            Err(ParseIntError::InvalidDigit)
        } else {
            scan_digits(body, radix, max)
        }
    }
}

fn char_digit(c: char, radix: u64) -> (r: Option<u64>)
    ensures
        match digit_value(c, radix as nat) {
            Some(d) => r == Some(d as u64) && d < 36,
            None => r is None,
        },
{
    let d: u64 = if '0' <= c && c <= '9' {
        (c as u32 - 48) as u64
    } else if 'a' <= c && c <= 'z' {
        (c as u32 - 97 + 10) as u64
    } else if 'A' <= c && c <= 'Z' {
        (c as u32 - 65 + 10) as u64
    } else {
        return None;
    };
    if d < radix {
        Some(d)
    } else {
        None
    }
}

proof fn scan_prefix_error(s: Seq<char>, radix: nat, max: nat, n: int)
    requires
        0 <= n <= s.len(),
        scan_digits(s.take(n), radix, max) is Err,
    ensures
        scan_digits(s, radix, max) == scan_digits(s.take(n), radix, max),
    decreases s.len() - n,
{
    if n < s.len() {
        assert(s.take(n + 1).drop_last() =~= s.take(n));
        scan_prefix_error(s, radix, max, n + 1);
    } else {
        assert(s.take(n) =~= s);
    }
}

/// Reads an unsigned number no larger than `max`.
pub fn parse_chars(cs: &Vec<char>, radix: u64, max: u64) -> (r: Result<u64, ParseIntError>)
    requires
        2 <= radix <= 36,
    ensures
        match parse_uint(cs@, radix as nat, max as nat) {
            Ok(v) => r is Ok && r->Ok_0 == v,
            Err(e) => r == Err::<u64, ParseIntError>(e),
        },
{
    if cs.len() == 0 {
        return Err(ParseIntError::Empty);
    }
    let start: usize = if cs[0] == '+' {
        1
    } else {
        0
    };
    if start == cs.len() {
        return Err(ParseIntError::InvalidDigit);
    }
    let ghost body = cs@.subrange(start as int, cs@.len() as int);
    assert(start == 1 ==> body =~= cs@.drop_first());
    assert(start == 0 ==> body =~= cs@);
    let mut v: u64 = 0;
    let mut i: usize = start;
    assert(body.take(0) =~= Seq::<char>::empty());
    while i < cs.len()
        invariant
            start <= i <= cs.len(),
            2 <= radix <= 36,
            body == cs@.subrange(start as int, cs@.len() as int),
            parse_uint(cs@, radix as nat, max as nat) == scan_digits(
                body,
                radix as nat,
                max as nat,
            ),
            scan_digits(body.take(i - start), radix as nat, max as nat) == Ok::<
                nat,
                ParseIntError,
            >(v as nat),
        decreases cs.len() - i,
    {
        let ghost n = i - start;
        assert(body.take(n + 1).drop_last() =~= body.take(n));
        assert(body.take(n + 1).last() == cs@[i as int]);
        match char_digit(cs[i], radix) {
            None => {
                proof {
                    scan_prefix_error(body, radix as nat, max as nat, n + 1);
                }
                return Err(ParseIntError::InvalidDigit);
            },
            Some(d) => {
                assert(v * radix + d <= u64::MAX * 36 + 36) by (nonlinear_arith)
                    requires
                        v <= u64::MAX,
                        radix <= 36,
                        d <= 36,
                ;
                assert(v as u128 * radix as u128 <= u64::MAX * 36) by (nonlinear_arith)
                    requires
                        v <= u64::MAX,
                        radix <= 36,
                ;
                let w: u128 = v as u128 * radix as u128 + d as u128;
                if w > max as u128 {
                    proof {
                        scan_prefix_error(body, radix as nat, max as nat, n + 1);
                    }
                    return Err(ParseIntError::PosOverflow);
                }
                v = w as u64;
            },
        }
        i = i + 1;
    }
    assert(body.take(body.len() as int) =~= body);
    Ok(v)
}

/// A number that was read stays within its bound.
pub proof fn scan_within(s: Seq<char>, radix: nat, max: nat)
    ensures
        scan_digits(s, radix, max) matches Ok(v) ==> v <= max,
    decreases s.len(),
{
    if s.len() > 0 {
        scan_within(s.drop_last(), radix, max);
    }
}

/// A number that was read stays within its bound.
pub proof fn parsed_within(s: Seq<char>, radix: nat, max: nat)
    ensures
        parse_uint(s, radix, max) matches Ok(v) ==> v <= max,
{
    if s.len() > 0 {
        scan_within(s, radix, max);
        scan_within(s.drop_first(), radix, max);
    }
}

/// Reads a decimal number that fits in a `u64`.
pub fn parse_u64(s: &str) -> (r: Result<u64, ParseIntError>)
    ensures
        match parse_uint(s@, 10, u64::MAX as nat) {
            Ok(v) => r is Ok && r->Ok_0 == v,
            Err(e) => r == Err::<u64, ParseIntError>(e),
        },
{
    parse_chars(&chars_of(s), 10, u64::MAX)
}

proof fn decimal_scan(n: nat, max: nat)
    requires
        n <= max,
    ensures
        decimal(n).len() > 0,
        decimal(n)[0] != '+',
        scan_digits(decimal(n), 10, max) == Ok::<nat, ParseIntError>(n),
    decreases n,
{
    reveal_with_fuel(scan_digits, 2);
    if n < 10 {
        assert(decimal(n).drop_last() =~= Seq::<char>::empty());
    } else {
        decimal_scan(n / 10, max);
        assert(decimal(n).drop_last() =~= decimal(n / 10));
    }
}

/// Reading back the decimal text of a number gives the number.
pub proof fn decimal_round_trip(n: nat, max: nat)
    requires
        n <= max,
    ensures
        parse_uint(decimal(n), 10, max) == Ok::<nat, ParseIntError>(n),
{
    decimal_scan(n, max);
}

/// Two numbers with the same decimal text are the same number.
pub proof fn decimal_injective(a: nat, b: nat)
    requires
        decimal(a) == decimal(b),
    ensures
        a == b,
{
    let max = if a < b {
        b
    } else {
        a
    };
    decimal_scan(a, max);
    decimal_scan(b, max);
}

/// Sixteen to the power `k`.
pub open spec fn pow16(k: nat) -> nat
    decreases k,
{
    if k == 0 {
        1
    } else {
        16 * pow16((k - 1) as nat)
    }
}

/// Fixed-width hexadecimal text has the given width and reads back as the number it was made
/// from.
pub proof fn hex_round_trip(n: nat, width: nat, max: nat)
    requires
        n < pow16(width),
        n <= max,
    ensures
        hex_fixed(n, width).len() == width,
        scan_digits(hex_fixed(n, width), 16, max) == Ok::<nat, ParseIntError>(n),
        forall|i: int|
            0 <= i < width ==> '0' <= #[trigger] hex_fixed(n, width)[i] <= '9' || 'a' <= hex_fixed(
                n,
                width,
            )[i] <= 'f',
    decreases width,
{
    if width > 0 {
        hex_round_trip(n / 16, (width - 1) as nat, max);
        assert(hex_fixed(n, width).drop_last() =~= hex_fixed(n / 16, (width - 1) as nat));
    }
}

// ---------------------------------------------------------------- trimming and splitting

/// The Unicode white space characters.
pub open spec fn is_white(c: char) -> bool {
    let v = c as u32;
    ||| 0x9 <= v <= 0xd
    ||| v == 0x20
    ||| v == 0x85
    ||| v == 0xa0
    ||| v == 0x1680
    ||| 0x2000 <= v <= 0x200a
    ||| v == 0x2028
    ||| v == 0x2029
    ||| v == 0x202f
    ||| v == 0x205f
    ||| v == 0x3000
}

fn white(c: char) -> (r: bool)
    ensures
        r == is_white(c),
{
    let v: u32 = c as u32;
    (0x9 <= v && v <= 0xd) || v == 0x20 || v == 0x85 || v == 0xa0 || v == 0x1680 || (0x2000 <= v
        && v <= 0x200a) || v == 0x2028 || v == 0x2029 || v == 0x202f || v == 0x205f || v == 0x3000
}

/// `s` without its leading white space.
pub open spec fn trim_left(s: Seq<char>) -> Seq<char>
    decreases s.len(),
{
    if s.len() > 0 && is_white(s[0]) {
        trim_left(s.drop_first())
    } else {
        s
    }
}

/// `s` without its trailing white space.
pub open spec fn trim_right(s: Seq<char>) -> Seq<char>
    decreases s.len(),
{
    if s.len() > 0 && is_white(s.last()) {
        trim_right(s.drop_last())
    } else {
        s
    }
}

/// `s` without white space at either end.
pub open spec fn trimmed(s: Seq<char>) -> Seq<char> {
    trim_right(trim_left(s))
}

/// `s` without white space at either end.
pub fn trim(s: &str) -> (r: &str)
    ensures
        r@ == trimmed(s@),
{
    let cs = chars_of(s);
    let n: usize = cs.len();
    let mut from: usize = 0;
    assert(cs@.subrange(0, n as int) =~= cs@);
    while from < n && white(cs[from])
        invariant
            from <= n == cs.len(),
            trim_left(cs@) == trim_left(cs@.subrange(from as int, n as int)),
        decreases n - from,
    {
        assert(cs@.subrange(from as int, n as int).drop_first() =~= cs@.subrange(
            from as int + 1,
            n as int,
        ));
        from = from + 1;
    }
    let mut to: usize = n;
    while to > from && white(cs[to - 1])
        invariant
            from <= to <= n == cs.len(),
            trimmed(cs@) == trim_right(cs@.subrange(from as int, to as int)),
        decreases to,
    {
        assert(cs@.subrange(from as int, to as int).drop_last() =~= cs@.subrange(
            from as int,
            to as int - 1,
        ));
        to = to - 1;
    }
    s.substring_char(from, to)
}

/// Trimming a trimmed text changes nothing.
pub proof fn trimmed_idempotent(s: Seq<char>)
    ensures
        trimmed(trimmed(s)) == trimmed(s),
{
    let t = trim_left(s);
    trim_left_head(s);
    trim_right_keeps_head(t);
    let u = trim_right(t);
    assert(trim_left(u) == u);
    trim_right_tail(t);
}

proof fn trim_left_head(s: Seq<char>)
    ensures
        trim_left(s).len() > 0 ==> !is_white(trim_left(s)[0]),
    decreases s.len(),
{
    if s.len() > 0 && is_white(s[0]) {
        trim_left_head(s.drop_first());
    }
}

proof fn trim_right_keeps_head(s: Seq<char>)
    ensures
        trim_right(s).len() > 0 ==> s.len() > 0 && trim_right(s)[0] == s[0],
    decreases s.len(),
{
    if s.len() > 0 && is_white(s.last()) {
        trim_right_keeps_head(s.drop_last());
    }
}

proof fn trim_right_tail(s: Seq<char>)
    ensures
        trim_right(trim_right(s)) == trim_right(s),
    decreases s.len(),
{
    if s.len() > 0 && is_white(s.last()) {
        trim_right_tail(s.drop_last());
    }
}

/// The position of the first `c` in `s`, or the length of `s` where there is none.
pub open spec fn find(s: Seq<char>, c: char) -> nat
    decreases s.len(),
{
    if s.len() == 0 || s[0] == c {
        0
    } else {
        1 + find(s.drop_first(), c)
    }
}

/// `find` gives the first position that holds the character.
pub proof fn find_first(s: Seq<char>, c: char)
    ensures
        find(s, c) <= s.len(),
        find(s, c) < s.len() ==> s[find(s, c) as int] == c,
        forall|i: int| 0 <= i < find(s, c) ==> s[i] != c,
    decreases s.len(),
{
    if s.len() > 0 && s[0] != c {
        find_first(s.drop_first(), c);
        assert forall|i: int| 0 <= i < find(s, c) implies s[i] != c by {
            if i > 0 {
                assert(s.drop_first()[i - 1] == s[i]);
            }
        }
    }
}

proof fn find_unique(s: Seq<char>, c: char, k: int)
    requires
        0 <= k <= s.len(),
        k < s.len() ==> s[k] == c,
        forall|i: int| 0 <= i < k ==> s[i] != c,
    ensures
        find(s, c) == k,
{
    find_first(s, c);
}

/// The position of the first `c` in `cs[from..]`, counted from the start of `cs`.
pub fn find_char(cs: &Vec<char>, from: usize, c: char) -> (r: usize)
    requires
        from <= cs.len(),
    ensures
        from <= r <= cs.len(),
        r == from + find(cs@.skip(from as int), c),
{
    let mut i: usize = from;
    while i < cs.len() && cs[i] != c
        invariant
            from <= i <= cs.len(),
            forall|j: int| 0 <= j < i - from ==> cs@.skip(from as int)[j] != c,
        decreases cs.len() - i,
    {
        i = i + 1;
    }
    proof {
        find_unique(cs@.skip(from as int), c, i - from);
    }
    i
}

/// The pieces of `s` between the occurrences of `c`.
pub open spec fn split(s: Seq<char>, c: char) -> Seq<Seq<char>>
    decreases s.len(),
{
    let k = find(s, c) as int;
    if k >= s.len() {
        seq![s]
    } else {
        seq![s.take(k)] + split(s.skip(k + 1), c)
    }
}

/// The pieces of `s` between the occurrences of `c`.
pub fn split_on(s: &str, c: char) -> (r: Vec<String>)
    ensures
        r@.map_values(|x: String| x@) == split(s@, c),
{
    let cs = chars_of(s);
    let mut r: Vec<String> = Vec::new();
    let mut from: usize = 0;
    assert(cs@.skip(0) =~= cs@);
    assert(r@.map_values(|x: String| x@) + split(cs@, c) =~= split(cs@, c));
    loop
        invariant
            from <= cs.len(),
            cs@ == s@,
            r@.map_values(|x: String| x@) + split(cs@.skip(from as int), c) == split(s@, c),
        decreases cs.len() - from,
    {
        let k: usize = find_char(&cs, from, c);
        let ghost rest = cs@.skip(from as int);
        let ghost before = r@.map_values(|x: String| x@);
        r.push(string_of(&cs, from, k));
        proof {
            find_first(rest, c);
            assert(cs@.subrange(from as int, k as int) =~= rest.take(k - from));
            assert(r@.map_values(|x: String| x@) =~= before.push(rest.take(k - from)));
        }
        if k == cs.len() {
            assert(rest.take(k - from) =~= rest);
            assert(before + seq![rest] =~= before.push(rest));
            return r;
        }
        assert(rest.skip(k - from + 1) =~= cs@.skip(k as int + 1));
        assert(before + (seq![rest.take(k - from)] + split(cs@.skip(k as int + 1), c))
            =~= before.push(rest.take(k - from)) + split(cs@.skip(k as int + 1), c));
        from = k + 1;
    }
}

/// Whether `s` begins with `prefix`.
pub open spec fn starts(s: Seq<char>, prefix: Seq<char>) -> bool {
    s.len() >= prefix.len() && s.take(prefix.len() as int) == prefix
}

/// Whether `s` ends with `suffix`.
pub open spec fn ends(s: Seq<char>, suffix: Seq<char>) -> bool {
    s.len() >= suffix.len() && s.skip(s.len() - suffix.len()) == suffix
}

/// Whether `s` begins with `prefix`.
pub fn starts_with(s: &str, prefix: &str) -> (r: bool)
    ensures
        r == starts(s@, prefix@),
{
    let n: usize = prefix.unicode_len();
    if s.unicode_len() < n {
        return false;
    }
    assert(s@.subrange(0, n as int) =~= s@.take(n as int));
    same(s.substring_char(0, n), prefix)
}

/// What stands before `suffix` at the end of `s`, or nothing where `s` does not end so.
pub fn strip_suffix<'a>(s: &'a str, suffix: &str) -> (r: Option<&'a str>)
    ensures
        match r {
            Some(x) => ends(s@, suffix@) && x@ == s@.take(s@.len() - suffix@.len()),
            None => !ends(s@, suffix@),
        },
{
    let n: usize = s.unicode_len();
    let m: usize = suffix.unicode_len();
    if n < m {
        return None;
    }
    assert(s@.subrange(n - m, n as int) =~= s@.skip(n - m));
    if same(s.substring_char(n - m, n), suffix) {
        assert(s@.subrange(0, n - m) =~= s@.take(n - m));
        Some(s.substring_char(0, n - m))
    } else {
        None
    }
}

// ---------------------------------------------------------------- layout

/// `n` spaces.
pub open spec fn spaces(n: nat) -> Seq<char> {
    Seq::new(n, |i: int| ' ')
}

/// `s` with spaces after it up to the given width.
pub open spec fn padded_right(s: Seq<char>, width: nat) -> Seq<char> {
    if s.len() >= width {
        s
    } else {
        s + spaces((width - s.len()) as nat)
    }
}

/// `s` with spaces before it up to the given width.
pub open spec fn padded_left(s: Seq<char>, width: nat) -> Seq<char> {
    if s.len() >= width {
        s
    } else {
        spaces((width - s.len()) as nat) + s
    }
}

fn push_spaces(s: &mut String, n: usize)
    ensures
        final(s)@ == old(s)@ + spaces(n as nat),
{
    let ghost start = s@;
    let mut i: usize = 0;
    assert(start + spaces(0) =~= start);
    while i < n
        invariant
            i <= n,
            s@ == start + spaces(i as nat),
        decreases n - i,
    {
        s.push(' ');
        assert((start + spaces(i as nat)).push(' ') =~= start + spaces(i as nat + 1));
        i = i + 1;
    }
}

/// `s` with spaces after it up to the given width.
pub fn pad_right(s: &str, width: usize) -> (r: String)
    ensures
        r@ == padded_right(s@, width as nat),
{
    let n: usize = s.unicode_len();
    let mut r = s.to_owned();
    if n < width {
        push_spaces(&mut r, width - n);
    }
    r
}

/// `s` with spaces before it up to the given width.
pub fn pad_left(s: &str, width: usize) -> (r: String)
    ensures
        r@ == padded_left(s@, width as nat),
{
    let n: usize = s.unicode_len();
    let mut r = String::new();
    if n < width {
        push_spaces(&mut r, width - n);
    }
    r.append(s);
    r
}

// ---------------------------------------------------------------- laws

proof fn trim_left_is(s: Seq<char>) -> (from: int)
    ensures
        0 <= from <= s.len(),
        trim_left(s) == s.skip(from),
        forall|i: int| 0 <= i < from ==> is_white(#[trigger] s[i]),
        from < s.len() ==> !is_white(s[from]),
    decreases s.len(),
{
    if s.len() > 0 && is_white(s[0]) {
        let rest = s.drop_first();
        let k = trim_left_is(rest);
        assert(rest.skip(k) =~= s.skip(k + 1));
        assert forall|i: int| 0 <= i < k + 1 implies is_white(#[trigger] s[i]) by {
            if i > 0 {
                assert(rest[i - 1] == s[i]);
            }
        }
        if k < rest.len() {
            assert(rest[k] == s[k + 1]);
        }
        k + 1
    } else {
        assert(s.skip(0) =~= s);
        0
    }
}

proof fn trim_right_is(s: Seq<char>) -> (to: int)
    ensures
        0 <= to <= s.len(),
        trim_right(s) == s.take(to),
        forall|i: int| to <= i < s.len() ==> is_white(#[trigger] s[i]),
        to > 0 ==> !is_white(s[to - 1]),
    decreases s.len(),
{
    if s.len() > 0 && is_white(s.last()) {
        let front = s.drop_last();
        let k = trim_right_is(front);
        assert(front.take(k) =~= s.take(k));
        assert forall|i: int| k <= i < s.len() implies is_white(#[trigger] s[i]) by {
            if i < front.len() {
                assert(front[i] == s[i]);
            }
        }
        if k > 0 {
            assert(front[k - 1] == s[k - 1]);
        }
        k
    } else {
        assert(s.take(s.len() as int) =~= s);
        s.len() as int
    }
}

/// Trimming takes nothing but white space off, at the ends and nowhere else, and leaves none there.
pub proof fn trimming_takes_only_white(s: Seq<char>)
    ensures
        exists|from: int, to: int|
            {
                &&& 0 <= from <= to <= s.len()
                &&& trimmed(s) == #[trigger] s.subrange(from, to)
                &&& forall|i: int| 0 <= i < from || to <= i < s.len() ==> is_white(#[trigger] s[i])
            },
        trimmed(s).len() > 0 ==> !is_white(trimmed(s)[0]) && !is_white(trimmed(s).last()),
{
    let from = trim_left_is(s);
    let t = trim_left(s);
    let k = trim_right_is(t);
    let to = from + k;
    assert(trimmed(s) =~= s.subrange(from, to));
    assert forall|i: int| 0 <= i < from || to <= i < s.len() implies is_white(#[trigger] s[i]) by {
        if to <= i {
            assert(t[i - from] == s[i]);
        }
    }
    if k > 0 {
        assert(trimmed(s)[0] == s[from]);
        assert(trimmed(s).last() == t[k - 1]);
    }
}

/// A text without white space at its ends is left as it is.
pub proof fn trimming_leaves_the_rest(s: Seq<char>)
    requires
        s.len() > 0 ==> !is_white(s[0]) && !is_white(s.last()),
    ensures
        trimmed(s) == s,
{
}

/// White space is what Unicode calls so.
pub proof fn white_space_of_unicode(c: char)
    ensures
        is_white(c) <==> c == '\t' || c == '\n' || c == '\u{b}' || c == '\u{c}' || c == '\r' || c
            == ' ' || c == '\u{85}' || c == '\u{a0}' || c == '\u{1680}' || '\u{2000}' <= c
            <= '\u{200a}' || c == '\u{2028}' || c == '\u{2029}' || c == '\u{202f}' || c
            == '\u{205f}' || c == '\u{3000}',
{
}

/// The pieces with the character between them.
pub open spec fn glued(pieces: Seq<Seq<char>>, c: char) -> Seq<char>
    decreases pieces.len(),
{
    if pieces.len() == 0 {
        Seq::empty()
    } else if pieces.len() == 1 {
        pieces[0]
    } else {
        pieces[0].push(c) + glued(pieces.drop_first(), c)
    }
}

/// Putting the pieces of a text together again gives the text, and no piece holds what parts them.
pub proof fn pieces_make_up_the_text(s: Seq<char>, c: char)
    ensures
        split(s, c).len() > 0,
        glued(split(s, c), c) == s,
        forall|i: int| 0 <= i < split(s, c).len() ==> !(#[trigger] split(s, c)[i]).contains(c),
    decreases s.len(),
{
    find_first(s, c);
    let k = find(s, c) as int;
    let all = split(s, c);
    if k >= s.len() {
        assert(!s.contains(c));
    } else {
        let rest = s.skip(k + 1);
        pieces_make_up_the_text(rest, c);
        let tail = split(rest, c);
        assert(all.drop_first() =~= tail);
        assert(s =~= s.take(k).push(c) + rest);
        assert forall|i: int| 0 <= i < all.len() implies !(#[trigger] all[i]).contains(c) by {
            if i > 0 {
                assert(all[i] == tail[i - 1]);
            }
        }
    }
}

/// A text that does not hold the character is one piece, and the piece in front of the character
/// comes before those behind it.
pub proof fn splitting_a_glued_text(a: Seq<char>, rest: Seq<char>, c: char)
    requires
        !a.contains(c),
    ensures
        split(a, c) == seq![a],
        split(a.push(c) + rest, c) == seq![a] + split(rest, c),
{
    assert forall|i: int| 0 <= i < a.len() implies a[i] != c by {}
    find_unique(a, c, a.len() as int);
    let s = a.push(c) + rest;
    find_unique(s, c, a.len() as int);
    assert(s.take(a.len() as int) =~= a);
    assert(s.skip(a.len() as int + 1) =~= rest);
}

proof fn hex_scan(n: nat, max: nat)
    requires
        n <= max,
    ensures
        hex(n).len() > 0,
        scan_digits(hex(n), 16, max) == Ok::<nat, ParseIntError>(n),
        forall|i: int|
            0 <= i < hex(n).len() ==> '0' <= #[trigger] hex(n)[i] <= '9' || 'a' <= hex(n)[i] <= 'f',
    decreases n,
{
    reveal_with_fuel(scan_digits, 2);
    if n < 16 {
        assert(hex(n).drop_last() =~= Seq::<char>::empty());
    } else {
        hex_scan(n / 16, max);
        assert(hex(n).drop_last() =~= hex(n / 16));
    }
}

/// Hexadecimal text reads back as the number that it was made from, in lower case.
pub proof fn hex_reads_back(n: nat, max: nat)
    requires
        n <= max,
    ensures
        parse_uint(hex(n), 16, max) == Ok::<nat, ParseIntError>(n),
        forall|i: int|
            0 <= i < hex(n).len() ==> '0' <= #[trigger] hex(n)[i] <= '9' || 'a' <= hex(n)[i] <= 'f',
{
    hex_scan(n, max);
    assert(hex(n)[0] != '+');
}

/// Decimal text is made of digits, the first of them no zero unless it is the only one.
pub proof fn decimal_is_plain(n: nat)
    ensures
        decimal(n).len() > 0,
        forall|i: int| 0 <= i < decimal(n).len() ==> '0' <= #[trigger] decimal(n)[i] <= '9',
        n > 0 ==> decimal(n)[0] != '0',
    decreases n,
{
    if n >= 10 {
        decimal_is_plain(n / 10);
    }
}

/// A sign of its own does not change a number, and neither do zeros in front of it.
pub proof fn signs_and_zeros_count_nothing(s: Seq<char>, radix: nat, max: nat)
    requires
        s.len() > 0,
        s[0] != '+',
        radix > 0,
    ensures
        parse_uint(seq!['+'] + s, radix, max) == parse_uint(s, radix, max),
        parse_uint(seq!['0'] + s, radix, max) == parse_uint(s, radix, max),
{
    assert((seq!['+'] + s).drop_first() =~= s);
    zero_in_front(s, radix, max);
}

proof fn zero_in_front(s: Seq<char>, radix: nat, max: nat)
    requires
        radix > 0,
    ensures
        scan_digits(seq!['0'] + s, radix, max) == scan_digits(s, radix, max),
    decreases s.len(),
{
    let t = seq!['0'] + s;
    if s.len() == 0 {
        reveal_with_fuel(scan_digits, 2);
        assert(t.drop_last() =~= Seq::<char>::empty());
        assert(0 * radix == 0) by (nonlinear_arith);
    } else {
        zero_in_front(s.drop_last(), radix, max);
        assert(t.drop_last() =~= seq!['0'] + s.drop_last());
    }
}

/// A number is negative exactly where a minus stands before it.
pub proof fn minus_means_negative(n: int)
    ensures
        n < 0 ==> signed_decimal(n)[0] == '-' && signed_decimal(n).drop_first() == decimal(
            (-n) as nat,
        ),
        n >= 0 ==> signed_decimal(n) == decimal(n as nat) && signed_decimal(n)[0] != '-',
{
    if n < 0 {
        assert(signed_decimal(n).drop_first() =~= decimal((-n) as nat));
    } else {
        decimal_is_plain(n as nat);
    }
}

/// A padded text takes the width that it is given, and holds the text at its one end and nothing
/// but spaces otherwise; one that is too wide is left as it is.
pub proof fn padding_fills_with_spaces(s: Seq<char>, width: nat)
    ensures
        s.len() >= width ==> padded_right(s, width) == s && padded_left(s, width) == s,
        s.len() < width ==> {
            &&& padded_right(s, width).len() == width
            &&& padded_right(s, width).take(s.len() as int) == s
            &&& forall|i: int|
                s.len() <= i < width ==> #[trigger] padded_right(s, width)[i] == ' '
            &&& padded_left(s, width).len() == width
            &&& padded_left(s, width).skip(width - s.len()) == s
            &&& forall|i: int|
                0 <= i < width - s.len() ==> #[trigger] padded_left(s, width)[i] == ' '
        },
{
    if s.len() < width {
        assert(padded_right(s, width).take(s.len() as int) =~= s);
        assert(padded_left(s, width).skip(width - s.len()) =~= s);
    }
}

/// Letters count as digits alike in either case, from ten on, where the base has room for them.
pub proof fn letters_count_alike(k: nat, radix: nat)
    requires
        k < 26,
    ensures
        digit_value((97 + k) as char, radix) == digit_value((65 + k) as char, radix),
        10 + k < radix ==> digit_value((97 + k) as char, radix) == Some(10 + k),
        10 + k >= radix ==> digit_value((97 + k) as char, radix) is None,
{
    let a = (97 + k) as char;
    let b = (65 + k) as char;
    assert(a as nat == 97 + k);
    assert(b as nat == 65 + k);
    assert('a' <= a <= 'z');
    assert('A' <= b <= 'Z');
}

/// What is no number is told apart: nothing at all, a character that is no digit, and a number
/// that is too large.
pub proof fn numbers_are_refused_for_cause(s: Seq<char>, n: nat, max: nat)
    ensures
        parse_uint(Seq::empty(), 10, max) == Err::<nat, ParseIntError>(ParseIntError::Empty),
        parse_uint(seq!['+'], 10, max) == Err::<nat, ParseIntError>(ParseIntError::InvalidDigit),
        s.len() > 0 && !('0' <= s[0] <= '9') && s[0] != '+' ==> parse_uint(s, 10, max) == Err::<
            nat,
            ParseIntError,
        >(ParseIntError::InvalidDigit),
        n > max ==> parse_uint(decimal(n), 10, max) == Err::<nat, ParseIntError>(
            ParseIntError::PosOverflow,
        ),
{
    if s.len() > 0 && !('0' <= s[0] <= '9') && s[0] != '+' {
        bad_start(s, max);
    }
    if n > max {
        decimal_is_plain(n);
        decimal_too_large(n, max);
    }
}

proof fn bad_start(s: Seq<char>, max: nat)
    requires
        s.len() > 0,
        !('0' <= s[0] <= '9'),
    ensures
        scan_digits(s, 10, max) == Err::<nat, ParseIntError>(ParseIntError::InvalidDigit),
    decreases s.len(),
{
    reveal_with_fuel(scan_digits, 2);
    if s.len() > 1 {
        bad_start(s.drop_last(), max);
    } else {
        assert(s.drop_last() =~= Seq::<char>::empty());
    }
}

proof fn decimal_too_large(n: nat, max: nat)
    requires
        n > max,
    ensures
        scan_digits(decimal(n), 10, max) == Err::<nat, ParseIntError>(ParseIntError::PosOverflow),
    decreases n,
{
    reveal_with_fuel(scan_digits, 2);
    if n < 10 {
        assert(decimal(n).drop_last() =~= Seq::<char>::empty());
    } else {
        assert(decimal(n).drop_last() =~= decimal(n / 10));
        if n / 10 > max {
            decimal_too_large(n / 10, max);
        } else {
            decimal_scan(n / 10, max);
        }
    }
}

} // verus!
