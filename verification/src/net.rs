//! Internet addresses and their canonical text.

use vstd::prelude::*;

use crate::text;

verus! {

/// An Internet address, held as the number that its bytes spell in network order.
#[derive(Clone, Copy, Debug, PartialEq, Eq, Structural)]
pub enum IpAddr {
    V4(u32),
    V6(u128),
}

/// The last `k` digits of `v` in the given base, most significant first.
pub open spec fn digits(v: nat, base: nat, k: nat) -> Seq<nat>
    decreases k,
{
    if k == 0 {
        Seq::empty()
    } else {
        digits(v / base, base, (k - 1) as nat).push(v % base)
    }
}

proof fn digits_len(v: nat, base: nat, k: nat)
    requires
        base > 0,
    ensures
        digits(v, base, k).len() == k,
    decreases k,
{
    if k > 0 {
        assert(v / base >= 0) by (nonlinear_arith)
            requires
                base > 0,
        ;
        digits_len(v / base, base, (k - 1) as nat);
    }
}

/// Dotted decimal text of an IPv4 address.
pub open spec fn v4_text(v: nat) -> Seq<char> {
    let o = digits(v, 256, 4);
    text::decimal(o[0]) + seq!['.'] + text::decimal(o[1]) + seq!['.'] + text::decimal(o[2])
        + seq!['.'] + text::decimal(o[3])
}

/// Hexadecimal groups joined by colons.
pub open spec fn groups_text(s: Seq<nat>) -> Seq<char>
    decreases s.len(),
{
    if s.len() == 0 {
        Seq::empty()
    } else if s.len() == 1 {
        text::hex(s[0])
    } else {
        groups_text(s.drop_last()).push(':') + text::hex(s.last())
    }
}

/// How many groups in a row are zero, from position `i` on.
pub open spec fn zero_run(s: Seq<nat>, i: nat) -> nat
    decreases s.len() - i,
{
    if i < s.len() && s[i as int] == 0 {
        1 + zero_run(s, i + 1)
    } else {
        0
    }
}

/// The longest run of zero groups that starts before position `n`, the first one where several
/// are as long: where it starts and how long it is.
pub open spec fn longest_zeros(s: Seq<nat>, n: nat) -> (nat, nat)
    decreases n,
{
    if n == 0 {
        (0, 0)
    } else {
        let best = longest_zeros(s, (n - 1) as nat);
        if zero_run(s, (n - 1) as nat) > best.1 {
            ((n - 1) as nat, zero_run(s, (n - 1) as nat))
        } else {
            best
        }
    }
}

/// Whether the address stands for an IPv4 address (`::ffff:a.b.c.d`).
pub open spec fn is_mapped(v: nat) -> bool {
    v / 0x1_0000_0000 == 0xffff
}

/// Text of an IPv6 address that stands for no IPv4 address: eight groups, the longest run of two
/// or more zero groups written as `::`.
pub open spec fn v6_text(v: nat) -> Seq<char> {
    let g = digits(v, 65536, 8);
    let z = longest_zeros(g, 8);
    if z.1 > 1 {
        groups_text(g.take(z.0 as int)) + seq![':', ':'] + groups_text(g.skip((z.0 + z.1) as int))
    } else {
        groups_text(g)
    }
}

impl IpAddr {
    /// The canonical text of the address; an IPv4 address in IPv6 form is written as IPv4.
    pub open spec fn rendered(self) -> Seq<char> {
        match self {
            IpAddr::V4(v) => v4_text(v as nat),
            IpAddr::V6(v) => if is_mapped(v as nat) {
                v4_text((v % 0x1_0000_0000) as nat)
            } else {
                v6_text(v as nat)
            },
        }
    }

    /// The plain text of the address; an IPv4 address in IPv6 form keeps the `::ffff:` prefix.
    pub open spec fn shown(self) -> Seq<char> {
        match self {
            IpAddr::V4(v) => v4_text(v as nat),
            IpAddr::V6(v) => if is_mapped(v as nat) {
                "::ffff:"@ + v4_text((v % 0x1_0000_0000) as nat)
            } else {
                v6_text(v as nat)
            },
        }
    }
}

fn push_v4(s: &mut String, v: u32)
    ensures
        final(s)@ == old(s)@ + v4_text(v as nat),
{
    proof {
        reveal_with_fuel(digits, 5);
    }
    let a: u32 = v / 256 / 256 / 256;
    let b: u32 = v / 256 / 256 % 256;
    let c: u32 = v / 256 % 256;
    let d: u32 = v % 256;
    assert(a % 256 == a);
    assert(digits(v as nat, 256, 4) =~= seq![a as nat, b as nat, c as nat, d as nat]);
    let ghost start = s@;
    text::push_decimal(s, a as u64);
    s.push('.');
    text::push_decimal(s, b as u64);
    s.push('.');
    text::push_decimal(s, c as u64);
    s.push('.');
    text::push_decimal(s, d as u64);
    assert(s@ =~= start + v4_text(v as nat));
}

/// The eight groups of an IPv6 address.
fn groups(v: u128) -> (r: Vec<u16>)
    ensures
        r.len() == 8,
        r@.map_values(|x: u16| x as nat) == digits(v as nat, 65536, 8),
{
    let mut r: Vec<u16> = Vec::new();
    push_groups(&mut r, v, 8);
    proof {
        digits_len(v as nat, 65536, 8);
    }
    assert(r@.map_values(|x: u16| x as nat) =~= digits(v as nat, 65536, 8));
    r
}

fn push_groups(r: &mut Vec<u16>, v: u128, k: u8)
    ensures
        final(r)@.map_values(|x: u16| x as nat) == old(r)@.map_values(|x: u16| x as nat) + digits(
            v as nat,
            65536,
            k as nat,
        ),
    decreases k,
{
    let ghost start = r@.map_values(|x: u16| x as nat);
    if k > 0 {
        push_groups(r, v / 65536, k - 1);
        let ghost before = r@;
        r.push((v % 65536) as u16);
        assert(r@.map_values(|x: u16| x as nat) =~= before.map_values(|x: u16| x as nat).push(
            v as nat % 65536,
        ));
    }
    assert(r@.map_values(|x: u16| x as nat) =~= start + digits(v as nat, 65536, k as nat));
}

fn push_group_texts(s: &mut String, g: &Vec<u16>, from: usize, to: usize)
    requires
        from <= to <= g.len(),
    ensures
        final(s)@ == old(s)@ + groups_text(
            g@.map_values(|x: u16| x as nat).subrange(from as int, to as int),
        ),
{
    let ghost start = s@;
    let ghost m = g@.map_values(|x: u16| x as nat);
    let mut i: usize = from;
    assert(m.subrange(from as int, from as int) =~= Seq::<nat>::empty());
    assert(start + groups_text(m.subrange(from as int, from as int)) =~= start);
    while i < to
        invariant
            from <= i <= to <= g.len(),
            m == g@.map_values(|x: u16| x as nat),
            s@ == start + groups_text(m.subrange(from as int, i as int)),
        decreases to - i,
    {
        let ghost before = m.subrange(from as int, i as int);
        let ghost after = m.subrange(from as int, i as int + 1);
        assert(after.drop_last() =~= before);
        if i > from {
            s.push(':');
        }
        text::push_hex_short(s, g[i] as u64);
        assert(after.last() == g@[i as int] as nat);
        if i > from {
            assert(s@ =~= start + (groups_text(before).push(':') + text::hex(after.last())));
        } else {
            assert(s@ =~= start + text::hex(after.last()));
        }
        i = i + 1;
    }
}

fn run_from(g: &Vec<u16>, i: usize) -> (r: usize)
    requires
        i <= g.len(),
    ensures
        r == zero_run(g@.map_values(|x: u16| x as nat), i as nat),
        i + r <= g.len(),
    decreases g.len() - i,
{
    if i < g.len() && g[i] == 0 {
        1 + run_from(g, i + 1)
    } else {
        0
    }
}

fn push_v6(s: &mut String, v: u128)
    ensures
        final(s)@ == old(s)@ + v6_text(v as nat),
{
    let g = groups(v);
    let ghost m = g@.map_values(|x: u16| x as nat);
    let ghost begin = s@;
    let mut start: usize = 0;
    let mut len: usize = 0;
    let mut i: usize = 0;
    while i < 8
        invariant
            i <= 8,
            g.len() == 8,
            m == g@.map_values(|x: u16| x as nat),
            longest_zeros(m, i as nat) == (start as nat, len as nat),
            start + len <= 8,
        decreases 8 - i,
    {
        let n: usize = run_from(&g, i);
        if n > len {
            start = i;
            len = n;
        }
        i = i + 1;
    }
    if len > 1 {
        push_group_texts(s, &g, 0, start);
        s.push(':');
        s.push(':');
        push_group_texts(s, &g, start + len, 8);
        assert(m.subrange(0, start as int) =~= m.take(start as int));
        assert(m.subrange(start + len, 8) =~= m.skip(start + len));
    } else {
        push_group_texts(s, &g, 0, 8);
        assert(m.subrange(0, 8) =~= m);
    }
    assert(s@ =~= begin + v6_text(v as nat));
}

/// The canonical text of an address; an IPv4 address in IPv6 form is written as IPv4.
pub fn render_ip(addr: &IpAddr) -> (r: String)
    ensures
        r@ == addr.rendered(),
{
    let mut s = String::new();
    match addr {
        IpAddr::V4(v) => push_v4(&mut s, *v),
        IpAddr::V6(v) => if *v / 0x1_0000_0000 == 0xffff {
            push_v4(&mut s, (*v % 0x1_0000_0000) as u32)
        } else {
            push_v6(&mut s, *v)
        },
    }
    assert(s@ =~= addr.rendered());
    s
}

/// The plain text of an address; an IPv4 address in IPv6 form keeps the `::ffff:` prefix.
pub fn show_ip(addr: &IpAddr) -> (r: String)
    ensures
        r@ == addr.shown(),
{
    let mut s = String::new();
    match addr {
        IpAddr::V4(v) => push_v4(&mut s, *v),
        IpAddr::V6(v) => if *v / 0x1_0000_0000 == 0xffff {
            s.append("::ffff:");
            push_v4(&mut s, (*v % 0x1_0000_0000) as u32)
        } else {
            push_v6(&mut s, *v)
        },
    }
    assert(s@ =~= addr.shown());
    s
}

/// An IPv4 address renders the same in its own form and in IPv6 form.
pub proof fn mapped_renders_as_v4(v: u32)
    ensures
        IpAddr::V6((0xffff_0000_0000 + v) as u128).rendered() == IpAddr::V4(v).rendered(),
{
}

// ---------------------------------------------------------------- laws

/// The number that groups spell in the given base, most significant first.
pub open spec fn spelled(g: Seq<nat>, base: nat) -> nat
    decreases g.len(),
{
    if g.len() == 0 {
        0
    } else {
        spelled(g.drop_last(), base) * base + g.last()
    }
}

proof fn digits_of_spelled(g: Seq<nat>, base: nat)
    requires
        base > 0,
        forall|i: int| 0 <= i < g.len() ==> (#[trigger] g[i]) < base,
    ensures
        digits(spelled(g, base), base, g.len()) == g,
    decreases g.len(),
{
    if g.len() > 0 {
        let front = g.drop_last();
        assert forall|i: int| 0 <= i < front.len() implies (#[trigger] front[i]) < base by {
            assert(front[i] == g[i]);
        }
        digits_of_spelled(front, base);
        let x = spelled(front, base) as int;
        let y = g.last() as int;
        let b = base as int;
        assert(g.last() == g[g.len() - 1]);
        assert((x * b + y) / b == x && (x * b + y) % b == y) by (nonlinear_arith)
            requires
                0 <= y < b,
                x >= 0,
        ;
        assert(g =~= front.push(g.last()));
    } else {
        assert(digits(spelled(g, base), base, 0) =~= g);
    }
}

/// An IPv4 address is written as its four bytes in decimal, the first in network order first, with
/// dots between them.
pub proof fn v4_is_written_by_bytes(a: u8, b: u8, c: u8, d: u8)
    ensures
        IpAddr::V4((a * 0x100_0000 + b * 0x1_0000 + c * 0x100 + d) as u32).rendered()
            == text::decimal(a as nat) + seq!['.'] + text::decimal(b as nat) + seq!['.']
            + text::decimal(c as nat) + seq!['.'] + text::decimal(d as nat),
        IpAddr::V4((a * 0x100_0000 + b * 0x1_0000 + c * 0x100 + d) as u32).shown()
            == text::decimal(a as nat) + seq!['.'] + text::decimal(b as nat) + seq!['.']
            + text::decimal(c as nat) + seq!['.'] + text::decimal(d as nat),
{
    let g = seq![a as nat, b as nat, c as nat, d as nat];
    digits_of_spelled(g, 256);
    reveal_with_fuel(spelled, 5);
    assert(g.drop_last() =~= seq![a as nat, b as nat, c as nat]);
    assert(g.drop_last().drop_last() =~= seq![a as nat, b as nat]);
    assert(g.drop_last().drop_last().drop_last() =~= seq![a as nat]);
    assert(g.drop_last().drop_last().drop_last().drop_last() =~= Seq::<nat>::empty());
    assert(spelled(g, 256) == a * 0x100_0000 + b * 0x1_0000 + c * 0x100 + d);
}

proof fn zero_run_is(s: Seq<nat>, i: nat)
    requires
        i <= s.len(),
    ensures
        i + zero_run(s, i) <= s.len(),
        forall|k: int| i <= k < i + zero_run(s, i) ==> #[trigger] s[k] == 0,
        i + zero_run(s, i) < s.len() ==> s[(i + zero_run(s, i)) as int] != 0,
    decreases s.len() - i,
{
    if i < s.len() && s[i as int] == 0 {
        zero_run_is(s, i + 1);
    }
}

proof fn longest_zeros_is(s: Seq<nat>, n: nat)
    requires
        n <= s.len(),
    ensures
        ({
            let z = longest_zeros(s, n);
            &&& z.0 + z.1 <= s.len()
            &&& z.1 > 0 ==> z.0 < n && zero_run(s, z.0) == z.1
            &&& forall|k: nat| k < n ==> #[trigger] zero_run(s, k) <= z.1
            &&& forall|k: nat| k < z.0 ==> #[trigger] zero_run(s, k) < z.1
        }),
    decreases n,
{
    if n > 0 {
        longest_zeros_is(s, (n - 1) as nat);
        zero_run_is(s, (n - 1) as nat);
    }
}

/// Whether the groups from `from` up to `to` are the ones to be left out: two or more zeros in a
/// row, as many as there are anywhere, and the first of that many.
pub open spec fn left_out(g: Seq<nat>, from: int, to: int) -> bool {
    &&& 0 <= from
    &&& from + 2 <= to <= g.len()
    &&& forall|k: int| from <= k < to ==> #[trigger] g[k] == 0
    &&& forall|a: int, b: int|
        0 <= a <= b <= g.len() && (forall|k: int| a <= k < b ==> #[trigger] g[k] == 0)
            ==> #[trigger] spans(a, b) <= to - from && (a < from ==> spans(a, b) < to - from)
}

/// How many places lie from `a` up to `b`.
pub open spec fn spans(a: int, b: int) -> int {
    b - a
}

proof fn zeros_within_run(g: Seq<nat>, a: nat, b: nat)
    requires
        a <= b <= g.len(),
        forall|k: int| a <= k < b ==> #[trigger] g[k] == 0,
    ensures
        b - a <= zero_run(g, a),
    decreases b - a,
{
    if a < b {
        assert(g[a as int] == 0);
        zeros_within_run(g, a + 1, b);
    }
}

/// An IPv6 address that stands for no IPv4 one is written as its eight groups in hexadecimal with
/// colons between them; where two or more groups in a row are zero, the first of the longest such
/// rows is left out, and two colons stand for it.
pub proof fn v6_is_written_by_groups(g: Seq<nat>) -> (cut: Option<(int, int)>)
    requires
        g.len() == 8,
        forall|i: int| 0 <= i < 8 ==> (#[trigger] g[i]) < 0x1_0000,
        !is_mapped(spelled(g, 0x1_0000)),
        spelled(g, 0x1_0000) <= u128::MAX,
    ensures
        ({
            let t = IpAddr::V6(spelled(g, 0x1_0000) as u128).rendered();
            &&& t == IpAddr::V6(spelled(g, 0x1_0000) as u128).shown()
            &&& match cut {
                Some((from, to)) => left_out(g, from, to) && t == groups_text(g.take(from)) + seq![
                    ':',
                    ':',
                ] + groups_text(g.skip(to)),
                None => {
                    &&& forall|i: int| 0 <= i < 7 ==> !(#[trigger] g[i] == 0 && g[i + 1] == 0)
                    &&& t == text::hex(g[0]) + seq![':'] + text::hex(g[1]) + seq![':']
                        + text::hex(g[2]) + seq![':'] + text::hex(g[3]) + seq![':'] + text::hex(
                        g[4],
                    ) + seq![':'] + text::hex(g[5]) + seq![':'] + text::hex(g[6]) + seq![':']
                        + text::hex(g[7])
                },
            }
        }),
{
    digits_of_spelled(g, 0x1_0000);
    longest_zeros_is(g, 8);
    let z = longest_zeros(g, 8);
    if z.1 > 1 {
        zero_run_is(g, z.0);
        let from = z.0 as int;
        let to = (z.0 + z.1) as int;
        assert forall|a: int, b: int|
            0 <= a <= b <= g.len() && (forall|k: int| a <= k < b ==> #[trigger] g[k]
                == 0) implies #[trigger] spans(a, b) <= to - from && (a < from ==> spans(a, b) < to
            - from) by {
            zeros_within_run(g, a as nat, b as nat);
            if a < 8 {
                assert(zero_run(g, a as nat) <= z.1);
            }
        }
        Some((from, to))
    } else {
        assert forall|i: int| 0 <= i < 7 implies !(#[trigger] g[i] == 0 && g[i + 1] == 0) by {
            if g[i] == 0 && g[i + 1] == 0 {
                reveal_with_fuel(zero_run, 3);
                assert(zero_run(g, i as nat) >= 2);
            }
        }
        reveal_with_fuel(groups_text, 9);
        let s7 = g.drop_last();
        let s6 = s7.drop_last();
        let s5 = s6.drop_last();
        let s4 = s5.drop_last();
        let s3 = s4.drop_last();
        let s2 = s3.drop_last();
        let s1 = s2.drop_last();
        assert(groups_text(s1) == text::hex(g[0]));
        assert(groups_text(g) =~= text::hex(g[0]) + seq![':'] + text::hex(g[1]) + seq![':']
            + text::hex(g[2]) + seq![':'] + text::hex(g[3]) + seq![':'] + text::hex(g[4]) + seq![
            ':',
        ] + text::hex(g[5]) + seq![':'] + text::hex(g[6]) + seq![':'] + text::hex(g[7]));
        None
    }
}

/// An IPv6 address that stands for an IPv4 one is shown as that one behind `::ffff:`.
pub proof fn mapped_is_shown_with_prefix(v: u32)
    ensures
        IpAddr::V6((0xffff_0000_0000 + v) as u128).shown() == "::ffff:"@ + IpAddr::V4(v).shown(),
{
}

} // verus!
