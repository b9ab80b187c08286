use vstd::prelude::*;

verus! {

/// A network address, held as the numbers it is made of.
#[derive(Clone, Copy, Debug, PartialEq, Eq)]
pub enum IpAddress {
    V4([u8; 4]),
    V6([u16; 8]),
}

/// The sixteen digits of base sixteen, lower case; the first ten serve base ten.
pub open spec fn digit_chars() -> Seq<char> {
    seq!['0', '1', '2', '3', '4', '5', '6', '7', '8', '9', 'a', 'b', 'c', 'd', 'e', 'f']
}

/// `n` written in base sixteen (`hex`) or ten, without leading zeros.
pub open spec fn radix_text(n: nat, hex: bool) -> Seq<char>
    decreases n,
{
    if hex {
        if n < 16 {
            seq![digit_chars()[n as int]]
        } else {
            radix_text(n / 16, hex) + seq![digit_chars()[(n % 16) as int]]
        }
    } else {
        if n < 10 {
            seq![digit_chars()[n as int]]
        } else {
            radix_text(n / 10, hex) + seq![digit_chars()[(n % 10) as int]]
        }
    }
}

/// Appends `n`, written in base sixteen (`hex`) or ten, to `out`.
fn push_radix(out: &mut String, n: u32, hex: bool)
    ensures
        final(out)@ == old(out)@ + radix_text(n as nat, hex),
    decreases n,
{
    let base: u32 = if hex { 16 } else { 10 };
    if n >= base {
        push_radix(out, n / base, hex);
    }
    let d = n % base;
    let digits = "0123456789abcdef";
    proof {
        reveal_strlit("0123456789abcdef");
        assert(digits@ =~= digit_chars());
    }
    let s = digits.substring_char(d as usize, d as usize + 1);
    proof {
        assert(s@ =~= seq![digit_chars()[d as int]]);
    }
    out.append(s);
    proof {
        assert(final(out)@ =~= old(out)@ + radix_text(n as nat, hex));
    }
}

/// Four octets in dotted decimal form.
pub open spec fn v4_text(a: nat, b: nat, c: nat, d: nat) -> Seq<char> {
    radix_text(a, false) + seq!['.'] + radix_text(b, false) + seq!['.'] + radix_text(c, false)
        + seq!['.'] + radix_text(d, false)
}

/// Groups of sixteen bits in base sixteen, separated by colons.
pub open spec fn groups_text(s: Seq<u16>) -> Seq<char>
    decreases s.len(),
{
    if s.len() == 0 {
        Seq::empty()
    } else if s.len() == 1 {
        radix_text(s[0] as nat, true)
    } else {
        groups_text(s.drop_last()) + seq![':'] + radix_text(s.last() as nat, true)
    }
}

/// How many zero groups follow one another from position `i` on.
pub open spec fn zero_run(s: Seq<u16>, i: int) -> nat
    decreases s.len() - i,
{
    if 0 <= i < s.len() && s[i] == 0 {
        1 + zero_run(s, i + 1)
    } else {
        0
    }
}

/// `start` begins a run of zero groups that no other run exceeds, and no run
/// as long begins before it.
pub open spec fn is_longest_run(s: Seq<u16>, start: int) -> bool {
    &&& 0 <= start < s.len()
    &&& forall|j: int| 0 <= j < s.len() ==> #[trigger] zero_run(s, j) <= zero_run(s, start)
    &&& forall|j: int| 0 <= j < start ==> #[trigger] zero_run(s, j) < zero_run(s, start)
}

/// Where the first longest run of zero groups begins.
pub open spec fn longest_run_start(s: Seq<u16>) -> int {
    choose|start: int| is_longest_run(s, start)
}

/// The address is an IPv4 address mapped into IPv6 (`::ffff:a.b.c.d`).
pub open spec fn is_v4_mapped(s: Seq<u16>) -> bool {
    s.len() == 8 && s[0] == 0 && s[1] == 0 && s[2] == 0 && s[3] == 0 && s[4] == 0 && s[5]
        == 0xffff
}

/// The text of an IPv6 address: a mapped IPv4 address as `::ffff:` and its
/// dotted form; otherwise the groups in base sixteen, the first longest run of
/// two or more zero groups written as `::`.
pub open spec fn v6_text(s: Seq<u16>) -> Seq<char> {
    if is_v4_mapped(s) {
        seq![':', ':', 'f', 'f', 'f', 'f', ':'] + v4_text(
            s[6] as nat / 256,
            s[6] as nat % 256,
            s[7] as nat / 256,
            s[7] as nat % 256,
        )
    } else {
        let start = longest_run_start(s);
        let len = zero_run(s, start);
        if len >= 2 {
            groups_text(s.subrange(0, start)) + seq![':', ':'] + groups_text(
                s.subrange(start + len, s.len() as int),
            )
        } else {
            groups_text(s)
        }
    }
}

impl IpAddress {
    /// The address in its usual text form.
    pub open spec fn text(self) -> Seq<char> {
        match self {
            IpAddress::V4(o) => v4_text(o[0] as nat, o[1] as nat, o[2] as nat, o[3] as nat),
            IpAddress::V6(g) => v6_text(g@),
        }
    }

    /// Appends the address in its usual text form to `out`.
    pub fn push_text(&self, out: &mut String)
        ensures
            final(out)@ == old(out)@ + self.text(),
    {
        match self {
            IpAddress::V4(o) => push_v4(out, o[0], o[1], o[2], o[3]),
            IpAddress::V6(g) => push_v6(out, g),
        }
    }

    /// The address in its usual text form.
    pub fn to_text(&self) -> (r: String)
        ensures
            r@ == self.text(),
    {
        let mut out = String::new();
        self.push_text(&mut out);
        proof {
            assert(out@ =~= self.text());
        }
        out
    }
}

fn push_v4(out: &mut String, a: u8, b: u8, c: u8, d: u8)
    ensures
        final(out)@ == old(out)@ + v4_text(a as nat, b as nat, c as nat, d as nat),
{
    proof {
        reveal_strlit(".");
    }
    push_radix(out, a as u32, false);
    out.append(".");
    push_radix(out, b as u32, false);
    out.append(".");
    push_radix(out, c as u32, false);
    out.append(".");
    push_radix(out, d as u32, false);
    proof {
        assert(final(out)@ =~= old(out)@ + v4_text(a as nat, b as nat, c as nat, d as nat));
    }
}

/// Appends the groups `g[from..to]`, separated by colons.
fn push_groups(out: &mut String, g: &[u16; 8], from: usize, to: usize)
    requires
        from <= to <= 8,
    ensures
        final(out)@ == old(out)@ + groups_text(g@.subrange(from as int, to as int)),
{
    proof {
        reveal_strlit(":");
        assert(g@.subrange(from as int, from as int) =~= Seq::<u16>::empty());
    }
    let mut i = from;
    while i < to
        invariant
            from <= i <= to <= 8,
            out@ == old(out)@ + groups_text(g@.subrange(from as int, i as int)),
        decreases to - i,
    {
        let ghost before = out@;
        if i > from {
            out.append(":");
        }
        push_radix(out, g[i] as u32, true);
        proof {
            reveal_strlit(":");
            let prev = g@.subrange(from as int, i as int);
            let next = g@.subrange(from as int, i + 1);
            assert(next.drop_last() =~= prev);
            assert(next.last() == g@[i as int]);
            if i == from {
                assert(next.len() == 1 && next[0] == g@[i as int]);
                assert(prev.len() == 0);
                assert(groups_text(prev) =~= Seq::<char>::empty());
                assert(out@ =~= before + radix_text(g@[i as int] as nat, true));
            } else {
                assert(out@ =~= before + seq![':'] + radix_text(g@[i as int] as nat, true));
            }
            assert(out@ =~= old(out)@ + groups_text(next));
        }
        i = i + 1;
    }
}

/// A run of zero groups ends at the end of the address at the latest.
proof fn lemma_zero_run_bound(s: Seq<u16>, i: int)
    requires
        0 <= i <= s.len(),
    ensures
        i + zero_run(s, i) <= s.len(),
    decreases s.len() - i,
{
    if i < s.len() {
        lemma_zero_run_bound(s, i + 1);
    }
}

/// Two positions that both begin a first longest run are one position.
proof fn lemma_longest_run_unique(s: Seq<u16>, a: int, b: int)
    requires
        is_longest_run(s, a),
        is_longest_run(s, b),
    ensures
        a == b,
{
    if a < b {
        assert(zero_run(s, a) < zero_run(s, b));
        assert(zero_run(s, a) <= zero_run(s, b));
    } else if b < a {
        assert(zero_run(s, b) < zero_run(s, a));
    }
}

/// Finds the first longest run of zero groups: its start and its length.
fn longest_zero_run(g: &[u16; 8]) -> (r: (usize, usize))
    ensures
        is_longest_run(g@, r.0 as int),
        r.1 == zero_run(g@, r.0 as int),
        r.0 == longest_run_start(g@),
        r.0 + r.1 <= 8,
{
    let mut best_start: usize = 0;
    let mut best_len: usize = 0;
    let mut i: usize = 0;
    while i < 8
        invariant
            i <= 8,
            best_start < 8,
            best_start < i || i == 0,
            i == 0 ==> best_start == 0 && best_len == 0,
            i > 0 ==> best_len == zero_run(g@, best_start as int),
            forall|j: int| 0 <= j < i ==> #[trigger] zero_run(g@, j) <= best_len,
            forall|j: int| 0 <= j < best_start ==> #[trigger] zero_run(g@, j) < best_len,
        decreases 8 - i,
    {
        let mut k: usize = i;
        while k < 8 && g[k] == 0
            invariant
                i <= k <= 8,
                zero_run(g@, i as int) == (k - i) + zero_run(g@, k as int),
            decreases 8 - k,
        {
            k = k + 1;
        }
        let run = k - i;
        if i == 0 || run > best_len {
            best_start = i;
            best_len = run;
        }
        i = i + 1;
    }
    proof {
        let start = longest_run_start(g@);
        assert(is_longest_run(g@, best_start as int));
        lemma_longest_run_unique(g@, start, best_start as int);
        lemma_zero_run_bound(g@, best_start as int);
    }
    (best_start, best_len)
}

fn push_v6(out: &mut String, g: &[u16; 8])
    ensures
        final(out)@ == old(out)@ + v6_text(g@),
{
    proof {
        reveal_strlit("::ffff:");
        reveal_strlit("::");
    }
    if g[0] == 0 && g[1] == 0 && g[2] == 0 && g[3] == 0 && g[4] == 0 && g[5] == 0xffff {
        out.append("::ffff:");
        push_v4(out, (g[6] / 256) as u8, (g[6] % 256) as u8, (g[7] / 256) as u8, (g[7] % 256) as u8);
        proof {
            assert(final(out)@ =~= old(out)@ + v6_text(g@));
        }
    } else {
        let (start, len) = longest_zero_run(g);
        if len >= 2 {
            push_groups(out, g, 0, start);
            out.append("::");
            push_groups(out, g, start + len, 8);
            proof {
                assert(final(out)@ =~= old(out)@ + v6_text(g@));
            }
        } else {
            push_groups(out, g, 0, 8);
            proof {
                assert(g@.subrange(0, 8) =~= g@);
                assert(final(out)@ =~= old(out)@ + v6_text(g@));
            }
        }
    }
}

} // verus!
