use vstd::prelude::*;

use crate::text::{decimal, digits_value, is_digit_spec, lemma_decimal, push_decimal};

verus! {

/// An IPv4 address as its four octets, most significant first.
#[derive(Clone, Copy, Debug, PartialEq, Eq, Structural)]
pub struct Ipv4Addr {
    pub a: u8,
    pub b: u8,
    pub c: u8,
    pub d: u8,
}

impl Ipv4Addr {
    pub open spec fn octet_seq(self) -> Seq<u8> {
        seq![self.a, self.b, self.c, self.d]
    }

    pub fn new(a: u8, b: u8, c: u8, d: u8) -> (r: Ipv4Addr)
        ensures
            r == (Ipv4Addr { a, b, c, d }),
    {
        Ipv4Addr { a, b, c, d }
    }

    pub fn octets(&self) -> (r: [u8; 4])
        ensures
            r@ == self.octet_seq(),
    {
        [self.a, self.b, self.c, self.d]
    }
}

/// Two octets agree on the bits that the mask octet keeps.
pub open spec fn masked_eq(x: u8, y: u8, m: u8) -> bool {
    x & m == y & m
}

/// Two addresses lie in one subnet under `mask` when every octet agrees
/// on the bits that the mask keeps.
pub open spec fn same_subnet(lhs: Ipv4Addr, rhs: Ipv4Addr, mask: Ipv4Addr) -> bool {
    &&& masked_eq(lhs.a, rhs.a, mask.a)
    &&& masked_eq(lhs.b, rhs.b, mask.b)
    &&& masked_eq(lhs.c, rhs.c, mask.c)
    &&& masked_eq(lhs.d, rhs.d, mask.d)
}

/// Whether `lhs` and `rhs` share the subnet that `netmask` selects.
pub fn is_match(lhs: Ipv4Addr, rhs: Ipv4Addr, netmask: Ipv4Addr) -> (r: bool)
    ensures
        r == same_subnet(lhs, rhs, netmask),
{
    let l = lhs.octets();
    let r = rhs.octets();
    let m = netmask.octets();
    let mut i: usize = 0;
    while i < 4
        invariant
            i <= 4,
            l@ == lhs.octet_seq(),
            r@ == rhs.octet_seq(),
            m@ == netmask.octet_seq(),
            forall|j: int| 0 <= j < i ==> masked_eq(#[trigger] l@[j], r@[j], m@[j]),
        decreases 4 - i,
    {
        if l[i] & m[i] != r[i] & m[i] {
            return false;
        }
        i = i + 1;
    }
    assert(masked_eq(l@[0], r@[0], m@[0]));
    assert(masked_eq(l@[1], r@[1], m@[1]));
    assert(masked_eq(l@[2], r@[2], m@[2]));
    assert(masked_eq(l@[3], r@[3], m@[3]));
    true
}

/// The mask with every bit set.
pub open spec fn full_mask() -> Ipv4Addr {
    Ipv4Addr { a: 255, b: 255, c: 255, d: 255 }
}

/// The mask with no bit set.
pub open spec fn empty_mask() -> Ipv4Addr {
    Ipv4Addr { a: 0, b: 0, c: 0, d: 0 }
}

/// Subnet membership does not depend on which of the two addresses comes first.
pub proof fn lemma_same_subnet_symmetric(a: Ipv4Addr, b: Ipv4Addr, mask: Ipv4Addr)
    ensures
        same_subnet(a, b, mask) == same_subnet(b, a, mask),
{
}

/// Under the all-ones mask two addresses share a subnet exactly when they are
/// equal; under the all-zeros mask any two addresses do.
pub proof fn lemma_same_subnet_extreme_masks(a: Ipv4Addr, b: Ipv4Addr)
    ensures
        same_subnet(a, b, full_mask()) == (a == b),
        same_subnet(a, b, empty_mask()),
{
    assert forall|x: u8, y: u8| #[trigger] masked_eq(x, y, 255u8) == (x == y) by {
        assert((x & 255u8 == y & 255u8) == (x == y)) by (bit_vector);
    }
    assert forall|x: u8, y: u8| #[trigger] masked_eq(x, y, 0u8) by {
        assert(x & 0u8 == y & 0u8) by (bit_vector);
    }
}

/// The dotted-decimal form of an address, as `Ipv4Addr`'s `Display` writes it
/// and as its parser accepts it: four octets in decimal without leading zeros.
pub open spec fn dotted(x: Ipv4Addr) -> Seq<char> {
    decimal(x.a as nat) + seq!['.'] + decimal(x.b as nat) + seq!['.'] + decimal(x.c as nat)
        + seq!['.'] + decimal(x.d as nat)
}

/// `s[p..]` starts with the decimal form of `x`, and no digit follows it.
pub open spec fn octet_at(s: Seq<char>, p: int, x: u8) -> bool {
    let e = p + decimal(x as nat).len() as int;
    &&& 0 <= p
    &&& e <= s.len()
    &&& s.subrange(p, e) == decimal(x as nat)
    &&& (e == s.len() || !is_digit_spec(s[e]))
}

fn is_digit(c: char) -> (r: bool)
    ensures
        r == is_digit_spec(c),
{
    '0' <= c && c <= '9'
}

/// Reads the octet that starts at `p`: the whole run of digits there, which
/// must be the decimal form of a number below 256.
fn read_octet(s: &Vec<char>, p: usize) -> (r: Option<(u8, usize)>)
    requires
        p <= s@.len(),
    ensures
        r matches Some((v, q)) ==> q == p + decimal(v as nat).len() && octet_at(s@, p as int, v),
        forall|x: u8| #[trigger] octet_at(s@, p as int, x) ==> r == Some((x, (p + decimal(x as nat).len()) as usize)),
{
    let n = s.len();
    let mut q: usize = p;
    let mut v: u16 = 0;
    while q < n && is_digit(s[q])
        invariant
            p <= q <= n == s@.len(),
            forall|k: int| p <= k < q ==> is_digit_spec(#[trigger] s@[k]),
            q - p <= 3 ==> v == digits_value(s@.subrange(p as int, q as int)),
            q - p == 0 ==> v == 0,
            q - p == 1 ==> v <= 9,
            q - p == 2 ==> v <= 99,
            q - p == 3 ==> v <= 999,
        decreases n - q,
    {
        if q - p < 3 {
            assert(s@.subrange(p as int, q + 1).drop_last() =~= s@.subrange(p as int, q as int));
            v = v * 10 + (s[q] as u32 - '0' as u32) as u16;
        }
        q = q + 1;
    }
    proof {
        assert forall|x: u8| #[trigger] octet_at(s@, p as int, x) implies q == p + decimal(x as nat).len() by {
            lemma_decimal(x as nat);
            let e = p + decimal(x as nat).len() as int;
            if q < e {
                assert(s@[q as int] == s@.subrange(p as int, e)[q - p]);
            } else if q > e {
                assert(is_digit_spec(s@[e]));
            }
        }
    }
    if q == p || q - p > 3 || v > 255 {
        proof {
            assert forall|x: u8| !octet_at(s@, p as int, x) by {
                lemma_decimal(x as nat);
            }
        }
        return None;
    }
    let mut rendered: Vec<char> = Vec::new();
    push_decimal(v, &mut rendered);
    assert(rendered@ =~= decimal(v as nat));
    if rendered.len() != q - p {
        proof {
            assert forall|x: u8| !octet_at(s@, p as int, x) by {
                lemma_decimal(x as nat);
            }
        }
        return None;
    }
    let mut i: usize = 0;
    while i < rendered.len()
        invariant
            p <= q <= n == s@.len(),
            rendered@.len() == q - p,
            rendered@ == decimal(v as nat),
            q - p <= 3,
            v == digits_value(s@.subrange(p as int, q as int)),
            forall|x: u8| #[trigger] octet_at(s@, p as int, x) ==> q == p + decimal(x as nat).len(),
            i <= rendered@.len(),
            forall|k: int| 0 <= k < i ==> s@[p + k] == #[trigger] rendered@[k],
        decreases rendered@.len() - i,
    {
        if s[p + i] != rendered[i] {
            proof {
                assert forall|x: u8| !octet_at(s@, p as int, x) by {
                    lemma_decimal(x as nat);
                    if octet_at(s@, p as int, x) {
                        assert(s@.subrange(p as int, q as int)[i as int] == s@[p + i]);
                    }
                }
            }
            return None;
        }
        i = i + 1;
    }
    assert(s@.subrange(p as int, q as int) =~= rendered@);
    proof {
        assert forall|x: u8| #[trigger] octet_at(s@, p as int, x) implies x == v by {
            lemma_decimal(x as nat);
        }
    }
    Some((v as u8, q))
}

/// Where the octets and dots of `dotted(x)` stand in its text.
proof fn lemma_dotted_octets(x: Ipv4Addr, s: Seq<char>)
    requires
        dotted(x) == s,
    ensures
        ({
            let la = decimal(x.a as nat).len() as int;
            let lb = decimal(x.b as nat).len() as int;
            let lc = decimal(x.c as nat).len() as int;
            let ld = decimal(x.d as nat).len() as int;
            &&& octet_at(s, 0, x.a)
            &&& s[la] == '.'
            &&& octet_at(s, la + 1, x.b)
            &&& s[la + 1 + lb] == '.'
            &&& octet_at(s, la + lb + 2, x.c)
            &&& s[la + lb + 2 + lc] == '.'
            &&& octet_at(s, la + lb + lc + 3, x.d)
            &&& la + lb + lc + ld + 3 == s.len()
        }),
{
    let da = decimal(x.a as nat);
    let db = decimal(x.b as nat);
    let dc = decimal(x.c as nat);
    let dd = decimal(x.d as nat);
    let la = da.len() as int;
    let lb = db.len() as int;
    let lc = dc.len() as int;
    let ld = dd.len() as int;
    lemma_decimal(x.a as nat);
    lemma_decimal(x.b as nat);
    lemma_decimal(x.c as nat);
    lemma_decimal(x.d as nat);
    assert(s.subrange(0, la) =~= da);
    assert(s[la] == '.');
    assert(s.subrange(la + 1, la + 1 + lb) =~= db);
    assert(s[la + 1 + lb] == '.');
    assert(s.subrange(la + lb + 2, la + lb + 2 + lc) =~= dc);
    assert(s[la + lb + 2 + lc] == '.');
    assert(s.subrange(la + lb + lc + 3, la + lb + lc + 3 + ld) =~= dd);
}

/// Parses `s` as a dotted-decimal address; `None` when no address has that form.
pub fn parse_ipv4(s: &Vec<char>) -> (r: Option<Ipv4Addr>)
    ensures
        r matches Some(x) ==> dotted(x) == s@,
        r is None ==> forall|x: Ipv4Addr| dotted(x) != s@,
{
    let n = s.len();
    let ra = read_octet(s, 0);
    if let Some((a, q1)) = ra {
        if q1 < n && s[q1] == '.' {
            let rb = read_octet(s, q1 + 1);
            if let Some((b, q2)) = rb {
                if q2 < n && s[q2] == '.' {
                    let rc = read_octet(s, q2 + 1);
                    if let Some((c, q3)) = rc {
                        if q3 < n && s[q3] == '.' {
                            let rd = read_octet(s, q3 + 1);
                            if let Some((d, q4)) = rd {
                                if q4 == n {
                                    let x = Ipv4Addr { a, b, c, d };
                                    assert(dotted(x) =~= s@.subrange(0, q1 as int) + seq!['.']
                                        + s@.subrange(q1 + 1, q2 as int) + seq!['.'] + s@.subrange(
                                        q2 + 1,
                                        q3 as int,
                                    ) + seq!['.'] + s@.subrange(q3 + 1, q4 as int));
                                    assert(s@ =~= s@.subrange(0, q1 as int) + seq!['.']
                                        + s@.subrange(q1 + 1, q2 as int) + seq!['.'] + s@.subrange(
                                        q2 + 1,
                                        q3 as int,
                                    ) + seq!['.'] + s@.subrange(q3 + 1, q4 as int));
                                    return Some(x);
                                }
                            }
                        }
                    }
                }
            }
        }
    }
    proof {
        assert forall|x: Ipv4Addr| dotted(x) != s@ by {
            if dotted(x) == s@ {
                lemma_dotted_octets(x, s@);
            }
        }
    }
    None
}

impl Ipv4Addr {
    /// The dotted-decimal text of the address.
    pub fn dotted_chars(&self) -> (r: Vec<char>)
        ensures
            r@ == dotted(*self),
    {
        let mut out: Vec<char> = Vec::new();
        push_decimal(self.a as u16, &mut out);
        out.push('.');
        push_decimal(self.b as u16, &mut out);
        out.push('.');
        push_decimal(self.c as u16, &mut out);
        out.push('.');
        push_decimal(self.d as u16, &mut out);
        assert(out@ =~= dotted(*self));
        out
    }
}

/// At one place at most one octet can start.
proof fn lemma_octet_unique(s: Seq<char>, p: int, x: u8, y: u8)
    requires
        octet_at(s, p, x),
        octet_at(s, p, y),
    ensures
        x == y,
{
    lemma_decimal(x as nat);
    lemma_decimal(y as nat);
    let lx = decimal(x as nat).len() as int;
    let ly = decimal(y as nat).len() as int;
    if lx < ly {
        assert(s[p + lx] == s.subrange(p, p + ly)[lx]);
    } else if ly < lx {
        assert(s[p + ly] == s.subrange(p, p + lx)[ly]);
    }
}

/// Distinct addresses have distinct dotted-decimal forms.
pub proof fn lemma_dotted_injective(x: Ipv4Addr, y: Ipv4Addr)
    requires
        dotted(x) == dotted(y),
    ensures
        x == y,
{
    let s = dotted(x);
    lemma_dotted_octets(x, s);
    lemma_dotted_octets(y, s);
    lemma_octet_unique(s, 0, x.a, y.a);
    let la = decimal(x.a as nat).len() as int;
    lemma_octet_unique(s, la + 1, x.b, y.b);
    let lb = decimal(x.b as nat).len() as int;
    lemma_octet_unique(s, la + lb + 2, x.c, y.c);
    let lc = decimal(x.c as nat).len() as int;
    lemma_octet_unique(s, la + lb + lc + 3, x.d, y.d);
}

} // verus!
