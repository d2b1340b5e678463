use vstd::prelude::*;

verus! {

/// An IP address as plain values: four octets, or eight 16-bit segments.
#[derive(PartialEq, Eq, Clone, Copy, Debug)]
pub enum IpAddress {
    V4([u8; 4]),
    V6([u16; 8]),
}

/// An IP address with a port.
#[derive(PartialEq, Eq, Clone, Copy, Debug)]
pub struct SocketAddress {
    pub ip: IpAddress,
    pub port: u16,
}

/// Why an address text was refused.
#[derive(PartialEq, Eq, Clone, Copy, Debug)]
pub enum AddrError {
    InvalidInput,
}

pub open spec fn digit(d: u8) -> char {
    ((48 + d) as u8) as char
}

pub open spec fn is_digit(c: char) -> bool {
    '0' <= c && c <= '9'
}

/// The decimal text of an octet, without leading zeros.
pub open spec fn octet_text(v: u8) -> Seq<char> {
    if v < 10 {
        seq![digit(v)]
    } else if v < 100 {
        seq![digit(v / 10), digit(v % 10)]
    } else {
        seq![digit(v / 100), digit((v / 10) % 10), digit(v % 10)]
    }
}

/// The dotted-decimal text of an IPv4 address; it is the only text that reads
/// as that address.
pub open spec fn ipv4_text(a: Seq<u8>) -> Seq<char> {
    octet_text(a[0]) + seq!['.'] + octet_text(a[1]) + seq!['.'] + octet_text(a[2]) + seq!['.']
        + octet_text(a[3])
}

/// The value of a text of decimal digits.
pub open spec fn dec_value(s: Seq<char>) -> int
    decreases s.len(),
{
    if s.len() == 0 {
        0
    } else {
        10 * dec_value(s.drop_last()) + (s.last() as int - 48)
    }
}

/// A port's text: one or more decimal digits, leading zeros allowed.
pub open spec fn port_text(s: Seq<char>, port: u16) -> bool {
    &&& s.len() >= 1
    &&& forall|i: int| 0 <= i < s.len() ==> is_digit(#[trigger] s[i])
    &&& dec_value(s) == port
}

/// `s` reads as `addr`: `IPv4:port`, `[IPv6]:port`, or a bare IP with port 0.
pub open spec fn reads_as(s: Seq<char>, addr: SocketAddress) -> bool {
    match addr.ip {
        IpAddress::V4(o) => {
            let a = o@;
            ||| exists|k: int|
                0 <= k < s.len() && s[k] == ':' && #[trigger] s.subrange(0, k) == ipv4_text(a)
                    && port_text(s.subrange(k + 1, s.len() as int), addr.port)
            ||| s == ipv4_text(a) && addr.port == 0
        },
        IpAddress::V6(g) => {
            let k = first_index(s, ']') as int;
            ||| ipv6_of(s) == Some(g@) && addr.port == 0
            ||| s.len() > 0 && s[0] == '[' && k + 1 < s.len() && s[k + 1] == ':' && ipv6_of(
                s.subrange(1, k),
            ) == Some(g@) && port_text(s.subrange(k + 2, s.len() as int), addr.port)
        },
    }
}

proof fn lemma_digit(d: u8)
    requires
        d < 10,
    ensures
        digit(d) as u32 == 48 + d,
        is_digit(digit(d)),
{
}

proof fn lemma_octet_text(v: u8)
    ensures
        1 <= octet_text(v).len() <= 3,
        forall|i: int| 0 <= i < octet_text(v).len() ==> is_digit(#[trigger] octet_text(v)[i]),
        v < 10 ==> octet_text(v).len() == 1 && octet_text(v)[0] as u32 == 48 + v,
        10 <= v < 100 ==> octet_text(v).len() == 2 && octet_text(v)[0] as u32 == 48 + v / 10
            && octet_text(v)[1] as u32 == 48 + v % 10 && v / 10 >= 1,
        100 <= v ==> octet_text(v).len() == 3 && octet_text(v)[0] as u32 == 48 + v / 100
            && octet_text(v)[1] as u32 == 48 + (v / 10) % 10 && octet_text(v)[2] as u32 == 48 + v
            % 10 && v / 100 >= 1,
{
    if v < 10 {
        lemma_digit(v);
    } else if v < 100 {
        lemma_digit((v / 10) as u8);
        lemma_digit((v % 10) as u8);
    } else {
        lemma_digit((v / 100) as u8);
        lemma_digit(((v / 10) % 10) as u8);
        lemma_digit((v % 10) as u8);
    }
}

fn digit_value(c: char) -> (r: Option<u8>)
    ensures
        r is Some <==> is_digit(c),
        r is Some ==> r->Some_0 < 10 && r->Some_0 as u32 + 48 == c as u32,
{
    if '0' <= c && c <= '9' {
        Some((c as u32 - '0' as u32) as u8)
    } else {
        None
    }
}

/// The characters of a text, one by one.
pub fn chars_of(s: &str) -> (r: Vec<char>)
    ensures
        r@ == s@,
{
    let n = s.unicode_len();
    let mut r: Vec<char> = Vec::new();
    let mut i: usize = 0;
    while i < n
        invariant
            n == s@.len(),
            i <= n,
            r@ == s@.subrange(0, i as int),
        decreases n - i,
    {
        r.push(s.get_char(i));
        i += 1;
        assert(r@ =~= s@.subrange(0, i as int));
    }
    assert(r@ =~= s@);
    r
}

/// The first position in `[from, end)` that holds `c`, or `end`.
fn find_char(cs: &Vec<char>, from: usize, end: usize, c: char) -> (r: usize)
    requires
        from <= end <= cs@.len(),
    ensures
        from <= r <= end,
        forall|k: int| from <= k < r ==> cs@[k] != c,
        r < end ==> cs@[r as int] == c,
{
    let mut i = from;
    while i < end
        invariant
            from <= i <= end <= cs@.len(),
            forall|k: int| from <= k < i ==> cs@[k] != c,
        decreases end - i,
    {
        if cs[i] == c {
            return i;
        }
        i += 1;
    }
    i
}

fn parse_octet(cs: &Vec<char>, start: usize, end: usize) -> (r: Option<u8>)
    requires
        start <= end <= cs@.len(),
    ensures
        r is Some ==> cs@.subrange(start as int, end as int) == octet_text(r->Some_0),
        r is None ==> forall|v: u8| cs@.subrange(start as int, end as int) != octet_text(v),
{
    let ghost sub = cs@.subrange(start as int, end as int);
    let len = end - start;
    if len == 0 || len > 3 {
        proof {
            assert forall|v: u8| sub != octet_text(v) by {
                lemma_octet_text(v);
            }
        }
        return None;
    }
    let d0 = match digit_value(cs[start]) {
        Some(d) => d,
        None => {
            proof {
                assert forall|v: u8| sub != octet_text(v) by {
                    lemma_octet_text(v);
                    assert(sub[0] == cs@[start as int]);
                }
            }
            return None;
        },
    };
    if len == 1 {
        proof {
            lemma_octet_text(d0);
            assert(sub =~= octet_text(d0));
        }
        return Some(d0);
    }
    if d0 == 0 {
        proof {
            assert forall|v: u8| sub != octet_text(v) by {
                lemma_octet_text(v);
                assert(sub[0] == cs@[start as int]);
            }
        }
        return None;
    }
    let d1 = match digit_value(cs[start + 1]) {
        Some(d) => d,
        None => {
            proof {
                assert forall|v: u8| sub != octet_text(v) by {
                    lemma_octet_text(v);
                    assert(sub[1] == cs@[start + 1]);
                }
            }
            return None;
        },
    };
    if len == 2 {
        let v = d0 * 10 + d1;
        proof {
            lemma_octet_text(v);
            assert(sub[0] == cs@[start as int]);
            assert(sub[1] == cs@[start + 1]);
            assert(sub =~= octet_text(v));
        }
        return Some(v);
    }
    let d2 = match digit_value(cs[start + 2]) {
        Some(d) => d,
        None => {
            proof {
                assert forall|v: u8| sub != octet_text(v) by {
                    lemma_octet_text(v);
                    assert(sub[2] == cs@[start + 2]);
                }
            }
            return None;
        },
    };
    let w: u32 = d0 as u32 * 100 + d1 as u32 * 10 + d2 as u32;
    if w > 255 {
        proof {
            assert forall|v: u8| sub != octet_text(v) by {
                lemma_octet_text(v);
                assert(sub[0] == cs@[start as int]);
                assert(sub[1] == cs@[start + 1]);
                assert(sub[2] == cs@[start + 2]);
            }
        }
        return None;
    }
    let v = w as u8;
    proof {
        lemma_octet_text(v);
        assert(sub[0] == cs@[start as int]);
        assert(sub[1] == cs@[start + 1]);
        assert(sub[2] == cs@[start + 2]);
        assert(sub =~= octet_text(v));
    }
    Some(v)
}

proof fn lemma_ipv4_text_shape(a: Seq<u8>)
    requires
        a.len() == 4,
    ensures
        ({
            let t = ipv4_text(a);
            let l0 = octet_text(a[0]).len() as int;
            let l1 = octet_text(a[1]).len() as int;
            let l2 = octet_text(a[2]).len() as int;
            let e1 = l0 + 1 + l1;
            let e2 = e1 + 1 + l2;
            &&& t.len() == e2 + 1 + octet_text(a[3]).len()
            &&& t[l0] == '.' && t[e1] == '.' && t[e2] == '.'
            &&& forall|k: int| 0 <= k < t.len() && k != l0 && k != e1 && k != e2 ==> is_digit(#[trigger] t[k])
            &&& t.subrange(0, l0) == octet_text(a[0])
            &&& t.subrange(l0 + 1, e1) == octet_text(a[1])
            &&& t.subrange(e1 + 1, e2) == octet_text(a[2])
            &&& t.subrange(e2 + 1, t.len() as int) == octet_text(a[3])
        }),
{
    lemma_octet_text(a[0]);
    lemma_octet_text(a[1]);
    lemma_octet_text(a[2]);
    lemma_octet_text(a[3]);
    let t = ipv4_text(a);
    let l0 = octet_text(a[0]).len() as int;
    let l1 = octet_text(a[1]).len() as int;
    let l2 = octet_text(a[2]).len() as int;
    let e1 = l0 + 1 + l1;
    let e2 = e1 + 1 + l2;
    assert(t.subrange(0, l0) =~= octet_text(a[0]));
    assert(t.subrange(l0 + 1, e1) =~= octet_text(a[1]));
    assert(t.subrange(e1 + 1, e2) =~= octet_text(a[2]));
    assert(t.subrange(e2 + 1, t.len() as int) =~= octet_text(a[3]));
    assert forall|k: int| 0 <= k < t.len() && k != l0 && k != e1 && k != e2 implies is_digit(
        #[trigger] t[k],
    ) by {
        if k < l0 {
            assert(t[k] == octet_text(a[0])[k]);
        } else if k < e1 {
            assert(t[k] == octet_text(a[1])[k - l0 - 1]);
        } else if k < e2 {
            assert(t[k] == octet_text(a[2])[k - e1 - 1]);
        } else {
            assert(t[k] == octet_text(a[3])[k - e2 - 1]);
        }
    }
}

/// Where a dotted-decimal text has its dots: the first three found by a scan
/// are those of the text, and no fourth follows.
#[verifier::rlimit(80)]
proof fn lemma_ipv4_dots(cs: Seq<char>, start: int, end: int, a: Seq<u8>, i1: int, i2: int, i3: int, i4: int)
    requires
        0 <= start <= end <= cs.len(),
        a.len() == 4,
        cs.subrange(start, end) == ipv4_text(a),
        start <= i1 <= end,
        forall|k: int| start <= k < i1 ==> cs[k] != '.',
        i1 < end ==> cs[i1] == '.',
        i1 < end ==> i1 + 1 <= i2 <= end && (forall|k: int| i1 + 1 <= k < i2 ==> cs[k] != '.') && (i2 < end ==> cs[i2] == '.'),
        i1 == end ==> i2 == end,
        i2 < end ==> i2 + 1 <= i3 <= end && (forall|k: int| i2 + 1 <= k < i3 ==> cs[k] != '.') && (i3 < end ==> cs[i3] == '.'),
        i2 == end ==> i3 == end,
        i3 < end ==> i3 + 1 <= i4 <= end && (forall|k: int| i3 + 1 <= k < i4 ==> cs[k] != '.') && (i4 < end ==> cs[i4] == '.'),
        i3 == end ==> i4 == end,
    ensures
        i3 < end && i4 == end,
        cs.subrange(start, i1) == octet_text(a[0]),
        cs.subrange(i1 + 1, i2) == octet_text(a[1]),
        cs.subrange(i2 + 1, i3) == octet_text(a[2]),
        cs.subrange(i3 + 1, end) == octet_text(a[3]),
{
    let sub = cs.subrange(start, end);
    lemma_ipv4_text_shape(a);
    let l0 = octet_text(a[0]).len() as int;
    let e1 = l0 + 1 + octet_text(a[1]).len();
    let e2 = e1 + 1 + octet_text(a[2]).len();
    assert(forall|k: int| start <= k < end ==> cs[k] == sub[k - start]);
    assert(cs[start + l0] == '.');
    if i1 < start + l0 {
        assert(is_digit(sub[i1 - start]));
    }
    assert(i1 == start + l0);
    if i2 < start + e1 {
        assert(is_digit(sub[i2 - start]));
    }
    assert(i2 == start + e1);
    if i3 < start + e2 {
        assert(is_digit(sub[i3 - start]));
    }
    assert(i3 == start + e2);
    if i4 < end {
        assert(is_digit(sub[i4 - start]));
    }
    assert(cs.subrange(start, i1) =~= sub.subrange(0, l0));
    assert(cs.subrange(i1 + 1, i2) =~= sub.subrange(l0 + 1, e1));
    assert(cs.subrange(i2 + 1, i3) =~= sub.subrange(e1 + 1, e2));
    assert(cs.subrange(i3 + 1, end) =~= sub.subrange(e2 + 1, sub.len() as int));
}

/// Reads `cs[start..end]` as a dotted-decimal IPv4 address.
fn parse_ipv4(cs: &Vec<char>, start: usize, end: usize) -> (r: Option<[u8; 4]>)
    requires
        start <= end <= cs@.len(),
    ensures
        r is Some ==> cs@.subrange(start as int, end as int) == ipv4_text(r->Some_0@),
        r is None ==> forall|a: Seq<u8>|
            a.len() == 4 ==> cs@.subrange(start as int, end as int) != ipv4_text(a),
{
    let ghost sub = cs@.subrange(start as int, end as int);
    let i1 = find_char(cs, start, end, '.');
    let i2 = if i1 < end {
        find_char(cs, i1 + 1, end, '.')
    } else {
        end
    };
    let i3 = if i2 < end {
        find_char(cs, i2 + 1, end, '.')
    } else {
        end
    };
    let i4 = if i3 < end {
        find_char(cs, i3 + 1, end, '.')
    } else {
        end
    };
    let mut o: Option<[u8; 4]> = None;
    if i3 < end && i4 == end {
        let o0 = parse_octet(cs, start, i1);
        let o1 = parse_octet(cs, i1 + 1, i2);
        let o2 = parse_octet(cs, i2 + 1, i3);
        let o3 = parse_octet(cs, i3 + 1, end);
        match (o0, o1, o2, o3) {
            (Some(a0), Some(a1), Some(a2), Some(a3)) => {
                let a = [a0, a1, a2, a3];
                proof {
                    assert(a@ =~= seq![a0, a1, a2, a3]);
                    assert(sub =~= ipv4_text(a@));
                }
                o = Some(a);
            },
            _ => {},
        }
    }
    proof {
        if o is None {
            assert forall|a: Seq<u8>| a.len() == 4 implies sub != ipv4_text(a) by {
                if sub == ipv4_text(a) {
                    lemma_ipv4_dots(cs@, start as int, end as int, a, i1 as int, i2 as int, i3 as int, i4 as int);
                }
            }
        }
    }
    o
}

pub open spec fn is_hex(c: char) -> bool {
    is_digit(c) || ('a' <= c && c <= 'f') || ('A' <= c && c <= 'F')
}

pub open spec fn hex_val(c: char) -> int {
    if is_digit(c) {
        c as int - 48
    } else if 'a' <= c && c <= 'f' {
        c as int - 87
    } else {
        c as int - 55
    }
}

/// The value of a text of hexadecimal digits.
pub open spec fn hex_value(s: Seq<char>) -> int
    decreases s.len(),
{
    if s.len() == 0 {
        0
    } else {
        16 * hex_value(s.drop_last()) + hex_val(s.last())
    }
}

/// A 16-bit group of an IPv6 text: one to four hexadecimal digits.
pub open spec fn hex_group(s: Seq<char>) -> bool {
    1 <= s.len() <= 4 && forall|i: int| 0 <= i < s.len() ==> is_hex(#[trigger] s[i])
}

/// The position of the first `c` in `t`, or its length.
pub open spec fn first_index(t: Seq<char>, c: char) -> nat
    decreases t.len(),
{
    if t.len() == 0 {
        0
    } else if t[0] == c {
        0
    } else {
        1 + first_index(t.drop_first(), c)
    }
}

/// The position of the first `::` in `t`, or its length.
pub open spec fn first_gap(t: Seq<char>) -> nat
    decreases t.len(),
{
    if t.len() < 2 {
        t.len()
    } else if t[0] == ':' && t[1] == ':' {
        0
    } else {
        1 + first_gap(t.drop_first())
    }
}

/// A dotted-decimal IPv4 text as the two 16-bit groups it stands for.
pub open spec fn v4_groups(t: Seq<char>) -> Option<Seq<u16>> {
    if exists|a: Seq<u8>| a.len() == 4 && t == ipv4_text(a) {
        let a = choose|a: Seq<u8>| a.len() == 4 && t == ipv4_text(a);
        Some(seq![(a[0] * 256 + a[1]) as u16, (a[2] * 256 + a[3]) as u16])
    } else {
        None
    }
}

/// Groups separated by single colons; where `v4_tail`, the last may be an
/// IPv4 text standing for two groups.
pub open spec fn fields_of(t: Seq<char>, v4_tail: bool) -> Option<Seq<u16>>
    decreases t.len(),
{
    let k = first_index(t, ':');
    if k >= t.len() {
        if hex_group(t) {
            Some(seq![hex_value(t) as u16])
        } else if v4_tail {
            v4_groups(t)
        } else {
            None
        }
    } else if hex_group(t.subrange(0, k as int)) {
        match fields_of(t.subrange((k + 1) as int, t.len() as int), v4_tail) {
            Some(g) => Some(seq![hex_value(t.subrange(0, k as int)) as u16] + g),
            None => None,
        }
    } else {
        None
    }
}

pub open spec fn group_list(t: Seq<char>, v4_tail: bool) -> Option<Seq<u16>> {
    if t.len() == 0 {
        Some(seq![])
    } else {
        fields_of(t, v4_tail)
    }
}

/// The eight groups of an IPv6 text: eight groups, or the groups before and
/// after the first `::`, which stands for at least one zero group. Only the
/// last group overall may be written as IPv4.
pub open spec fn ipv6_of(t: Seq<char>) -> Option<Seq<u16>> {
    let p = first_gap(t);
    if p >= t.len() {
        match fields_of(t, true) {
            Some(g) => if g.len() == 8 {
                Some(g)
            } else {
                None
            },
            None => None,
        }
    } else {
        match (group_list(t.subrange(0, p as int), false), group_list(t.subrange((p + 2) as int, t.len() as int), true)) {
            (Some(l), Some(r)) => if l.len() + r.len() <= 7 {
                Some(l + Seq::new((8 - l.len() - r.len()) as nat, |i: int| 0u16) + r)
            } else {
                None
            },
            _ => None,
        }
    }
}

proof fn lemma_first_index(t: Seq<char>, c: char, k: int)
    requires
        0 <= k <= t.len(),
        forall|j: int| 0 <= j < k ==> t[j] != c,
        k < t.len() ==> t[k] == c,
    ensures
        first_index(t, c) == k,
    decreases t.len(),
{
    if t.len() > 0 && k > 0 {
        lemma_first_index(t.drop_first(), c, k - 1);
    }
}

proof fn lemma_first_gap(t: Seq<char>, k: int)
    requires
        0 <= k <= t.len(),
        forall|j: int| 0 <= j < k && j + 1 < t.len() ==> !(#[trigger] t[j] == ':' && t[j + 1] == ':'),
        k < t.len() ==> k + 1 < t.len() && t[k] == ':' && t[k + 1] == ':',
        k == t.len() ==> forall|j: int| 0 <= j && j + 1 < t.len() ==> !(#[trigger] t[j] == ':' && t[j + 1] == ':'),
    ensures
        first_gap(t) == k,
    decreases t.len(),
{
    if t.len() >= 2 && k > 0 {
        if k == t.len() {
            lemma_first_gap(t.drop_first(), k - 1);
        } else {
            lemma_first_gap(t.drop_first(), k - 1);
        }
    }
}

proof fn lemma_octet_injective(v: u8, w: u8)
    requires
        octet_text(v) == octet_text(w),
    ensures
        v == w,
{
    lemma_octet_text(v);
    lemma_octet_text(w);
    if v < 10 {
        assert(octet_text(v)[0] == octet_text(w)[0]);
    } else if v < 100 {
        assert(octet_text(v)[0] == octet_text(w)[0]);
        assert(octet_text(v)[1] == octet_text(w)[1]);
    } else {
        assert(octet_text(v)[0] == octet_text(w)[0]);
        assert(octet_text(v)[1] == octet_text(w)[1]);
        assert(octet_text(v)[2] == octet_text(w)[2]);
    }
}

proof fn lemma_ipv4_injective(a: Seq<u8>, b: Seq<u8>)
    requires
        a.len() == 4,
        b.len() == 4,
        ipv4_text(a) == ipv4_text(b),
    ensures
        a == b,
{
    lemma_ipv4_text_shape(a);
    lemma_ipv4_text_shape(b);
    let t = ipv4_text(a);
    lemma_octet_text(a[0]);
    lemma_octet_text(b[0]);
    lemma_octet_text(a[1]);
    lemma_octet_text(b[1]);
    lemma_octet_text(a[2]);
    lemma_octet_text(b[2]);
    let la = octet_text(a[0]).len() as int;
    let lb = octet_text(b[0]).len() as int;
    if la < lb {
        assert(is_digit(t[la]));
    } else if lb < la {
        assert(is_digit(t[lb]));
    }
    lemma_octet_injective(a[0], b[0]);
    let ea = la + 1 + octet_text(a[1]).len();
    let eb = lb + 1 + octet_text(b[1]).len();
    if ea < eb {
        assert(is_digit(t[ea]));
    } else if eb < ea {
        assert(is_digit(t[eb]));
    }
    lemma_octet_injective(a[1], b[1]);
    let fa = ea + 1 + octet_text(a[2]).len();
    let fb = eb + 1 + octet_text(b[2]).len();
    if fa < fb {
        assert(is_digit(t[fa]));
    } else if fb < fa {
        assert(is_digit(t[fb]));
    }
    lemma_octet_injective(a[2], b[2]);
    lemma_octet_injective(a[3], b[3]);
    assert(a =~= b);
}

fn hex_digit_value(c: char) -> (r: Option<u8>)
    ensures
        r is Some <==> is_hex(c),
        r is Some ==> r->Some_0 < 16 && r->Some_0 as int == hex_val(c),
{
    if '0' <= c && c <= '9' {
        Some((c as u32 - '0' as u32) as u8)
    } else if 'a' <= c && c <= 'f' {
        Some((c as u32 - 'a' as u32 + 10) as u8)
    } else if 'A' <= c && c <= 'F' {
        Some((c as u32 - 'A' as u32 + 10) as u8)
    } else {
        None
    }
}

fn parse_hex_group(cs: &Vec<char>, start: usize, end: usize) -> (r: Option<u16>)
    requires
        start <= end <= cs@.len(),
    ensures
        r is Some <==> hex_group(cs@.subrange(start as int, end as int)),
        r is Some ==> r->Some_0 as int == hex_value(cs@.subrange(start as int, end as int)),
{
    let ghost sub = cs@.subrange(start as int, end as int);
    if end - start == 0 || end - start > 4 {
        return None;
    }
    let mut acc: u32 = 0;
    let mut i = start;
    while i < end
        invariant
            start <= i <= end <= cs@.len(),
            end - start <= 4,
            sub == cs@.subrange(start as int, end as int),
            forall|k: int| start <= k < i ==> is_hex(cs@[k]),
            acc as int == hex_value(cs@.subrange(start as int, i as int)),
            acc < (if i - start == 0 { 1int } else if i - start == 1 { 16int } else if i - start == 2 { 256int } else if i - start == 3 { 4096int } else { 65536int }),
        decreases end - i,
    {
        let d = match hex_digit_value(cs[i]) {
            Some(d) => d,
            None => {
                proof {
                    assert(sub[i - start] == cs@[i as int]);
                }
                return None;
            },
        };
        proof {
            let next = cs@.subrange(start as int, i + 1);
            assert(next.drop_last() =~= cs@.subrange(start as int, i as int));
            assert(next.last() == cs@[i as int]);
        }
        acc = acc * 16 + d as u32;
        i += 1;
    }
    proof {
        assert(cs@.subrange(start as int, i as int) == sub);
        assert forall|k: int| 0 <= k < sub.len() implies is_hex(#[trigger] sub[k]) by {
            assert(sub[k] == cs@[start + k]);
        }
    }
    Some(acc as u16)
}

fn parse_v4_groups(cs: &Vec<char>, start: usize, end: usize) -> (r: Option<Vec<u16>>)
    requires
        start <= end <= cs@.len(),
    ensures
        match r {
            Some(g) => v4_groups(cs@.subrange(start as int, end as int)) == Some(g@),
            None => v4_groups(cs@.subrange(start as int, end as int)) is None,
        },
{
    let ghost t = cs@.subrange(start as int, end as int);
    match parse_ipv4(cs, start, end) {
        Some(a) => {
            let mut g: Vec<u16> = Vec::new();
            g.push(a[0] as u16 * 256 + a[1] as u16);
            g.push(a[2] as u16 * 256 + a[3] as u16);
            proof {
                assert(a@.len() == 4 && t == ipv4_text(a@));
                let b = choose|b: Seq<u8>| b.len() == 4 && t == ipv4_text(b);
                lemma_ipv4_injective(a@, b);
                assert(g@ =~= seq![(b[0] * 256 + b[1]) as u16, (b[2] * 256 + b[3]) as u16]);
            }
            Some(g)
        },
        None => None,
    }
}

fn parse_fields(cs: &Vec<char>, start: usize, end: usize, v4_tail: bool) -> (r: Option<Vec<u16>>)
    requires
        start <= end <= cs@.len(),
    ensures
        match r {
            Some(g) => fields_of(cs@.subrange(start as int, end as int), v4_tail) == Some(g@),
            None => fields_of(cs@.subrange(start as int, end as int), v4_tail) is None,
        },
    decreases end - start,
{
    let ghost t = cs@.subrange(start as int, end as int);
    let k = find_char(cs, start, end, ':');
    proof {
        assert forall|j: int| 0 <= j < k - start implies t[j] != ':' by {
            assert(t[j] == cs@[start + j]);
        }
        if k < end {
            assert(t[k - start] == cs@[k as int]);
        }
        lemma_first_index(t, ':', k - start);
    }
    if k == end {
        match parse_hex_group(cs, start, end) {
            Some(v) => {
                let mut g: Vec<u16> = Vec::new();
                g.push(v);
                proof {
                    assert(g@ =~= seq![hex_value(t) as u16]);
                }
                return Some(g);
            },
            None => {
                if v4_tail {
                    return parse_v4_groups(cs, start, end);
                }
                return None;
            },
        }
    }
    proof {
        assert(t.subrange(0, k - start) =~= cs@.subrange(start as int, k as int));
        assert(t.subrange(k - start + 1, t.len() as int) =~= cs@.subrange(k + 1, end as int));
    }
    match parse_hex_group(cs, start, k) {
        Some(v) => match parse_fields(cs, k + 1, end, v4_tail) {
            Some(rest) => {
                let mut g: Vec<u16> = Vec::new();
                g.push(v);
                let ghost rv = rest@;
                let mut rest = rest;
                g.append(&mut rest);
                proof {
                    assert(g@ =~= seq![hex_value(t.subrange(0, k - start)) as u16] + rv);
                }
                Some(g)
            },
            None => None,
        },
        None => None,
    }
}

fn parse_group_list(cs: &Vec<char>, start: usize, end: usize, v4_tail: bool) -> (r: Option<Vec<u16>>)
    requires
        start <= end <= cs@.len(),
    ensures
        match r {
            Some(g) => group_list(cs@.subrange(start as int, end as int), v4_tail) == Some(g@),
            None => group_list(cs@.subrange(start as int, end as int), v4_tail) is None,
        },
{
    if start == end {
        let g: Vec<u16> = Vec::new();
        assert(g@ =~= seq![]);
        Some(g)
    } else {
        parse_fields(cs, start, end, v4_tail)
    }
}

/// The first position in `[from, end)` where `::` starts, or `end`.
fn find_gap(cs: &Vec<char>, start: usize, end: usize) -> (r: usize)
    requires
        start <= end <= cs@.len(),
    ensures
        first_gap(cs@.subrange(start as int, end as int)) == r - start,
        start <= r <= end,
{
    let ghost t = cs@.subrange(start as int, end as int);
    let mut i = start;
    while i < end
        invariant
            start <= i <= end <= cs@.len(),
            t == cs@.subrange(start as int, end as int),
            forall|j: int| start <= j < i && j + 1 < end ==> !(#[trigger] cs@[j] == ':' && cs@[j + 1] == ':'),
        decreases end - i,
    {
        if i + 1 < end && cs[i] == ':' && cs[i + 1] == ':' {
            proof {
                assert forall|j: int| 0 <= j < i - start && j + 1 < t.len() implies !(#[trigger] t[j] == ':' && t[j + 1] == ':') by {
                    assert(t[j] == cs@[start + j]);
                    assert(t[j + 1] == cs@[start + j + 1]);
                }
                assert(t[i - start] == cs@[i as int]);
                assert(t[i - start + 1] == cs@[i + 1]);
                lemma_first_gap(t, i - start);
            }
            return i;
        }
        i += 1;
    }
    proof {
        assert forall|j: int| 0 <= j && j + 1 < t.len() implies !(#[trigger] t[j] == ':' && t[j + 1] == ':') by {
            assert(t[j] == cs@[start + j]);
            assert(t[j + 1] == cs@[start + j + 1]);
        }
        lemma_first_gap(t, t.len() as int);
    }
    end
}

/// Reads `cs[start..end]` as an IPv6 address.
fn parse_ipv6(cs: &Vec<char>, start: usize, end: usize) -> (r: Option<[u16; 8]>)
    requires
        start <= end <= cs@.len(),
    ensures
        match r {
            Some(g) => ipv6_of(cs@.subrange(start as int, end as int)) == Some(g@),
            None => ipv6_of(cs@.subrange(start as int, end as int)) is None,
        },
{
    let ghost t = cs@.subrange(start as int, end as int);
    let p = find_gap(cs, start, end);
    let full: Vec<u16>;
    if p == end {
        match parse_fields(cs, start, end, true) {
            Some(g) => {
                if g.len() != 8 {
                    return None;
                }
                full = g;
            },
            None => {
                return None;
            },
        }
    } else {
        proof {
            lemma_first_gap_pair(t);
            assert(t.subrange(0, p - start) =~= cs@.subrange(start as int, p as int));
            assert(t.subrange(p - start + 2, t.len() as int) =~= cs@.subrange(p + 2, end as int));
        }
        let l = match parse_group_list(cs, start, p, false) {
            Some(l) => l,
            None => {
                return None;
            },
        };
        let r = match parse_group_list(cs, p + 2, end, true) {
            Some(r) => r,
            None => {
                return None;
            },
        };
        if l.len() > 7 || r.len() > 7 - l.len() {
            return None;
        }
        let zeros: usize = 8 - l.len() - r.len();
        let mut g: Vec<u16> = Vec::new();
        let mut i: usize = 0;
        while i < l.len()
            invariant
                i <= l@.len(),
                g@ == l@.subrange(0, i as int),
            decreases l@.len() - i,
        {
            g.push(l[i]);
            i += 1;
            assert(g@ =~= l@.subrange(0, i as int));
        }
        let mut z: usize = 0;
        while z < zeros
            invariant
                z <= zeros,
                i == l@.len(),
                g@ == l@ + Seq::new(z as nat, |i: int| 0u16),
            decreases zeros - z,
        {
            g.push(0);
            z += 1;
            assert(g@ =~= l@ + Seq::new(z as nat, |i: int| 0u16));
        }
        let mut j: usize = 0;
        while j < r.len()
            invariant
                j <= r@.len(),
                g@ == l@ + Seq::new(zeros as nat, |i: int| 0u16) + r@.subrange(0, j as int),
            decreases r@.len() - j,
        {
            g.push(r[j]);
            j += 1;
            assert(g@ =~= l@ + Seq::new(zeros as nat, |i: int| 0u16) + r@.subrange(0, j as int));
        }
        assert(r@.subrange(0, j as int) =~= r@);
        full = g;
    }
    let a = [full[0], full[1], full[2], full[3], full[4], full[5], full[6], full[7]];
    assert(a@ =~= full@);
    Some(a)
}

proof fn lemma_first_gap_pair(t: Seq<char>)
    ensures
        first_gap(t) <= t.len(),
        first_gap(t) < t.len() ==> first_gap(t) + 1 < t.len(),
    decreases t.len(),
{
    if t.len() >= 2 && !(t[0] == ':' && t[1] == ':') {
        lemma_first_gap_pair(t.drop_first());
    }
}

fn parse_port(cs: &Vec<char>, start: usize, end: usize) -> (r: Option<u16>)
    requires
        start <= end <= cs@.len(),
    ensures
        r is Some ==> port_text(cs@.subrange(start as int, end as int), r->Some_0),
        r is None ==> forall|p: u16| !port_text(cs@.subrange(start as int, end as int), p),
{
    let ghost sub = cs@.subrange(start as int, end as int);
    let mut acc: u32 = 0;
    let mut i = start;
    while i < end
        invariant
            start <= i <= end <= cs@.len(),
            sub == cs@.subrange(start as int, end as int),
            forall|k: int| start <= k < i ==> is_digit(cs@[k]),
            dec_value(cs@.subrange(start as int, i as int)) >= 0,
            dec_value(cs@.subrange(start as int, i as int)) < 65536 ==> acc == dec_value(
                cs@.subrange(start as int, i as int),
            ),
            dec_value(cs@.subrange(start as int, i as int)) >= 65536 ==> acc == 65536,
        decreases end - i,
    {
        let d = match digit_value(cs[i]) {
            Some(d) => d,
            None => {
                proof {
                    assert(sub[i - start] == cs@[i as int]);
                }
                return None;
            },
        };
        proof {
            let next = cs@.subrange(start as int, i + 1);
            assert(next.drop_last() =~= cs@.subrange(start as int, i as int));
            assert(next.last() == cs@[i as int]);
        }
        if acc >= 65536 {
            acc = 65536;
        } else {
            acc = acc * 10 + d as u32;
            if acc > 65536 {
                acc = 65536;
            }
        }
        i += 1;
    }
    proof {
        assert(cs@.subrange(start as int, i as int) == sub);
    }
    if i == start || acc >= 65536 {
        return None;
    }
    Some(acc as u16)
}

/// Reads `IPv4:port`, `[IPv6]:port`, or a bare IP with port 0 (the system
/// then picks the port).
pub fn parse_socket_addr(s: &str) -> (r: Result<SocketAddress, AddrError>)
    ensures
        r is Ok ==> reads_as(s@, r->Ok_0),
        r is Err ==> r == Err::<SocketAddress, AddrError>(AddrError::InvalidInput) && forall|
            addr: SocketAddress,
        | !reads_as(s@, addr),
{
    let cs = chars_of(s);
    let n = cs.len();
    proof {
        assert(cs@.subrange(0, n as int) =~= s@);
    }
    let c = find_char(&cs, 0, n, ':');
    if c < n {
        match (parse_ipv4(&cs, 0, c), parse_port(&cs, c + 1, n)) {
            (Some(a), Some(port)) => {
                proof {
                    assert(s@.subrange(0, c as int) == ipv4_text(a@));
                }
                return Ok(SocketAddress { ip: IpAddress::V4(a), port });
            },
            _ => {},
        }
    }
    let k = find_char(&cs, 0, n, ']');
    proof {
        lemma_first_index(s@, ']', k as int);
    }
    if n > 0 && cs[0] == '[' && k < n && k + 1 < n && cs[k + 1] == ':' {
        match (parse_ipv6(&cs, 1, k), parse_port(&cs, k + 2, n)) {
            (Some(g), Some(port)) => {
                return Ok(SocketAddress { ip: IpAddress::V6(g), port });
            },
            _ => {},
        }
    }
    if let Some(a) = parse_ipv4(&cs, 0, n) {
        return Ok(SocketAddress { ip: IpAddress::V4(a), port: 0 });
    }
    if let Some(g) = parse_ipv6(&cs, 0, n) {
        return Ok(SocketAddress { ip: IpAddress::V6(g), port: 0 });
    }
    proof {
        assert forall|addr: SocketAddress| !reads_as(s@, addr) by {
            if reads_as(s@, addr) {
                match addr.ip {
                    IpAddress::V4(o) => {
                        let a = o@;
                        assert(s@ != ipv4_text(a));
                        let k4 = choose|k4: int|
                            0 <= k4 < s@.len() && s@[k4] == ':' && #[trigger] s@.subrange(0, k4)
                                == ipv4_text(a) && port_text(
                                s@.subrange(k4 + 1, s@.len() as int),
                                addr.port,
                            );
                        lemma_ipv4_text_shape(a);
                        if c < k4 {
                            assert(s@.subrange(0, k4)[c as int] == s@[c as int]);
                        }
                        assert(c == k4);
                    },
                    IpAddress::V6(g) => {
                        assert(ipv6_of(s@) != Some(g@));
                    },
                }
            }
        }
    }
    Err(AddrError::InvalidInput)
}

/// An IPv4-mapped IPv6 address (`::ffff:a.b.c.d`) as the IPv4 address it
/// embeds; any other address as it is.
pub open spec fn canonical(ip: IpAddress) -> IpAddress {
    match ip {
        IpAddress::V6(g) => if g[0] == 0 && g[1] == 0 && g[2] == 0 && g[3] == 0 && g[4] == 0
            && g[5] == 0xffff {
            IpAddress::V4(
                [(g[6] / 256) as u8, (g[6] % 256) as u8, (g[7] / 256) as u8, (g[7] % 256) as u8],
            )
        } else {
            ip
        },
        IpAddress::V4(_) => ip,
    }
}

pub fn canonicalize(ip: IpAddress) -> (r: IpAddress)
    ensures
        r == canonical(ip),
{
    match ip {
        IpAddress::V6(g) => {
            if g[0] == 0 && g[1] == 0 && g[2] == 0 && g[3] == 0 && g[4] == 0 && g[5] == 0xffff {
                IpAddress::V4(
                    [(g[6] / 256) as u8, (g[6] % 256) as u8, (g[7] / 256) as u8, (g[7] % 256) as u8],
                )
            } else {
                ip
            }
        },
        IpAddress::V4(_) => ip,
    }
}

/// The endpoint a tunnel forwards to: the resolved address, canonicalised, with
/// the requested port.
pub fn destination_endpoint(ip: IpAddress, port: u16) -> (r: SocketAddress)
    ensures
        r == (SocketAddress { ip: canonical(ip), port }),
{
    SocketAddress { ip: canonicalize(ip), port }
}

/// How a UDP endpoint is opened for an address.
#[derive(PartialEq, Eq, Clone, Copy, Debug)]
pub enum SocketPlan {
    /// Bind an IPv4 socket directly.
    BindV4,
    /// Open an IPv6 socket with the v6-only option off, then bind.
    DualStackV6,
}

pub fn socket_plan(addr: &SocketAddress) -> (r: SocketPlan)
    ensures
        addr.ip is V4 <==> r == SocketPlan::BindV4,
{
    match addr.ip {
        IpAddress::V4(_) => SocketPlan::BindV4,
        IpAddress::V6(_) => SocketPlan::DualStackV6,
    }
}

fn digit_str(d: u8) -> (r: &'static str)
    requires
        d < 10,
    ensures
        r@ == seq![digit(d)],
{
    proof {
        reveal_strlit("0");
        reveal_strlit("1");
        reveal_strlit("2");
        reveal_strlit("3");
        reveal_strlit("4");
        reveal_strlit("5");
        reveal_strlit("6");
        reveal_strlit("7");
        reveal_strlit("8");
        reveal_strlit("9");
    }
    let r = match d {
        0 => "0",
        1 => "1",
        2 => "2",
        3 => "3",
        4 => "4",
        5 => "5",
        6 => "6",
        7 => "7",
        8 => "8",
        _ => "9",
    };
    assert(r@ =~= seq![digit(d)]);
    r
}

fn push_octet(out: &mut String, v: u8)
    ensures
        final(out)@ == old(out)@ + octet_text(v),
{
    if v >= 100 {
        out.append(digit_str(v / 100));
    }
    if v >= 10 {
        out.append(digit_str((v / 10) % 10));
    }
    out.append(digit_str(v % 10));
    assert(out@ =~= old(out)@ + octet_text(v));
}

/// The dotted-decimal text of an IPv4 address.
pub fn render_ipv4(a: [u8; 4]) -> (r: String)
    ensures
        r@ == ipv4_text(a@),
{
    proof {
        reveal_strlit(".");
    }
    let mut out = String::new();
    push_octet(&mut out, a[0]);
    out.append(".");
    push_octet(&mut out, a[1]);
    out.append(".");
    push_octet(&mut out, a[2]);
    out.append(".");
    push_octet(&mut out, a[3]);
    assert(out@ =~= ipv4_text(a@));
    out
}

/// A network interface as the bind-address choice sees it.
#[derive(Clone, Debug)]
pub struct InterfaceInfo {
    pub is_up: bool,
    pub is_loopback: bool,
    pub ips: Vec<IpAddress>,
}

pub open spec fn usable(i: InterfaceInfo) -> bool {
    i.is_up && !i.is_loopback && i.ips@.len() > 0
}

/// The first IPv4 address of a list, if any.
pub open spec fn first_v4(ips: Seq<IpAddress>) -> Option<[u8; 4]>
    decreases ips.len(),
{
    if ips.len() == 0 {
        None
    } else if ips[0] is V4 {
        Some(ips[0]->V4_0)
    } else {
        first_v4(ips.drop_first())
    }
}

/// The bind address chosen on an interface: its first IPv4 address, or
/// `0.0.0.0:0` where it has none.
pub open spec fn bind_text(ips: Seq<IpAddress>) -> Seq<char> {
    match first_v4(ips) {
        Some(a) => ipv4_text(a@),
        None => "0.0.0.0:0"@,
    }
}

fn first_v4_of(ips: &Vec<IpAddress>) -> (r: Option<[u8; 4]>)
    ensures
        r == first_v4(ips@),
{
    let mut i: usize = 0;
    assert(ips@.subrange(0, ips@.len() as int) =~= ips@);
    while i < ips.len()
        invariant
            i <= ips@.len(),
            first_v4(ips@) == first_v4(ips@.subrange(i as int, ips@.len() as int)),
        decreases ips@.len() - i,
    {
        proof {
            let rest = ips@.subrange(i as int, ips@.len() as int);
            assert(rest.drop_first() =~= ips@.subrange(i + 1, ips@.len() as int));
            assert(rest[0] == ips@[i as int]);
        }
        match ips[i] {
            IpAddress::V4(a) => {
                return Some(a);
            },
            IpAddress::V6(_) => {},
        }
        i += 1;
    }
    None
}

/// The default bind address: on the first interface that is up, not loopback
/// and has an address, its first IPv4 address; `0.0.0.0:0` where it has none.
/// `None` where no interface qualifies.
pub fn default_bind_address(interfaces: &Vec<InterfaceInfo>) -> (r: Option<String>)
    ensures
        r is None <==> forall|i: int| 0 <= i < interfaces@.len() ==> !usable(#[trigger] interfaces@[i]),
        r is Some ==> exists|i: int|
            0 <= i < interfaces@.len() && usable(#[trigger] interfaces@[i]) && (forall|j: int|
                0 <= j < i ==> !usable(interfaces@[j])) && r->Some_0@ == bind_text(interfaces@[i].ips@),
{
    let mut i: usize = 0;
    while i < interfaces.len()
        invariant
            i <= interfaces@.len(),
            forall|j: int| 0 <= j < i ==> !usable(#[trigger] interfaces@[j]),
        decreases interfaces@.len() - i,
    {
        let it = &interfaces[i];
        if it.is_up && !it.is_loopback && it.ips.len() > 0 {
            let r = match first_v4_of(&it.ips) {
                Some(a) => render_ipv4(a),
                None => {
                    proof {
                        reveal_strlit("0.0.0.0:0");
                    }
                    "0.0.0.0:0".to_string()
                },
            };
            assert(usable(interfaces@[i as int]));
            return Some(r);
        }
        i += 1;
    }
    None
}

} // verus!
