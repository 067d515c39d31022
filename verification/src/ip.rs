//! IP addresses in their text forms: dotted-quad IPv4 and colon-separated
//! IPv6 (with `::` for a run of zero groups and an optional embedded IPv4
//! tail), read exactly as `IpAddr`'s `FromStr` reads them.
use vstd::prelude::*;
use crate::text::chars_of;

verus! {

/// An IP address.
#[derive(Clone, Copy, Debug, PartialEq, Eq)]
pub enum IpAddress {
    V4([u8; 4]),
    V6([u8; 16]),
}

/// The bytes of an address: four for IPv4, sixteen for IPv6.
pub open spec fn ip_bytes(a: IpAddress) -> Seq<u8> {
    match a {
        IpAddress::V4(b) => b@,
        IpAddress::V6(b) => b@,
    }
}

/// An ASCII decimal digit.
pub open spec fn is_ascii_digit(c: char) -> bool {
    48 <= c as u32 <= 57
}

/// Number of leading ASCII digits of `s`.
pub open spec fn digit_run_len(s: Seq<char>) -> nat
    decreases s.len(),
{
    if s.len() > 0 && is_ascii_digit(s[0]) {
        1 + digit_run_len(s.drop_first())
    } else {
        0
    }
}

/// The value of a run of ASCII digits in decimal.
pub open spec fn digits_value(g: Seq<char>) -> int
    decreases g.len(),
{
    if g.len() == 0 {
        0
    } else {
        digits_value(g.drop_last()) * 10 + (g.last() as u32 - 48)
    }
}

/// A run of digits as one part of a dotted-quad IPv4 address: one to three
/// digits, no leading zero unless the part is `0` itself, at most 255.
pub open spec fn octet_of(g: Seq<char>) -> Option<u8> {
    if 1 <= g.len() <= 3 && !(g.len() > 1 && g[0] == '0') && digits_value(g) <= 255 {
        Some(digits_value(g) as u8)
    } else {
        None
    }
}

/// `n` dot-separated parts of a dotted-quad address at the start of `s`, each
/// part the whole run of digits there: their values and how many characters
/// they take.
pub open spec fn ipv4_prefix(s: Seq<char>, n: nat) -> Option<(Seq<u8>, int)>
    decreases n,
{
    if n == 0 {
        None
    } else {
        let k = digit_run_len(s);
        match octet_of(s.take(k as int)) {
            None => None,
            Some(v) => if n == 1 {
                Some((seq![v], k as int))
            } else if k < s.len() && s[k as int] == '.' {
                match ipv4_prefix(s.skip(k + 1 as int), (n - 1) as nat) {
                    Some((r, m)) => Some((seq![v] + r, k + 1 + m)),
                    None => None,
                }
            } else {
                None
            },
        }
    }
}

/// The four bytes of the IPv4 address that `s` spells out in dotted-quad
/// form (four parts of one to three decimal digits, no leading zeros, each
/// at most 255, separated by dots, nothing else).
pub open spec fn parse_ipv4_spec(s: Seq<char>) -> Option<Seq<u8>> {
    match ipv4_prefix(s, 4) {
        Some((b, m)) => if m == s.len() {
            Some(b)
        } else {
            None
        },
        None => None,
    }
}

/// An ASCII hexadecimal digit, in either case.
pub open spec fn is_hex_digit(c: char) -> bool {
    ||| is_ascii_digit(c)
    ||| 97 <= c as u32 <= 102
    ||| 65 <= c as u32 <= 70
}

/// The value of a hexadecimal digit.
pub open spec fn hex_digit_value(c: char) -> int {
    if is_ascii_digit(c) {
        c as u32 - 48
    } else if 97 <= c as u32 <= 102 {
        c as u32 - 87
    } else {
        c as u32 - 55
    }
}

/// Number of leading hexadecimal digits of `s`.
pub open spec fn hex_run_len(s: Seq<char>) -> nat
    decreases s.len(),
{
    if s.len() > 0 && is_hex_digit(s[0]) {
        1 + hex_run_len(s.drop_first())
    } else {
        0
    }
}

/// The value of a run of hexadecimal digits.
pub open spec fn hex_value(g: Seq<char>) -> int
    decreases g.len(),
{
    if g.len() == 0 {
        0
    } else {
        hex_value(g.drop_last()) * 16 + hex_digit_value(g.last())
    }
}

/// One group of an IPv6 address at the start of `s`: the whole run of
/// hexadecimal digits there, one to four of them (leading zeros allowed),
/// with its value and length.
pub open spec fn hex_group(s: Seq<char>) -> Option<(u16, int)> {
    let k = hex_run_len(s);
    if 1 <= k <= 4 {
        Some((hex_value(s.take(k as int)) as u16, k as int))
    } else {
        None
    }
}

/// The 16-bit group made of two bytes, the first the high one.
pub open spec fn be_u16(hi: u8, lo: u8) -> u16 {
    (hi as int * 256 + lo as int) as u16
}

/// The colon-separated groups that follow at the start of `s` when they are
/// read as groups `i` up to `limit` (exclusive) of an IPv6 address: every
/// group but the first is preceded by `:`; while two or more groups are left
/// a dotted-quad IPv4 address may stand for the next two, and ends the run.
/// The result is the groups, whether an IPv4 address ended them, and how many
/// characters they take. Reading stops before a separator that is not
/// followed by a group.
pub open spec fn ipv6_groups(s: Seq<char>, i: nat, limit: nat) -> (Seq<u16>, bool, int)
    decreases limit - i,
{
    if i >= limit || (i > 0 && !(s.len() > 0 && s[0] == ':')) {
        (Seq::empty(), false, 0)
    } else {
        let off: int = if i == 0 {
            0
        } else {
            1
        };
        let rest = s.skip(off);
        match (if i + 1 < limit {
            ipv4_prefix(rest, 4)
        } else {
            None
        }) {
            Some((b, m)) => (seq![be_u16(b[0], b[1]), be_u16(b[2], b[3])], true, off + m),
            None => match hex_group(rest) {
                None => (Seq::empty(), false, 0),
                Some((g, m)) => {
                    let t = ipv6_groups(rest.skip(m), i + 1, limit);
                    (seq![g] + t.0, t.1, off + m + t.2)
                },
            },
        }
    }
}

/// `n` zero groups.
pub open spec fn zero_groups(n: nat) -> Seq<u16> {
    Seq::new(n, |k: int| 0u16)
}

/// The eight groups of the IPv6 address that `s` spells out: either eight
/// groups outright, or the groups before a `::`, as many zero groups as make
/// eight (at least one), and the groups after it; an embedded IPv4 address
/// may only stand at the very end. Nothing else may follow.
pub open spec fn parse_ipv6_spec(s: Seq<char>) -> Option<Seq<u16>> {
    let (head, head_v4, hc) = ipv6_groups(s, 0, 8);
    if head.len() == 8 {
        if hc == s.len() {
            Some(head)
        } else {
            None
        }
    } else if head_v4 {
        None
    } else {
        let r = s.skip(hc);
        if r.len() >= 2 && r[0] == ':' && r[1] == ':' {
            let (tail, tail_v4, tc) = ipv6_groups(r.skip(2), 0, (7 - head.len()) as nat);
            if hc + 2 + tc == s.len() {
                Some(head + zero_groups((8 - head.len() - tail.len()) as nat) + tail)
            } else {
                None
            }
        } else {
            None
        }
    }
}

/// The bytes of a sequence of groups, each group high byte first.
pub open spec fn groups_bytes(g: Seq<u16>) -> Seq<u8> {
    Seq::new(2 * g.len(), |k: int| if k % 2 == 0 {
        (g[k / 2] / 256) as u8
    } else {
        (g[k / 2] % 256) as u8
    })
}

/// The sixteen bytes of the IPv6 address that `s` spells out, if it does.
pub open spec fn parse_ipv6_bytes(s: Seq<char>) -> Option<Seq<u8>> {
    match parse_ipv6_spec(s) {
        Some(g) => Some(groups_bytes(g)),
        None => None,
    }
}

/// The bytes of the IP address that `s` spells out, as `IpAddr`'s `FromStr`
/// reads it: when `s` starts with a dotted-quad address it is IPv4 and must
/// end there; otherwise it is read as IPv6.
pub open spec fn parse_ip_spec(s: Seq<char>) -> Option<Seq<u8>> {
    if ipv4_prefix(s, 4) is Some {
        parse_ipv4_spec(s)
    } else {
        parse_ipv6_bytes(s)
    }
}

/// Whether `c` is an ASCII decimal digit.
fn char_is_ascii_digit(c: char) -> (b: bool)
    ensures
        b == is_ascii_digit(c),
{
    let u = c as u32;
    48 <= u && u <= 57
}

proof fn lemma_digit_run_len(s: Seq<char>, e: int)
    requires
        0 <= e <= s.len(),
        forall|k: int| 0 <= k < e ==> is_ascii_digit(#[trigger] s[k]),
        e < s.len() ==> !is_ascii_digit(s[e]),
    ensures
        digit_run_len(s) == e,
    decreases e,
{
    if e > 0 {
        let t = s.drop_first();
        assert forall|k: int| 0 <= k < e - 1 implies is_ascii_digit(#[trigger] t[k]) by {
            assert(t[k] == s[k + 1]);
        }
        if e < s.len() {
            assert(t[e - 1] == s[e]);
        }
        lemma_digit_run_len(t, e - 1);
    }
}

/// The part of a dotted-quad address made by the run of digits at `start`,
/// and where that run ends.
fn octet_at(cs: &Vec<char>, start: usize) -> (r: Option<(u8, usize)>)
    requires
        start <= cs@.len(),
    ensures
        ({
            let s = cs@.skip(start as int);
            let k = digit_run_len(s);
            &&& start + k <= cs@.len()
            &&& match r {
                Some((v, end)) => end == start + k && octet_of(s.take(k as int)) == Some(v),
                None => octet_of(s.take(k as int)) is None,
            }
        }),
{
    let len = cs.len();
    let mut end: usize = start;
    while end < len
        invariant
            start <= end <= len,
            len == cs@.len(),
            forall|k: int| start <= k < end ==> is_ascii_digit(#[trigger] cs@[k]),
        ensures
            start <= end <= len,
            forall|k: int| start <= k < end ==> is_ascii_digit(#[trigger] cs@[k]),
            end < len ==> !is_ascii_digit(cs@[end as int]),
        decreases len - end,
    {
        if !char_is_ascii_digit(cs[end]) {
            break;
        }
        end = end + 1;
    }
    let ghost t = cs@.skip(start as int);
    let ghost g = cs@.subrange(start as int, end as int);
    proof {
        assert forall|k: int| 0 <= k < end - start implies is_ascii_digit(#[trigger] t[k]) by {
            assert(t[k] == cs@[k + start]);
        }
        if end < len {
            assert(t[end - start] == cs@[end as int]);
        }
        lemma_digit_run_len(t, end - start);
        assert(t.take(end - start) =~= g);
    }
    let k = end - start;
    if k == 0 || k > 3 {
        return None;
    }
    if k > 1 && cs[start] == '0' {
        assert(g[0] == '0');
        return None;
    }
    let mut v: u32 = 0;
    let mut i: usize = start;
    while i < end
        invariant
            start <= i <= end,
            end - start <= 3,
            end <= len,
            len == cs@.len(),
            g == cs@.subrange(start as int, end as int),
            forall|m: int| start <= m < end ==> is_ascii_digit(#[trigger] cs@[m]),
            v == digits_value(cs@.subrange(start as int, i as int)),
            i - start == 0 ==> v == 0,
            i - start == 1 ==> v < 10,
            i - start == 2 ==> v < 100,
            i - start == 3 ==> v < 1000,
        decreases end - i,
    {
        assert(is_ascii_digit(cs@[i as int]));
        let d = (cs[i] as u32) - 48;
        proof {
            assert(cs@.subrange(start as int, i + 1).drop_last() =~= cs@.subrange(start as int, i as int));
            assert(cs@.subrange(start as int, i + 1).last() == cs@[i as int]);
        }
        v = v * 10 + d;
        i = i + 1;
    }
    if v > 255 {
        return None;
    }
    Some((v as u8, end))
}

/// The `n` parts of a dotted-quad address at `start` in `cs`, and where they
/// end.
fn ipv4_prefix_from(cs: &Vec<char>, start: usize, n: usize) -> (r: Option<(Vec<u8>, usize)>)
    requires
        start <= cs@.len(),
        1 <= n <= 4,
    ensures
        match r {
            Some((v, end)) => {
                &&& start <= end <= cs@.len()
                &&& v@.len() == n
                &&& ipv4_prefix(cs@.skip(start as int), n as nat) == Some((v@, end - start))
            },
            None => ipv4_prefix(cs@.skip(start as int), n as nat) is None,
        },
    decreases n,
{
    let ghost s = cs@.skip(start as int);
    let (octet, end) = match octet_at(cs, start) {
        None => {
            return None;
        },
        Some(p) => p,
    };
    if n == 1 {
        let mut r: Vec<u8> = Vec::new();
        r.push(octet);
        return Some((r, end));
    }
    if end < cs.len() && cs[end] == '.' {
        proof {
            assert(s[end - start] == cs@[end as int]);
            assert(s.skip(end - start + 1) =~= cs@.skip(end + 1));
        }
        match ipv4_prefix_from(cs, end + 1, n - 1) {
            Some((mut rest, e)) => {
                let mut r: Vec<u8> = Vec::new();
                r.push(octet);
                r.append(&mut rest);
                Some((r, e))
            },
            None => None,
        }
    } else {
        if end < cs.len() {
            assert(s[end - start] == cs@[end as int]);
        }
        None
    }
}

/// The value of `c` as a hexadecimal digit, if it is one.
fn hex_digit(c: char) -> (r: Option<u32>)
    ensures
        match r {
            Some(d) => is_hex_digit(c) && d == hex_digit_value(c) && d < 16,
            None => !is_hex_digit(c),
        },
{
    let u = c as u32;
    if 48 <= u && u <= 57 {
        Some(u - 48)
    } else if 97 <= u && u <= 102 {
        Some(u - 87)
    } else if 65 <= u && u <= 70 {
        Some(u - 55)
    } else {
        None
    }
}

proof fn lemma_hex_run_len(s: Seq<char>, e: int)
    requires
        0 <= e <= s.len(),
        forall|k: int| 0 <= k < e ==> is_hex_digit(#[trigger] s[k]),
        e < s.len() ==> !is_hex_digit(s[e]),
    ensures
        hex_run_len(s) == e,
    decreases e,
{
    if e > 0 {
        let t = s.drop_first();
        assert forall|k: int| 0 <= k < e - 1 implies is_hex_digit(#[trigger] t[k]) by {
            assert(t[k] == s[k + 1]);
        }
        if e < s.len() {
            assert(t[e - 1] == s[e]);
        }
        lemma_hex_run_len(t, e - 1);
    }
}

/// The IPv6 group made by the run of hexadecimal digits at `start`, and
/// where that run ends.
fn hex_group_at(cs: &Vec<char>, start: usize) -> (r: Option<(u16, usize)>)
    requires
        start <= cs@.len(),
    ensures
        match r {
            Some((g, end)) => {
                &&& start < end <= cs@.len()
                &&& hex_group(cs@.skip(start as int)) == Some((g, end - start))
            },
            None => hex_group(cs@.skip(start as int)) is None,
        },
{
    let len = cs.len();
    let mut end: usize = start;
    while end < len
        invariant
            start <= end <= len,
            len == cs@.len(),
            forall|k: int| start <= k < end ==> is_hex_digit(#[trigger] cs@[k]),
        ensures
            start <= end <= len,
            forall|k: int| start <= k < end ==> is_hex_digit(#[trigger] cs@[k]),
            end < len ==> !is_hex_digit(cs@[end as int]),
        decreases len - end,
    {
        if let None = hex_digit(cs[end]) {
            break;
        }
        end = end + 1;
    }
    let ghost t = cs@.skip(start as int);
    let ghost g = cs@.subrange(start as int, end as int);
    proof {
        assert forall|k: int| 0 <= k < end - start implies is_hex_digit(#[trigger] t[k]) by {
            assert(t[k] == cs@[k + start]);
        }
        if end < len {
            assert(t[end - start] == cs@[end as int]);
        }
        lemma_hex_run_len(t, end - start);
        assert(t.take(end - start) =~= g);
    }
    let k = end - start;
    if k == 0 || k > 4 {
        return None;
    }
    let mut v: u32 = 0;
    let mut i: usize = start;
    while i < end
        invariant
            start <= i <= end,
            end - start <= 4,
            end <= len,
            len == cs@.len(),
            forall|m: int| start <= m < end ==> is_hex_digit(#[trigger] cs@[m]),
            v == hex_value(cs@.subrange(start as int, i as int)),
            i - start == 0 ==> v == 0,
            i - start == 1 ==> v < 16,
            i - start == 2 ==> v < 256,
            i - start == 3 ==> v < 4096,
            i - start == 4 ==> v < 65536,
        decreases end - i,
    {
        assert(is_hex_digit(cs@[i as int]));
        let d = match hex_digit(cs[i]) {
            Some(d) => d,
            None => 0,
        };
        proof {
            assert(cs@.subrange(start as int, i + 1).drop_last() =~= cs@.subrange(start as int, i as int));
            assert(cs@.subrange(start as int, i + 1).last() == cs@[i as int]);
        }
        v = v * 16 + d;
        i = i + 1;
    }
    Some((v as u16, end))
}

/// The group made of two bytes, the first the high one.
fn u16_of_bytes(hi: u8, lo: u8) -> (r: u16)
    ensures
        r == be_u16(hi, lo),
{
    (hi as u16) * 256 + (lo as u16)
}

/// The groups of an IPv6 address at `pos` in `cs` read as groups `i` up to
/// `limit`, whether an IPv4 address ended them, and where they end.
fn ipv6_groups_from(cs: &Vec<char>, pos: usize, i: usize, limit: usize) -> (r: (Vec<u16>, bool, usize))
    requires
        pos <= cs@.len(),
        i <= limit <= 8,
    ensures
        pos <= r.2 <= cs@.len(),
        r.0@.len() <= limit - i,
        ipv6_groups(cs@.skip(pos as int), i as nat, limit as nat) == (r.0@, r.1, r.2 - pos),
    decreases limit - i,
{
    let ghost s = cs@.skip(pos as int);
    if i >= limit {
        return (Vec::new(), false, pos);
    }
    let mut p: usize = pos;
    if i > 0 {
        if pos < cs.len() && cs[pos] == ':' {
            p = pos + 1;
        } else {
            proof {
                if pos < cs@.len() {
                    assert(s[0] == cs@[pos as int]);
                }
            }
            return (Vec::new(), false, pos);
        }
    }
    proof {
        if i > 0 {
            assert(s[0] == cs@[pos as int]);
        }
        assert(s.skip(p - pos) =~= cs@.skip(p as int));
    }
    if i + 1 < limit {
        if let Some((b, e)) = ipv4_prefix_from(cs, p, 4) {
            let mut g: Vec<u16> = Vec::new();
            g.push(u16_of_bytes(b[0], b[1]));
            g.push(u16_of_bytes(b[2], b[3]));
            assert(g@ =~= seq![be_u16(b@[0], b@[1]), be_u16(b@[2], b@[3])]);
            return (g, true, e);
        }
    }
    match hex_group_at(cs, p) {
        None => (Vec::new(), false, pos),
        Some((h, e)) => {
            proof {
                assert(cs@.skip(p as int).skip(e - p) =~= cs@.skip(e as int));
            }
            let (mut t, f, e2) = ipv6_groups_from(cs, e, i + 1, limit);
            let mut g: Vec<u16> = Vec::new();
            g.push(h);
            g.append(&mut t);
            (g, f, e2)
        },
    }
}

/// The four bytes of a dotted-quad IPv4 address that fills `cs`.
fn ipv4_of_chars(cs: &Vec<char>) -> (r: Option<[u8; 4]>)
    ensures
        match r {
            Some(a) => parse_ipv4_spec(cs@) == Some(a@),
            None => parse_ipv4_spec(cs@) is None,
        },
{
    assert(cs@.skip(0) =~= cs@);
    match ipv4_prefix_from(cs, 0, 4) {
        Some((v, end)) => if end == cs.len() {
            let a: [u8; 4] = [v[0], v[1], v[2], v[3]];
            assert(a@ =~= v@);
            Some(a)
        } else {
            None
        },
        None => None,
    }
}

/// The four bytes of the IPv4 address that `s` spells out in dotted-quad
/// form, if it does.
pub fn parse_ipv4(s: &str) -> (r: Option<[u8; 4]>)
    ensures
        match r {
            Some(a) => parse_ipv4_spec(s@) == Some(a@),
            None => parse_ipv4_spec(s@) is None,
        },
{
    let cs = chars_of(s);
    ipv4_of_chars(&cs)
}

/// The eight groups of the IPv6 address that fills `cs`.
fn ipv6_groups_of_chars(cs: &Vec<char>) -> (r: Option<Vec<u16>>)
    ensures
        match r {
            Some(g) => g@.len() == 8 && parse_ipv6_spec(cs@) == Some(g@),
            None => parse_ipv6_spec(cs@) is None,
        },
{
    assert(cs@.skip(0) =~= cs@);
    let (mut head, head_v4, hc) = ipv6_groups_from(cs, 0, 0, 8);
    if head.len() == 8 {
        if hc == cs.len() {
            return Some(head);
        }
        return None;
    }
    if head_v4 {
        return None;
    }
    let ghost r = cs@.skip(hc as int);
    if !(cs.len() - hc >= 2 && cs[hc] == ':' && cs[hc + 1] == ':') {
        proof {
            if hc + 2 <= cs@.len() {
                assert(r[0] == cs@[hc as int] && r[1] == cs@[hc + 1]);
            }
        }
        return None;
    }
    proof {
        assert(r[0] == cs@[hc as int] && r[1] == cs@[hc + 1]);
        assert(r.skip(2) =~= cs@.skip(hc + 2));
    }
    let limit = 7 - head.len();
    let (mut tail, _tail_v4, tc) = ipv6_groups_from(cs, hc + 2, 0, limit);
    if tc != cs.len() {
        return None;
    }
    let zeros = 8 - head.len() - tail.len();
    let ghost h0 = head@;
    let mut j: usize = 0;
    while j < zeros
        invariant
            j <= zeros,
            head@ == h0 + zero_groups(j as nat),
        decreases zeros - j,
    {
        head.push(0);
        j = j + 1;
        assert(head@ =~= h0 + zero_groups(j as nat));
    }
    head.append(&mut tail);
    Some(head)
}

/// The sixteen bytes of eight groups, each group high byte first.
fn groups_to_bytes(g: &Vec<u16>) -> (a: [u8; 16])
    requires
        g@.len() == 8,
    ensures
        a@ == groups_bytes(g@),
{
    let ghost want = groups_bytes(g@);
    let mut v: Vec<u8> = Vec::new();
    let mut j: usize = 0;
    while j < 8
        invariant
            j <= 8,
            g@.len() == 8,
            want == groups_bytes(g@),
            v@.len() == 2 * j,
            forall|k: int| 0 <= k < 2 * j ==> v@[k] == want[k],
        decreases 8 - j,
    {
        assert(want[2 * j as int] == (g@[j as int] / 256) as u8);
        assert(want[2 * j + 1] == (g@[j as int] % 256) as u8);
        v.push((g[j] / 256) as u8);
        v.push((g[j] % 256) as u8);
        j = j + 1;
    }
    let a: [u8; 16] = [
        v[0], v[1], v[2], v[3], v[4], v[5], v[6], v[7],
        v[8], v[9], v[10], v[11], v[12], v[13], v[14], v[15],
    ];
    assert(a@ =~= want);
    a
}

/// The sixteen bytes of the IPv6 address that `s` spells out, if it does.
pub fn parse_ipv6(s: &str) -> (r: Option<[u8; 16]>)
    ensures
        match r {
            Some(a) => parse_ipv6_bytes(s@) == Some(a@),
            None => parse_ipv6_bytes(s@) is None,
        },
{
    let cs = chars_of(s);
    match ipv6_groups_of_chars(&cs) {
        Some(g) => Some(groups_to_bytes(&g)),
        None => None,
    }
}

/// The IP address that `s` spells out, if it does: IPv4 when `s` starts with
/// a dotted-quad address, IPv6 otherwise.
pub fn parse_ip(s: &str) -> (r: Option<IpAddress>)
    ensures
        match r {
            Some(a) => parse_ip_spec(s@) == Some(ip_bytes(a)),
            None => parse_ip_spec(s@) is None,
        },
{
    let cs = chars_of(s);
    assert(cs@.skip(0) =~= cs@);
    match ipv4_prefix_from(&cs, 0, 4) {
        Some((v, end)) => if end == cs.len() {
            let a: [u8; 4] = [v[0], v[1], v[2], v[3]];
            assert(a@ =~= v@);
            Some(IpAddress::V4(a))
        } else {
            None
        },
        None => match ipv6_groups_of_chars(&cs) {
            Some(g) => Some(IpAddress::V6(groups_to_bytes(&g))),
            None => None,
        },
    }
}

} // verus!
