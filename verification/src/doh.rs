//! DNS over HTTPS: what the worker keeps of an answer, and the per-host
//! answer cache that honours the smallest TTL of the answer's A records.
use vstd::prelude::*;
use crate::consts::NANOS_PER_SEC;
use vstd::utf8::encode_utf8;
use crate::primitives::{base64_decode, base64_standard_decode, ech_config_from_list, ech_config_list_supported};
use crate::text::{prefixed_word_value, prefixed_word_value_of};
pub use crate::ip::IpAddress;
use crate::ip::{ip_bytes, parse_ip, parse_ip_spec};

verus! {

/// DNS record type of an IPv4 address record.
pub const A_RECORD: u16 = 1;

/// One answer of a DNS-over-HTTPS reply, with its data as text.
#[derive(Debug)]
pub struct DohAnswer {
    pub record_type: u16,
    pub ttl: u64,
    pub data: String,
}

/// A DNS-over-HTTPS reply.
#[derive(Debug)]
pub struct DohResponse {
    pub answer: Option<Vec<DohAnswer>>,
}

/// One answer of a DNS-over-HTTPS reply, with its data parsed as an IP
/// address where it is one.
#[derive(Clone, Copy, Debug)]
pub struct AnswerRecord {
    pub record_type: u16,
    pub ttl: u64,
    pub address: Option<IpAddress>,
}

/// The resolver that answers host lookups over DNS over HTTPS.
pub struct DohResolver;

impl DohResolver {
    /// A resolver.
    pub fn new() -> (r: Self)
        ensures
            r == DohResolver,
    {
        DohResolver
    }
}

/// The addresses of the A records among `answers` whose data is an address,
/// in order.
pub open spec fn a_record_addresses(answers: Seq<AnswerRecord>) -> Seq<IpAddress>
    decreases answers.len(),
{
    if answers.len() == 0 {
        Seq::empty()
    } else {
        let before = a_record_addresses(answers.drop_last());
        let r = answers.last();
        if r.record_type == A_RECORD && r.address is Some {
            before.push(r.address->0)
        } else {
            before
        }
    }
}

/// The smallest TTL among the A records of `answers`, if there is an A record.
pub open spec fn a_record_min_ttl(answers: Seq<AnswerRecord>) -> Option<u64>
    decreases answers.len(),
{
    if answers.len() == 0 {
        None
    } else {
        let before = a_record_min_ttl(answers.drop_last());
        let r = answers.last();
        if r.record_type == A_RECORD {
            match before {
                None => Some(r.ttl),
                Some(m) => Some(if r.ttl < m { r.ttl } else { m }),
            }
        } else {
            before
        }
    }
}

/// The minimum TTL is that of some A record and is no larger than the TTL of
/// any A record; it exists exactly when there is an A record.
pub proof fn lemma_min_ttl_is_minimum(answers: Seq<AnswerRecord>)
    ensures
        a_record_min_ttl(answers) is Some <==> exists|i: int|
            0 <= i < answers.len() && #[trigger] answers[i].record_type == A_RECORD,
        a_record_min_ttl(answers) matches Some(m) ==> {
            &&& forall|i: int|
                0 <= i < answers.len() && #[trigger] answers[i].record_type == A_RECORD ==> m
                    <= answers[i].ttl
            &&& exists|i: int|
                0 <= i < answers.len() && #[trigger] answers[i].record_type == A_RECORD
                    && answers[i].ttl == m
        },
    decreases answers.len(),
{
    if answers.len() > 0 {
        let p = answers.drop_last();
        lemma_min_ttl_is_minimum(p);
        let n = answers.len() - 1;
        assert forall|i: int| 0 <= i < n implies answers[i] == p[i] by {}
        if a_record_min_ttl(p) is Some {
            let j = choose|j: int| 0 <= j < p.len() && #[trigger] p[j].record_type == A_RECORD;
            assert(answers[j].record_type == A_RECORD);
            let m = a_record_min_ttl(p)->0;
            let k = choose|k: int|
                0 <= k < p.len() && #[trigger] p[k].record_type == A_RECORD && p[k].ttl == m;
            assert(answers[k].record_type == A_RECORD && answers[k].ttl == m);
        }
        if answers[n].record_type == A_RECORD {
            assert(answers[n].record_type == A_RECORD);
        }
    }
}

/// The addresses of the A records among `answers`, in order.
pub fn addresses_of(answers: &Vec<AnswerRecord>) -> (r: Vec<IpAddress>)
    ensures
        r@ == a_record_addresses(answers@),
{
    let mut r: Vec<IpAddress> = Vec::new();
    let n = answers.len();
    let mut i: usize = 0;
    while i < n
        invariant
            i <= n,
            n == answers@.len(),
            r@ == a_record_addresses(answers@.take(i as int)),
        decreases n - i,
    {
        let rec = answers[i];
        if rec.record_type == A_RECORD {
            if let Some(a) = rec.address {
                r.push(a);
            }
        }
        proof {
            assert(answers@.take(i + 1).drop_last() =~= answers@.take(i as int));
        }
        i = i + 1;
    }
    assert(answers@.take(n as int) =~= answers@);
    r
}

/// The smallest TTL among the A records of `answers`.
pub fn min_a_record_ttl(answers: &Vec<AnswerRecord>) -> (r: Option<u64>)
    ensures
        r == a_record_min_ttl(answers@),
{
    let mut r: Option<u64> = None;
    let n = answers.len();
    let mut i: usize = 0;
    while i < n
        invariant
            i <= n,
            n == answers@.len(),
            r == a_record_min_ttl(answers@.take(i as int)),
        decreases n - i,
    {
        let rec = answers[i];
        if rec.record_type == A_RECORD {
            r = match r {
                None => Some(rec.ttl),
                Some(m) => Some(if rec.ttl < m { rec.ttl } else { m }),
            };
        }
        proof {
            assert(answers@.take(i + 1).drop_last() =~= answers@.take(i as int));
        }
        i = i + 1;
    }
    assert(answers@.take(n as int) =~= answers@);
    r
}

/// What the cache keeps of one host.
pub struct HostRecord {
    pub stored_at_ns: u64,
    pub addrs: Seq<IpAddress>,
    pub min_ttl: u64,
}

/// Whether an entry stored at `stored_at_ns` with TTL `min_ttl` seconds is
/// still to be served at `now_ns`: no more than the TTL has passed since it
/// was stored (a clock that reads earlier than the entry counts as no time).
pub open spec fn is_fresh(stored_at_ns: u64, min_ttl: u64, now_ns: u64) -> bool {
    let elapsed: int = if now_ns >= stored_at_ns { now_ns - stored_at_ns } else { 0 };
    elapsed <= min_ttl * 1_000_000_000
}

/// What a lookup of `host` at `now_ns` answers.
pub open spec fn cache_answer(m: Map<Seq<char>, HostRecord>, host: Seq<char>, now_ns: u64) -> Option<Seq<IpAddress>> {
    if m.contains_key(host) && is_fresh(m[host].stored_at_ns, m[host].min_ttl, now_ns) {
        Some(m[host].addrs)
    } else {
        None
    }
}

/// The cache after a lookup of `host` at `now_ns`: a stale entry for the host
/// is dropped, nothing else changes.
pub open spec fn cache_after_lookup(m: Map<Seq<char>, HostRecord>, host: Seq<char>, now_ns: u64) -> Map<Seq<char>, HostRecord> {
    if m.contains_key(host) && !is_fresh(m[host].stored_at_ns, m[host].min_ttl, now_ns) {
        m.remove(host)
    } else {
        m
    }
}

/// The cache after the answers of a reply for `host` are recorded at
/// `now_ns`: when they hold at least one A-record address, the host's entry
/// becomes those addresses under the smallest A-record TTL; otherwise the
/// cache is unchanged.
pub open spec fn cache_after_answers(
    m: Map<Seq<char>, HostRecord>,
    host: Seq<char>,
    answers: Seq<AnswerRecord>,
    now_ns: u64,
) -> Map<Seq<char>, HostRecord> {
    match a_record_min_ttl(answers) {
        Some(t) => if a_record_addresses(answers).len() > 0 {
            m.insert(host, HostRecord { stored_at_ns: now_ns, addrs: a_record_addresses(answers), min_ttl: t })
        } else {
            m
        },
        None => m,
    }
}

/// Every cached host holds at least one address.
pub open spec fn hosts_have_addresses(m: Map<Seq<char>, HostRecord>) -> bool {
    forall|h: Seq<char>| #[trigger] m.contains_key(h) ==> m[h].addrs.len() > 0
}

proof fn lemma_addresses_need_an_a_record(answers: Seq<AnswerRecord>)
    requires
        a_record_addresses(answers).len() > 0,
    ensures
        exists|i: int| 0 <= i < answers.len() && #[trigger] answers[i].record_type == A_RECORD,
    decreases answers.len(),
{
    let p = answers.drop_last();
    let n = answers.len() - 1;
    if answers[n].record_type != A_RECORD {
        lemma_addresses_need_an_a_record(p);
        let j = choose|j: int| 0 <= j < p.len() && #[trigger] p[j].record_type == A_RECORD;
        assert(answers[j] == p[j]);
    }
}

/// Recording a reply and looking a host up keep every cached host with at
/// least one address. A reply that holds an A-record address becomes the
/// host's entry: its addresses, stored now, under the smallest TTL of its A
/// records, which one of them has and none undercuts.
pub proof fn lemma_cached_hosts_keep_addresses(
    m: Map<Seq<char>, HostRecord>,
    host: Seq<char>,
    answers: Seq<AnswerRecord>,
    now_ns: u64,
)
    requires
        hosts_have_addresses(m),
    ensures
        hosts_have_addresses(cache_after_answers(m, host, answers, now_ns)),
        hosts_have_addresses(cache_after_lookup(m, host, now_ns)),
        a_record_addresses(answers).len() > 0 ==> {
            let e = cache_after_answers(m, host, answers, now_ns)[host];
            &&& cache_after_answers(m, host, answers, now_ns).contains_key(host)
            &&& e.addrs == a_record_addresses(answers)
            &&& e.stored_at_ns == now_ns
            &&& forall|i: int|
                0 <= i < answers.len() && #[trigger] answers[i].record_type == A_RECORD ==> e.min_ttl
                    <= answers[i].ttl
            &&& exists|i: int|
                0 <= i < answers.len() && #[trigger] answers[i].record_type == A_RECORD
                    && answers[i].ttl == e.min_ttl
        },
{
    lemma_min_ttl_is_minimum(answers);
    if a_record_addresses(answers).len() > 0 {
        lemma_addresses_need_an_a_record(answers);
    }
}

/// One cached host.
pub struct CachedHost {
    pub host: String,
    pub stored_at_ns: u64,
    pub addrs: Vec<IpAddress>,
    pub min_ttl: u64,
}

/// What the cache keeps of an entry.
pub open spec fn record_of(e: CachedHost) -> HostRecord {
    HostRecord { stored_at_ns: e.stored_at_ns, addrs: e.addrs@, min_ttl: e.min_ttl }
}

/// The host map that a sequence of entries stands for.
pub open spec fn entries_map(s: Seq<CachedHost>) -> Map<Seq<char>, HostRecord>
    decreases s.len(),
{
    if s.len() == 0 {
        Map::empty()
    } else {
        entries_map(s.drop_last()).insert(s.last().host@, record_of(s.last()))
    }
}

/// No two entries are for the same host.
pub open spec fn hosts_distinct(s: Seq<CachedHost>) -> bool {
    forall|i: int, j: int|
        0 <= i < s.len() && 0 <= j < s.len() && i != j ==> #[trigger] s[i].host@ != #[trigger] s[j].host@
}

proof fn lemma_entries_map_lookup(s: Seq<CachedHost>, h: Seq<char>)
    requires
        hosts_distinct(s),
    ensures
        entries_map(s).contains_key(h) <==> exists|i: int| 0 <= i < s.len() && #[trigger] s[i].host@ == h,
        forall|i: int| 0 <= i < s.len() && #[trigger] s[i].host@ == h ==> entries_map(s)[h] == record_of(s[i]),
    decreases s.len(),
{
    if s.len() > 0 {
        let p = s.drop_last();
        assert(hosts_distinct(p)) by {
            assert forall|i: int, j: int| 0 <= i < p.len() && 0 <= j < p.len() && i != j implies #[trigger] p[i].host@ != #[trigger] p[j].host@ by {
                assert(p[i] == s[i] && p[j] == s[j]);
            }
        }
        lemma_entries_map_lookup(p, h);
        let n = s.len() - 1;
        if entries_map(s).contains_key(h) && s[n].host@ != h {
            let i = choose|i: int| 0 <= i < p.len() && #[trigger] p[i].host@ == h;
            assert(s[i].host@ == h);
        }
        if exists|i: int| 0 <= i < s.len() && #[trigger] s[i].host@ == h {
            let i = choose|i: int| 0 <= i < s.len() && #[trigger] s[i].host@ == h;
            if i < n {
                assert(p[i].host@ == h);
            }
        }
        assert forall|i: int| 0 <= i < s.len() && #[trigger] s[i].host@ == h implies entries_map(s)[h] == record_of(s[i]) by {
            if i < n {
                assert(p[i] == s[i]);
                assert(s[n].host@ != h);
            }
        }
    }
}

proof fn lemma_entries_map_remove(s: Seq<CachedHost>, i: int)
    requires
        hosts_distinct(s),
        0 <= i < s.len(),
    ensures
        hosts_distinct(s.remove(i)),
        entries_map(s.remove(i)) == entries_map(s).remove(s[i].host@),
    decreases s.len(),
{
    let r = s.remove(i);
    assert(hosts_distinct(r)) by {
        assert forall|a: int, b: int| 0 <= a < r.len() && 0 <= b < r.len() && a != b implies #[trigger] r[a].host@ != #[trigger] r[b].host@ by {
            let a2 = if a < i { a } else { a + 1 };
            let b2 = if b < i { b } else { b + 1 };
            assert(r[a] == s[a2] && r[b] == s[b2]);
        }
    }
    let n = s.len() - 1;
    let p = s.drop_last();
    assert(hosts_distinct(p)) by {
        assert forall|a: int, b: int| 0 <= a < p.len() && 0 <= b < p.len() && a != b implies #[trigger] p[a].host@ != #[trigger] p[b].host@ by {
            assert(p[a] == s[a] && p[b] == s[b]);
        }
    }
    if i == n {
        assert(r =~= p);
        lemma_entries_map_lookup(p, s[n].host@);
        assert forall|a: int| 0 <= a < p.len() implies #[trigger] p[a].host@ != s[n].host@ by {
            assert(p[a] == s[a]);
        }
        assert(!entries_map(p).contains_key(s[n].host@));
        assert(entries_map(s).remove(s[n].host@) =~= entries_map(p));
    } else {
        lemma_entries_map_remove(p, i);
        assert(r.drop_last() =~= p.remove(i));
        assert(r.last() == s.last());
        assert(s[i].host@ != s[n].host@);
        assert(p[i] == s[i]);
        assert(entries_map(r) =~= entries_map(s).remove(s[i].host@));
    }
}

/// The index of the entry for `key`, if there is one.
fn position_of(entries: &Vec<CachedHost>, key: &String) -> (r: Option<usize>)
    ensures
        match r {
            Some(i) => i < entries@.len() && entries@[i as int].host@ == key@,
            None => forall|i: int| 0 <= i < entries@.len() ==> #[trigger] entries@[i].host@ != key@,
        },
{
    let n = entries.len();
    let mut i: usize = 0;
    while i < n
        invariant
            i <= n,
            n == entries@.len(),
            forall|k: int| 0 <= k < i ==> #[trigger] entries@[k].host@ != key@,
        decreases n - i,
    {
        if entries[i].host == *key {
            return Some(i);
        }
        i = i + 1;
    }
    None
}

/// A per-host cache of resolved addresses. No host has two entries.
///
/// The entries are a `Vec` searched by host name rather than a `HashMap`
/// keyed by `String`, so that every operation's effect on them has an exact
/// model as a sequence. Hosts are kept distinct, so the entries read as a
/// map from host to record.
pub struct DohCache {
    entries: Vec<CachedHost>,
}

impl View for DohCache {
    type V = Map<Seq<char>, HostRecord>;

    closed spec fn view(&self) -> Map<Seq<char>, HostRecord> {
        entries_map(self.entries@)
    }
}

impl DohCache {
    #[verifier::type_invariant]
    spec fn wf(self) -> bool {
        hosts_distinct(self.entries@)
    }

    /// An empty cache.
    pub fn new() -> (c: Self)
        ensures
            c@ == Map::<Seq<char>, HostRecord>::empty(),
    {
        DohCache { entries: Vec::new() }
    }

    /// Looks `host` up at time `now_ns`. A fresh entry answers with its
    /// addresses; a stale one is dropped and answers nothing.
    pub fn lookup(&mut self, host: &str, now_ns: u64) -> (r: Option<Vec<IpAddress>>)
        ensures
            match r {
                Some(v) => cache_answer(old(self)@, host@, now_ns) == Some(v@),
                None => cache_answer(old(self)@, host@, now_ns) is None,
            },
            final(self)@ == cache_after_lookup(old(self)@, host@, now_ns),
    {
        proof {
            use_type_invariant(&*self);
            lemma_entries_map_lookup(self.entries@, host@);
        }
        let key = host.to_owned();
        match position_of(&self.entries, &key) {
            None => None,
            Some(i) => {
                let e = &self.entries[i];
                let elapsed: u64 = if now_ns >= e.stored_at_ns { now_ns - e.stored_at_ns } else { 0 };
                let fresh = (elapsed as u128) <= (e.min_ttl as u128) * (NANOS_PER_SEC as u128);
                if fresh {
                    let mut out: Vec<IpAddress> = Vec::new();
                    let m = e.addrs.len();
                    let mut k: usize = 0;
                    while k < m
                        invariant
                            k <= m,
                            m == e.addrs@.len(),
                            out@ == e.addrs@.take(k as int),
                        decreases m - k,
                    {
                        out.push(e.addrs[k]);
                        k = k + 1;
                        assert(out@ =~= e.addrs@.take(k as int));
                    }
                    assert(e.addrs@.take(m as int) =~= e.addrs@);
                    Some(out)
                } else {
                    proof {
                        lemma_entries_map_remove(self.entries@, i as int);
                    }
                    let mut entries: Vec<CachedHost> = Vec::new();
                    std::mem::swap(&mut entries, &mut self.entries);
                    entries.remove(i);
                    self.entries = entries;
                    None
                }
            },
        }
    }

    /// Stores `addrs` for `host` at time `now_ns` with TTL `min_ttl` seconds,
    /// replacing what the cache held for the host.
    pub fn store(&mut self, host: &str, addrs: Vec<IpAddress>, min_ttl: u64, now_ns: u64)
        ensures
            final(self)@ == old(self)@.insert(
                host@,
                HostRecord { stored_at_ns: now_ns, addrs: addrs@, min_ttl },
            ),
    {
        proof {
            use_type_invariant(&*self);
        }
        let key = host.to_owned();
        let mut entries: Vec<CachedHost> = Vec::new();
        std::mem::swap(&mut entries, &mut self.entries);
        assert(hosts_distinct(entries@));
        assert(entries_map(entries@) == old(self)@);
        if let Some(i) = position_of(&entries, &key) {
            proof {
                lemma_entries_map_remove(entries@, i as int);
            }
            entries.remove(i);
        }
        let ghost before = entries@;
        proof {
            lemma_entries_map_lookup(before, host@);
            assert forall|k: int| 0 <= k < before.len() implies #[trigger] before[k].host@ != host@ by {
                if before[k].host@ == host@ {
                    assert(entries_map(before).contains_key(host@));
                }
            }
        }
        let entry = CachedHost { host: key, stored_at_ns: now_ns, addrs, min_ttl };
        entries.push(entry);
        proof {
            assert(entries@.drop_last() =~= before);
            assert(hosts_distinct(entries@)) by {
                assert forall|a: int, b: int| 0 <= a < entries@.len() && 0 <= b < entries@.len() && a != b implies #[trigger] entries@[a].host@ != #[trigger] entries@[b].host@ by {
                    if a < before.len() {
                        assert(entries@[a] == before[a]);
                    }
                    if b < before.len() {
                        assert(entries@[b] == before[b]);
                    }
                }
            }
            assert(entries_map(entries@) =~= old(self)@.insert(
                host@,
                HostRecord { stored_at_ns: now_ns, addrs: addrs@, min_ttl },
            ));
        }
        self.entries = entries;
    }

    /// Keeps what a DNS-over-HTTPS reply for `host` resolved to: the
    /// addresses of its A records, cached under the smallest A-record TTL
    /// when there is at least one address.
    pub fn record_answers(&mut self, host: &str, answers: &Vec<AnswerRecord>, now_ns: u64) -> (addrs: Vec<IpAddress>)
        ensures
            addrs@ == a_record_addresses(answers@),
            final(self)@ == cache_after_answers(old(self)@, host@, answers@, now_ns),
    {
        let addrs = addresses_of(answers);
        let min_ttl = min_a_record_ttl(answers);
        if addrs.len() > 0 {
            if let Some(m) = min_ttl {
                let mut kept: Vec<IpAddress> = Vec::new();
                let n = addrs.len();
                let mut k: usize = 0;
                while k < n
                    invariant
                        k <= n,
                        n == addrs@.len(),
                        kept@ == addrs@.take(k as int),
                    decreases n - k,
                {
                    kept.push(addrs[k]);
                    k = k + 1;
                    assert(kept@ =~= addrs@.take(k as int));
                }
                assert(addrs@.take(n as int) =~= addrs@);
                self.store(host, kept, m, now_ns);
            }
        }
        addrs
    }
}

/// `r` is what the worker keeps of answer `a`: the same type and TTL, and
/// the IP address (IPv4 or IPv6) its data spells out, if it spells one out.
pub open spec fn record_matches(a: DohAnswer, r: AnswerRecord) -> bool {
    &&& r.record_type == a.record_type
    &&& r.ttl == a.ttl
    &&& match r.address {
        Some(ip) => parse_ip_spec(a.data@) == Some(ip_bytes(ip)),
        None => parse_ip_spec(a.data@) is None,
    }
}

/// Each record is what the worker keeps of the answer at its place.
pub open spec fn records_match(answers: Seq<DohAnswer>, records: Seq<AnswerRecord>) -> bool {
    &&& records.len() == answers.len()
    &&& forall|i: int| 0 <= i < answers.len() ==> record_matches(answers[i], #[trigger] records[i])
}

/// What the worker keeps of one answer.
pub fn answer_record(a: &DohAnswer) -> (r: AnswerRecord)
    ensures
        record_matches(*a, r),
{
    AnswerRecord { record_type: a.record_type, ttl: a.ttl, address: parse_ip(a.data.as_str()) }
}

/// What the worker keeps of every answer of a reply.
pub fn answer_records(answers: &Vec<DohAnswer>) -> (r: Vec<AnswerRecord>)
    ensures
        records_match(answers@, r@),
{
    let mut r: Vec<AnswerRecord> = Vec::new();
    let n = answers.len();
    let mut i: usize = 0;
    while i < n
        invariant
            i <= n,
            n == answers@.len(),
            r@.len() == i,
            forall|k: int| 0 <= k < i ==> record_matches(answers@[k], #[trigger] r@[k]),
        decreases n - i,
    {
        r.push(answer_record(&answers[i]));
        i = i + 1;
    }
    r
}

/// The bytes of the IP addresses spelled out by the data of the A-record
/// answers of a reply, in order.
pub open spec fn parsed_a_addresses(answers: Seq<DohAnswer>) -> Seq<Seq<u8>>
    decreases answers.len(),
{
    if answers.len() == 0 {
        Seq::empty()
    } else {
        let before = parsed_a_addresses(answers.drop_last());
        let a = answers.last();
        if a.record_type == A_RECORD && parse_ip_spec(a.data@) is Some {
            before.push(parse_ip_spec(a.data@)->0)
        } else {
            before
        }
    }
}

/// The addresses the resolver serves for a reply are exactly the IP
/// addresses that the data of its A-record answers spell out, in order.
pub proof fn lemma_served_addresses_are_parsed(answers: Seq<DohAnswer>, records: Seq<AnswerRecord>)
    requires
        records_match(answers, records),
    ensures
        a_record_addresses(records).map_values(|a: IpAddress| ip_bytes(a)) == parsed_a_addresses(answers),
    decreases answers.len(),
{
    if answers.len() > 0 {
        let pa = answers.drop_last();
        let pr = records.drop_last();
        assert forall|i: int| 0 <= i < pa.len() implies record_matches(pa[i], #[trigger] pr[i]) by {
            assert(pa[i] == answers[i] && pr[i] == records[i]);
        }
        lemma_served_addresses_are_parsed(pa, pr);
        let n = answers.len() - 1;
        assert(record_matches(answers[n], records[n]));
        assert(a_record_addresses(records).map_values(|a: IpAddress| ip_bytes(a))
            =~= parsed_a_addresses(answers));
    }
}

/// An entry stored at `t0` answers a lookup with its addresses at any time
/// from `t0` until its TTL has passed, and the lookup leaves the cache as it
/// was.
pub proof fn lemma_lookup_after_store(
    m: Map<Seq<char>, HostRecord>,
    host: Seq<char>,
    addrs: Seq<IpAddress>,
    min_ttl: u64,
    t0: u64,
    now_ns: u64,
)
    requires
        t0 <= now_ns,
        now_ns - t0 <= min_ttl * 1_000_000_000,
    ensures
        ({
            let stored = m.insert(host, HostRecord { stored_at_ns: t0, addrs, min_ttl });
            &&& cache_answer(stored, host, now_ns) == Some(addrs)
            &&& cache_after_lookup(stored, host, now_ns) == stored
        }),
{
}

/// Once its TTL has passed, an entry answers nothing and the lookup drops it,
/// so every later lookup of the host answers nothing until it is stored again.
pub proof fn lemma_lookup_after_expiry(
    m: Map<Seq<char>, HostRecord>,
    host: Seq<char>,
    addrs: Seq<IpAddress>,
    min_ttl: u64,
    t0: u64,
    now_ns: u64,
    later_ns: u64,
)
    requires
        t0 <= now_ns,
        now_ns - t0 > min_ttl * 1_000_000_000,
    ensures
        ({
            let stored = m.insert(host, HostRecord { stored_at_ns: t0, addrs, min_ttl });
            let after = cache_after_lookup(stored, host, now_ns);
            &&& cache_answer(stored, host, now_ns) is None
            &&& after == m.remove(host)
            &&& cache_answer(after, host, later_ns) is None
        }),
{
    let stored = m.insert(host, HostRecord { stored_at_ns: t0, addrs, min_ttl });
    assert(stored.remove(host) =~= m.remove(host));
}

/// Storing or looking up one host leaves what every other host answers as it
/// was.
pub proof fn lemma_other_hosts_unaffected(
    m: Map<Seq<char>, HostRecord>,
    host: Seq<char>,
    other: Seq<char>,
    rec: HostRecord,
    now_ns: u64,
    at_ns: u64,
)
    requires
        host != other,
    ensures
        cache_answer(m.insert(host, rec), other, at_ns) == cache_answer(m, other, at_ns),
        cache_answer(cache_after_lookup(m, host, now_ns), other, at_ns) == cache_answer(m, other, at_ns),
{
}

/// A lookup never adds a host to the cache.
pub proof fn lemma_lookup_only_drops(m: Map<Seq<char>, HostRecord>, host: Seq<char>, now_ns: u64)
    ensures
        cache_after_lookup(m, host, now_ns).dom().subset_of(m.dom()),
{
}

/// Why no ECH configuration could be taken from an HTTPS record reply.
#[derive(Clone, Copy, Debug, PartialEq, Eq, Structural)]
pub enum EchError {
    /// The reply holds no answer.
    MissingAnswers,
    /// The first answer holds no `ech=` parameter.
    MissingEchConfig,
    /// The `ech=` parameter is not standard base64.
    InvalidBase64,
    /// The decoded list holds no configuration that TLS can use.
    UnsupportedConfig,
}

/// The ECH configuration list an HTTPS record reply carries: the base64
/// value of the first `ech=` parameter of the first answer's data, decoded.
pub open spec fn ech_config_spec(response: DohResponse) -> Result<Seq<u8>, EchError> {
    match response.answer {
        None => Err(EchError::MissingAnswers),
        Some(v) => if v@.len() == 0 {
            Err(EchError::MissingAnswers)
        } else {
            match prefixed_word_value(v@[0].data@, "ech="@) {
                None => Err(EchError::MissingEchConfig),
                Some(t) => match base64_standard_decode(encode_utf8(t)) {
                    None => Err(EchError::InvalidBase64),
                    Some(b) => Ok(b),
                },
            }
        },
    }
}

/// The ECH configuration list of an HTTPS record reply.
pub fn ech_config_list(response: &DohResponse) -> (r: Result<Vec<u8>, EchError>)
    ensures
        match r {
            Ok(b) => ech_config_spec(*response) == Ok::<Seq<u8>, EchError>(b@),
            Err(e) => ech_config_spec(*response) == Err::<Seq<u8>, EchError>(e),
        },
{
    let answers = match &response.answer {
        None => {
            return Err(EchError::MissingAnswers);
        },
        Some(a) => a,
    };
    if answers.len() == 0 {
        return Err(EchError::MissingAnswers);
    }
    let data = answers[0].data.as_str();
    let value = match prefixed_word_value_of(data, "ech=") {
        None => {
            return Err(EchError::MissingEchConfig);
        },
        Some(v) => v,
    };
    match base64_decode(value.as_bytes()) {
        Ok(b) => Ok(b),
        Err(_) => Err(EchError::InvalidBase64),
    }
}

/// The ECH configuration an HTTPS record reply provides for TLS: its
/// configuration list (see `ech_config_list`), taken by `rustls` for the
/// client's HPKE suite. It is had exactly when the list is had and supported;
/// otherwise the error says which step failed.
pub fn ech_config(response: &DohResponse) -> (r: Result<rustls::client::EchConfig, EchError>)
    ensures
        r is Ok <==> (ech_config_spec(*response) matches Ok(b) && ech_config_list_supported(b)),
        r matches Err(e) ==> match ech_config_spec(*response) {
            Err(e2) => e == e2,
            Ok(b) => !ech_config_list_supported(b) && e == EchError::UnsupportedConfig,
        },
{
    let list = ech_config_list(response)?;
    match ech_config_from_list(list.as_slice()) {
        Ok(c) => Ok(c),
        Err(_) => Err(EchError::UnsupportedConfig),
    }
}

} // verus!
