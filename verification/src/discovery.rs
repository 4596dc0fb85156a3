//! What the listener and the scanners learn from replies: host names by
//! address, the host reports built from mDNS packets, and when each periodic
//! task is due.
use vstd::prelude::*;
use crate::ip_address::IpAddress;
use crate::ip_info::{IpInfo, IpInfoView, LastKnownStatus};
use crate::lexical::{append_missing, texts, texts_contain};
use crate::strings::str_eq;
use crate::clock::{span_less, span_nanos};
use crate::config_edit::regex_error;

verus! {

/// One record of an mDNS reply, as plain values.
#[derive(Debug)]
pub enum MdnsRecord {
    /// Host `name` has version 4 address `ip`.
    A { name: String, ip: u32 },
    /// A pointer to host `target`.
    Ptr { target: String },
    /// Any other record.
    Other,
}

/// A name worth keeping: not empty and not `localhost`.
pub open spec fn usable_name(n: Seq<char>) -> bool {
    n.len() > 0 && n != "localhost"@
}

/// The (address, name) pairs a record yields: an A record maps its name to
/// its address; a pointer in the answers maps the target to the packet's
/// source; unusable names are skipped.
pub open spec fn record_pairs(r: MdnsRecord, source: IpAddress, answer: bool) -> Seq<(IpAddress, Seq<char>)> {
    match r {
        MdnsRecord::A { name, ip } => if usable_name(name@) {
            seq![(IpAddress::V4(ip), name@)]
        } else {
            Seq::empty()
        },
        MdnsRecord::Ptr { target } => if answer && usable_name(target@) {
            seq![(source, target@)]
        } else {
            Seq::empty()
        },
        MdnsRecord::Other => Seq::empty(),
    }
}

/// The pairs of a list of records, in order.
pub open spec fn records_pairs(rs: Seq<MdnsRecord>, source: IpAddress, answer: bool) -> Seq<(IpAddress, Seq<char>)>
    decreases rs.len(),
{
    if rs.len() == 0 {
        Seq::empty()
    } else {
        records_pairs(rs.drop_last(), source, answer) + record_pairs(rs.last(), source, answer)
    }
}

/// Host names heard for each address, in the order the addresses were first heard.
#[derive(Debug)]
pub struct HostnameMap {
    entries: Vec<(IpAddress, Vec<String>)>,
}

/// The map after adding `name` for `ip` unless it is already there.
pub open spec fn with_name(m: Seq<(IpAddress, Seq<Seq<char>>)>, ip: IpAddress, name: Seq<char>) -> Seq<(IpAddress, Seq<Seq<char>>)> {
    if exists|k: int| 0 <= k < m.len() && m[k].0 == ip {
        let k = choose|k: int| 0 <= k < m.len() && m[k].0 == ip;
        m.update(k, (ip, append_missing(m[k].1, seq![name])))
    } else {
        m.push((ip, seq![name]))
    }
}

/// The map after adding each pair in order.
pub open spec fn with_pairs(m: Seq<(IpAddress, Seq<Seq<char>>)>, ps: Seq<(IpAddress, Seq<char>)>) -> Seq<(IpAddress, Seq<Seq<char>>)>
    decreases ps.len(),
{
    if ps.len() == 0 {
        m
    } else {
        let m2 = with_pairs(m, ps.drop_last());
        with_name(m2, ps.last().0, ps.last().1)
    }
}

/// The names a map holds for an address, none if it has none.
pub open spec fn names_for(m: Seq<(IpAddress, Seq<Seq<char>>)>, ip: IpAddress) -> Seq<Seq<char>> {
    if exists|k: int| 0 <= k < m.len() && m[k].0 == ip {
        m[choose|k: int| 0 <= k < m.len() && m[k].0 == ip].1
    } else {
        Seq::empty()
    }
}

proof fn lemma_unique_index(m: Seq<(IpAddress, Seq<Seq<char>>)>, k: int)
    requires
        forall|i: int, j: int| 0 <= i < m.len() && 0 <= j < m.len() && i != j ==> m[i].0 != m[j].0,
        0 <= k < m.len(),
    ensures
        (choose|j: int| 0 <= j < m.len() && m[j].0 == m[k].0) == k,
{
    let j = choose|j: int| 0 <= j < m.len() && m[j].0 == m[k].0;
    assert(m[j].0 == m[k].0);
}

impl HostnameMap {
    /// The entries as plain values.
    pub closed spec fn view_entries(&self) -> Seq<(IpAddress, Seq<Seq<char>>)> {
        self.entries@.map_values(|e: (IpAddress, Vec<String>)| (e.0, texts(e.1@)))
    }

    /// No address appears twice.
    pub open spec fn wf(&self) -> bool {
        forall|i: int, j: int|
            0 <= i < self.view_entries().len() && 0 <= j < self.view_entries().len() && i != j
                ==> self.view_entries()[i].0 != self.view_entries()[j].0
    }

    pub fn new() -> (r: Self)
        ensures
            r.wf(),
            r.view_entries() == Seq::<(IpAddress, Seq<Seq<char>>)>::empty(),
    {
        let r = HostnameMap { entries: Vec::new() };
        assert(r.view_entries() =~= Seq::<(IpAddress, Seq<Seq<char>>)>::empty());
        r
    }

    /// The number of addresses.
    pub fn len(&self) -> (r: usize)
        ensures
            r == self.view_entries().len(),
    {
        self.entries.len()
    }

    /// Adds `hostname` for `ip` unless it is already there.
    pub fn insert_ip_hostname_if_new(&mut self, ip: IpAddress, hostname: String)
        requires
            old(self).wf(),
        ensures
            final(self).wf(),
            final(self).view_entries() == with_name(old(self).view_entries(), ip, hostname@),
    {
        let ghost m = self.view_entries();
        let mut k: usize = 0;
        while k < self.entries.len()
            invariant
                k <= self.entries.len(),
                m == self.view_entries(),
                m == old(self).view_entries(),
                self.wf(),
                forall|j: int| 0 <= j < k ==> m[j].0 != ip,
            decreases self.entries.len() - k,
        {
            if self.entries[k].0 == ip {
                proof {
                    assert(m[k as int].0 == ip);
                    lemma_unique_index(m, k as int);
                }
                let (e_ip, mut names) = self.entries.remove(k);
                let ghost before = texts(names@);
                assert(before == m[k as int].1);
                let one = vec![hostname];
                crate::lexical::append_missing_texts(&mut names, &one);
                assert(texts(one@) =~= seq![one@[0]@]);
                let ghost nv = texts(names@);
                self.entries.insert(k, (e_ip, names));
                assert(self.view_entries() =~= m.update(k as int, (ip, nv)));
                assert(forall|i: int| 0 <= i < m.len() ==> self.view_entries()[i].0 == m[i].0);
                return;
            }
            k = k + 1;
        }
        let ghost hv = hostname@;
        let names = vec![hostname];
        assert(texts(names@) =~= seq![hv]);
        self.entries.push((ip, names));
        assert(self.view_entries() =~= m.push((ip, seq![hv])));
    }

    /// The names held for an address.
    pub fn names_for(&self, ip: IpAddress) -> (r: Vec<String>)
        requires
            self.wf(),
        ensures
            texts(r@) == names_for(self.view_entries(), ip),
    {
        let ghost m = self.view_entries();
        let mut k: usize = 0;
        while k < self.entries.len()
            invariant
                k <= self.entries.len(),
                m == self.view_entries(),
                self.wf(),
                forall|j: int| 0 <= j < k ==> m[j].0 != ip,
            decreases self.entries.len() - k,
        {
            if self.entries[k].0 == ip {
                proof {
                    assert(m[k as int].0 == ip);
                    lemma_unique_index(m, k as int);
                }
                return crate::lexical::copy_texts(&self.entries[k].1);
            }
            k = k + 1;
        }
        let r: Vec<String> = Vec::new();
        assert(texts(r@) =~= Seq::<Seq<char>>::empty());
        r
    }

    /// One host report per address with the names heard for it, in order.
    pub fn reports(&self) -> (r: Vec<IpInfo>)
        ensures
            r@.len() == self.view_entries().len(),
            forall|i: int| 0 <= i < r@.len() ==> {
                let v = #[trigger] r@[i]@;
                &&& v.ip == self.view_entries()[i].0
                &&& v.names == self.view_entries()[i].1
                &&& v.services is None
                &&& v.status == LastKnownStatus::Online
                &&& v.seen_count == 1
            },
    {
        let mut r: Vec<IpInfo> = Vec::new();
        let mut k: usize = 0;
        while k < self.entries.len()
            invariant
                k <= self.entries.len(),
                r@.len() == k,
                forall|i: int| 0 <= i < k ==> {
                    let v = #[trigger] r@[i]@;
                    &&& v.ip == self.view_entries()[i].0
                    &&& v.names == self.view_entries()[i].1
                    &&& v.services is None
                    &&& v.status == LastKnownStatus::Online
                    &&& v.seen_count == 1
                },
            decreases self.entries.len() - k,
        {
            let mut info = IpInfo::from_ip(self.entries[k].0);
            info.names = crate::lexical::copy_texts(&self.entries[k].1);
            r.push(info);
            k = k + 1;
        }
        r
    }
}

/// Collects the host names a reply carries (see `record_pairs`) into the map:
/// from its answers, then from its additional records.
pub fn extract_hostnames_from_mdns(
    answers: &Vec<MdnsRecord>,
    additional: &Vec<MdnsRecord>,
    source_ip: IpAddress,
    hostnames: &mut HostnameMap,
)
    requires
        old(hostnames).wf(),
    ensures
        final(hostnames).wf(),
        final(hostnames).view_entries() == with_pairs(
            old(hostnames).view_entries(),
            records_pairs(answers@, source_ip, true) + records_pairs(additional@, source_ip, false),
        ),
{
    proof {
        reveal_strlit("localhost");
    }
    let ghost start = hostnames.view_entries();
    let ghost all = records_pairs(answers@, source_ip, true) + records_pairs(additional@, source_ip, false);
    let ghost mut done: Seq<(IpAddress, Seq<char>)> = Seq::empty();
    let mut i: usize = 0;
    while i < answers.len()
        invariant
            i <= answers.len(),
            hostnames.wf(),
            done == records_pairs(answers@.take(i as int), source_ip, true),
            hostnames.view_entries() == with_pairs(start, done),
        decreases answers.len() - i,
    {
        assert(answers@.take(i + 1).drop_last() =~= answers@.take(i as int));
        let ghost before = done;
        match &answers[i] {
            MdnsRecord::A { name, ip } => {
                if name.unicode_len() > 0 && !str_eq(name.as_str(), "localhost") {
                    hostnames.insert_ip_hostname_if_new(IpAddress::V4(*ip), name.clone());
                    proof {
                        let p = (IpAddress::V4(*ip), name@);
                        assert((before + seq![p]).drop_last() =~= before);
                        done = before + seq![p];
                    }
                } else {
                    proof {
                        assert(before + Seq::<(IpAddress, Seq<char>)>::empty() =~= before);
                        done = before + Seq::<(IpAddress, Seq<char>)>::empty();
                    }
                }
            },
            MdnsRecord::Ptr { target } => {
                if target.unicode_len() > 0 && !str_eq(target.as_str(), "localhost") {
                    hostnames.insert_ip_hostname_if_new(source_ip, target.clone());
                    proof {
                        let p = (source_ip, target@);
                        assert((before + seq![p]).drop_last() =~= before);
                        done = before + seq![p];
                    }
                } else {
                    proof {
                        assert(before + Seq::<(IpAddress, Seq<char>)>::empty() =~= before);
                        done = before + Seq::<(IpAddress, Seq<char>)>::empty();
                    }
                }
            },
            MdnsRecord::Other => {
                proof {
                    assert(before + Seq::<(IpAddress, Seq<char>)>::empty() =~= before);
                    done = before + Seq::<(IpAddress, Seq<char>)>::empty();
                }
            },
        }
        i = i + 1;
    }
    assert(answers@.take(answers.len() as int) =~= answers@);
    let ghost first = done;
    let mut j: usize = 0;
    while j < additional.len()
        invariant
            j <= additional.len(),
            hostnames.wf(),
            first == records_pairs(answers@, source_ip, true),
            done == first + records_pairs(additional@.take(j as int), source_ip, false),
            hostnames.view_entries() == with_pairs(start, done),
        decreases additional.len() - j,
    {
        assert(additional@.take(j + 1).drop_last() =~= additional@.take(j as int));
        let ghost before = done;
        let ghost rest = records_pairs(additional@.take(j as int), source_ip, false);
        match &additional[j] {
            MdnsRecord::A { name, ip } => {
                if name.unicode_len() > 0 && !str_eq(name.as_str(), "localhost") {
                    hostnames.insert_ip_hostname_if_new(IpAddress::V4(*ip), name.clone());
                    proof {
                        let p = (IpAddress::V4(*ip), name@);
                        assert((before + seq![p]).drop_last() =~= before);
                        assert(first + (rest + seq![p]) =~= before + seq![p]);
                        done = before + seq![p];
                    }
                } else {
                    proof {
                        assert(rest + Seq::<(IpAddress, Seq<char>)>::empty() =~= rest);
                    }
                }
            },
            _ => {
                proof {
                    assert(rest + Seq::<(IpAddress, Seq<char>)>::empty() =~= rest);
                }
            },
        }
        j = j + 1;
    }
    assert(additional@.take(additional.len() as int) =~= additional@);
}

/// The host report built from one mDNS packet: the names already heard for
/// the source, then the names of the answers, additional records and name
/// servers, in order.
pub fn packet_report(
    source: IpAddress,
    hostnames: &HostnameMap,
    answer_names: &Vec<String>,
    additional_names: &Vec<String>,
    nameserver_names: &Vec<String>,
) -> (r: IpInfo)
    requires
        hostnames.wf(),
    ensures
        r@.ip == source,
        r@.names == names_for(hostnames.view_entries(), source) + texts(answer_names@) + texts(
            additional_names@,
        ) + texts(nameserver_names@),
        r@.services is None,
        r@.status == LastKnownStatus::Online,
        r@.seen_count == 1,
{
    let mut info = IpInfo::from_ip(source);
    let mut names = hostnames.names_for(source);
    push_all(&mut names, answer_names);
    push_all(&mut names, additional_names);
    push_all(&mut names, nameserver_names);
    info.names = names;
    info
}

fn push_all(dst: &mut Vec<String>, src: &Vec<String>)
    ensures
        texts(final(dst)@) == texts(old(dst)@) + texts(src@),
{
    let ghost start = texts(dst@);
    let mut i: usize = 0;
    while i < src.len()
        invariant
            i <= src.len(),
            texts(dst@) == start + texts(src@).take(i as int),
        decreases src.len() - i,
    {
        let ghost before = dst@;
        dst.push(src[i].clone());
        assert(texts(dst@) =~= texts(before).push(src@[i as int]@));
        assert(texts(src@).take(i + 1) =~= texts(src@).take(i as int).push(src@[i as int]@));
        i = i + 1;
    }
    assert(texts(src@).take(src.len() as int) =~= texts(src@));
}

/// The names a reverse lookup found: the DNS answer, then the mDNS answer.
pub fn reverse_lookup_names(dns: Option<String>, mdns: Option<String>) -> (r: Option<Vec<String>>)
    ensures
        match (dns, mdns) {
            (None, None) => r is None,
            (Some(a), None) => r matches Some(v) && texts(v@) == seq![a@],
            (None, Some(b)) => r matches Some(v) && texts(v@) == seq![b@],
            (Some(a), Some(b)) => r matches Some(v) && texts(v@) == seq![a@, b@],
        },
{
    let mut names: Option<Vec<String>> = match dns {
        Some(a) => {
            let v = vec![a];
            assert(texts(v@) =~= seq![v@[0]@]);
            Some(v)
        },
        None => None,
    };
    match mdns {
        Some(b) => {
            match names {
                Some(mut v) => {
                    let ghost before = v@;
                    v.push(b);
                    assert(texts(v@) =~= texts(before).push(v@.last()@));
                    names = Some(v);
                },
                None => {
                    let v = vec![b];
                    assert(texts(v@) =~= seq![v@[0]@]);
                    names = Some(v);
                },
            }
        },
        None => {},
    }
    names
}

/// The most threads one network scan may use.
pub const MAX_THREADS_PER_SCAN: usize = 100;
/// The fewest threads one network scan uses.
pub const MIN_THREADS_PER_SCAN: usize = 10;

/// The threads each of `interfaces` concurrent network scans may use: an
/// equal share of 100, but at least 10.
pub fn threads_per_scan(interfaces: usize) -> (r: usize)
    requires
        interfaces > 0,
    ensures
        r == if MAX_THREADS_PER_SCAN / interfaces > MIN_THREADS_PER_SCAN {
            MAX_THREADS_PER_SCAN / interfaces
        } else {
            MIN_THREADS_PER_SCAN
        },
{
    let share = MAX_THREADS_PER_SCAN / interfaces;
    if share > MIN_THREADS_PER_SCAN {
        share
    } else {
        MIN_THREADS_PER_SCAN
    }
}

/// How often the listener sends its mDNS queries, in milliseconds.
pub const QUERY_INTERVAL_MS: u64 = 2000;
/// How often the listener starts network scans, in milliseconds.
pub const SCAN_INTERVAL_MS: u64 = 30_000;
/// How often the listener reports the names it heard, in milliseconds.
pub const HOSTNAME_REPORT_INTERVAL_MS: u64 = 4000;

/// The periodic tasks of the mDNS listener that are due.
#[derive(Debug, Clone, Copy, PartialEq, Eq, Structural)]
pub struct ListenerDue {
    pub send_queries: bool,
    pub scan_networks: bool,
    pub report_hostnames: bool,
}

/// Which periodic tasks are due, from the milliseconds since each last ran
/// (none for a task that never ran): queries every 2 s, scans every 30 s, name
/// reports every 4 s; a task that never ran is due.
pub fn listener_due(since_query_ms: Option<u64>, since_scan_ms: Option<u64>, since_report_ms: u64) -> (r: ListenerDue)
    ensures
        r.send_queries == match since_query_ms {
            None => true,
            Some(t) => t >= QUERY_INTERVAL_MS,
        },
        r.scan_networks == match since_scan_ms {
            None => true,
            Some(t) => t >= SCAN_INTERVAL_MS,
        },
        r.report_hostnames == (since_report_ms >= HOSTNAME_REPORT_INTERVAL_MS),
{
    ListenerDue {
        send_queries: match since_query_ms {
            None => true,
            Some(t) => t >= QUERY_INTERVAL_MS,
        },
        scan_networks: match since_scan_ms {
            None => true,
            Some(t) => t >= SCAN_INTERVAL_MS,
        },
        report_hostnames: since_report_ms >= HOSTNAME_REPORT_INTERVAL_MS,
    }
}

/// Whether a regular expression finds a match in a text; `None` where the
/// pattern does not compile.
pub uninterp spec fn regex_matches(pattern: Seq<char>, text: Seq<char>) -> Option<bool>;

/// Tests a text against a regular expression.
///
/// Calls `regex::Regex::new` on the pattern and `is_match` on the text. The
/// answer depends on the two texts alone and is named `regex_matches`; it is
/// `None` exactly where `Regex::new` refuses the pattern, as `regex_error`
/// says.
#[verifier::external_body]
pub(crate) fn regex_is_match(pattern: &str, text: &str) -> (r: Option<bool>)
    ensures
        r == regex_matches(pattern@, text@),
        r is None <==> regex_error(pattern@) is Some,
{
    match regex::Regex::new(pattern) {
        Ok(re) => Some(re.is_match(text)),
        Err(_) => None,
    }
}

/// Whether an interface is left out of the scans: one of the ignore patterns
/// matches its name.
pub fn should_ignore_interface(patterns: &Vec<String>, name: &str) -> (r: bool)
    ensures
        r == exists|i: int| 0 <= i < patterns@.len() && #[trigger] regex_matches(patterns@[i]@, name@) == Some(true),
{
    let mut i: usize = 0;
    while i < patterns.len()
        invariant
            i <= patterns.len(),
            forall|k: int| 0 <= k < i ==> #[trigger] regex_matches(patterns@[k]@, name@) != Some(true),
        decreases patterns.len() - i,
    {
        if regex_is_match(patterns[i].as_str(), name) == Some(true) {
            return true;
        }
        i = i + 1;
    }
    false
}

/// A scan run shorter than this many seconds is followed by a pause.
pub const SHORT_SCAN_SECS: u64 = 10;

/// The pause after a short scan run, in seconds.
pub const SCAN_PAUSE_SECS: u64 = 5;

/// The pause before the next scan run, in seconds, from how long the last
/// one took: a run shorter than 10 s is followed by 5 s, a longer one by none.
pub fn scan_rerun_pause_secs(run_secs: u64, run_nanos: u32) -> (r: u64)
    requires
        run_nanos < 1_000_000_000,
    ensures
        r == if span_nanos(run_secs, run_nanos) < span_nanos(SHORT_SCAN_SECS, 0) {
            SCAN_PAUSE_SECS
        } else {
            0
        },
{
    if span_less(run_secs, run_nanos, SHORT_SCAN_SECS, 0) {
        SCAN_PAUSE_SECS
    } else {
        0
    }
}

} // verus!
