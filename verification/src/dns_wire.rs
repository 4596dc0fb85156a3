//! DNS messages on the wire: the records a received packet carries, the
//! host report and service answers made from them, and the queries sent.
use vstd::prelude::*;
use dns_parser::RData as D;
use crate::discovery::{
    HostnameMap, MdnsRecord, extract_hostnames_from_mdns, names_for, packet_report, records_pairs,
    usable_name, with_pairs,
};
use crate::dns_sd::{DnsAnswer, FollowUp};
use crate::net::{DNS_SD_QUERY_ALL, MDNS_QUERY_ID, reverse_dns_ptr_record, reverse_ptr_text};
use crate::ip_address::IpAddress;
use crate::ip_info::{IpInfo, LastKnownStatus, opt_text};
use crate::lexical::{copy_texts, texts};

verus! {

/// What a record says.
#[derive(Debug)]
pub enum RecordData {
    A(u32),
    Aaaa(u128),
    Ptr(String),
    Srv { target: String, port: u16 },
    Txt(Vec<String>),
    Other,
}

/// One resource record: its owner name and what it says.
#[derive(Debug)]
pub struct DnsRecord {
    pub name: String,
    pub data: RecordData,
}

/// The record sections of a received packet.
#[derive(Debug)]
pub struct ParsedPacket {
    pub answers: Vec<DnsRecord>,
    pub nameservers: Vec<DnsRecord>,
    pub additional: Vec<DnsRecord>,
}

/// What a record says, as plain values.
pub enum DataView {
    A(u32),
    Aaaa(u128),
    Ptr(Seq<char>),
    Srv { target: Seq<char>, port: u16 },
    Txt(Seq<Seq<char>>),
    Other,
}

/// A record as plain values.
pub struct RecordView {
    pub name: Seq<char>,
    pub data: DataView,
}

/// A packet's sections as plain values.
pub struct PacketView {
    pub answers: Seq<RecordView>,
    pub nameservers: Seq<RecordView>,
    pub additional: Seq<RecordView>,
}

impl View for RecordData {
    type V = DataView;

    open spec fn view(&self) -> DataView {
        match self {
            RecordData::A(ip) => DataView::A(*ip),
            RecordData::Aaaa(ip) => DataView::Aaaa(*ip),
            RecordData::Ptr(t) => DataView::Ptr(t@),
            RecordData::Srv { target, port } => DataView::Srv { target: target@, port: *port },
            RecordData::Txt(strings) => DataView::Txt(texts(strings@)),
            RecordData::Other => DataView::Other,
        }
    }
}

impl View for DnsRecord {
    type V = RecordView;

    open spec fn view(&self) -> RecordView {
        RecordView { name: self.name@, data: self.data@ }
    }
}

/// The views of a list of record data.
pub open spec fn data_views(ds: Seq<RecordData>) -> Seq<DataView> {
    ds.map_values(|d: RecordData| d@)
}

/// The views of a list of records.
pub open spec fn record_views(rs: Seq<DnsRecord>) -> Seq<RecordView> {
    rs.map_values(|r: DnsRecord| r@)
}

impl View for ParsedPacket {
    type V = PacketView;

    open spec fn view(&self) -> PacketView {
        PacketView {
            answers: record_views(self.answers@),
            nameservers: record_views(self.nameservers@),
            additional: record_views(self.additional@),
        }
    }
}

/// The owner names of the records of a packet's bytes, section by section
/// (answers, name servers, additional records), or none where they are no
/// valid DNS message, as `dns_parser::Packet::parse` reads them.
pub uninterp spec fn parsed_names(bytes: Seq<u8>) -> Option<(Seq<Seq<char>>, Seq<Seq<char>>, Seq<Seq<char>>)>;

/// The data of the records of a packet's bytes, the answers first, then the
/// name servers and the additional records, or none where they are no valid
/// DNS message, as `dns_parser::Packet::parse` reads them.
pub uninterp spec fn parsed_data(bytes: Seq<u8>) -> Option<Seq<DataView>>;

/// Reads the owner names of the records of a received packet.
///
/// Calls `dns_parser::Packet::parse` and writes each record's name as text,
/// section by section. The result is named `parsed_names` and depends on the
/// bytes alone.
#[verifier::external_body]
fn read_names(buf: &[u8]) -> (r: Option<(Vec<String>, Vec<String>, Vec<String>)>)
    ensures
        match r {
            Some((a, n, d)) => parsed_names(buf@) == Some((texts(a@), texts(n@), texts(d@))),
            None => parsed_names(buf@) is None,
        },
{
    let p = dns_parser::Packet::parse(buf).ok()?;
    let f = |rs: &Vec<dns_parser::ResourceRecord>| rs.iter().map(|r| r.name.to_string()).collect();
    Some((f(&p.answers), f(&p.nameservers), f(&p.additional)))
}

/// Reads the record data of a received packet.
///
/// Calls `dns_parser::Packet::parse` and copies the data of each record of
/// the answers, then the name servers and the additional records: the
/// addresses of A and AAAA records, the target of a PTR record, the target
/// and port of an SRV record, and the strings of a TXT record read as UTF-8
/// with invalid bytes replaced; other kinds carry nothing. The result is
/// named `parsed_data` and depends on the bytes alone.
#[verifier::external_body]
fn read_data(buf: &[u8]) -> (r: Option<Vec<RecordData>>)
    ensures
        match r {
            Some(v) => parsed_data(buf@) == Some(data_views(v@)),
            None => parsed_data(buf@) is None,
        },
{
    let p = dns_parser::Packet::parse(buf).ok()?;
    Some(p.answers.iter().chain(&p.nameservers).chain(&p.additional).map(|r| match &r.data {
        D::A(a) => RecordData::A(a.0.into()),
        D::AAAA(a) => RecordData::Aaaa(a.0.into()),
        D::PTR(t) => RecordData::Ptr(t.0.to_string()),
        D::SRV(s) => RecordData::Srv { target: s.target.to_string(), port: s.port },
        D::TXT(t) => RecordData::Txt(t.iter().map(|b| String::from_utf8_lossy(b).into()).collect()),
        _ => RecordData::Other,
    }).collect())
}

/// Records made of names and their data, pair by pair.
pub open spec fn zip_views(n: Seq<Seq<char>>, d: Seq<DataView>) -> Seq<RecordView> {
    Seq::new(n.len(), |i: int| RecordView { name: n[i], data: d[i] })
}

/// The records of a packet's bytes, or none where they are no valid DNS
/// message: each section's names with their data, the data being laid out
/// section after section.
pub open spec fn parsed_packet(bytes: Seq<u8>) -> Option<PacketView> {
    match (parsed_names(bytes), parsed_data(bytes)) {
        (Some((a, n, d)), Some(x)) => if x.len() == a.len() + n.len() + d.len() {
            Some(
                PacketView {
                    answers: zip_views(a, x.subrange(0, a.len() as int)),
                    nameservers: zip_views(n, x.subrange(a.len() as int, (a.len() + n.len()) as int)),
                    additional: zip_views(d, x.subrange((a.len() + n.len()) as int, x.len() as int)),
                },
            )
        } else {
            None
        },
        _ => None,
    }
}

/// A copy of record data.
fn copy_data(d: &RecordData) -> (r: RecordData)
    ensures
        r@ == d@,
{
    match d {
        RecordData::A(ip) => RecordData::A(*ip),
        RecordData::Aaaa(ip) => RecordData::Aaaa(*ip),
        RecordData::Ptr(t) => RecordData::Ptr(t.clone()),
        RecordData::Srv { target, port } => RecordData::Srv { target: target.clone(), port: *port },
        RecordData::Txt(strings) => RecordData::Txt(copy_texts(strings)),
        RecordData::Other => RecordData::Other,
    }
}

/// The records made of the names and the data from `start` on, pair by pair.
fn zip_records(names: &Vec<String>, data: &Vec<RecordData>, start: usize) -> (r: Vec<DnsRecord>)
    requires
        start + names@.len() <= data@.len(),
    ensures
        record_views(r@) == zip_views(texts(names@), data_views(data@).subrange(start as int, (start + names@.len()) as int)),
{
    let ghost n = texts(names@);
    let ghost d = data_views(data@).subrange(start as int, (start + names@.len()) as int);
    let mut out: Vec<DnsRecord> = Vec::new();
    let mut i: usize = 0;
    while i < names.len()
        invariant
            i <= names.len(),
            start + names@.len() <= data@.len(),
            n == texts(names@),
            d == data_views(data@).subrange(start as int, (start + names@.len()) as int),
            out@.len() == i,
            forall|k: int| 0 <= k < i ==> #[trigger] out@[k]@ == (RecordView { name: n[k], data: d[k] }),
        decreases names.len() - i,
    {
        assert(start + i < data@.len());
        assert(data@.len() == data.len());
        out.push(DnsRecord { name: names[i].clone(), data: copy_data(&data[start + i]) });
        i = i + 1;
    }
    assert(record_views(out@) =~= zip_views(n, d));
    out
}

/// Reads the record sections of a received packet.
pub fn parse_dns_packet(buf: &[u8]) -> (r: Option<ParsedPacket>)
    ensures
        match r {
            Some(p) => parsed_packet(buf@) == Some(p@),
            None => parsed_packet(buf@) is None,
        },
{
    let (a, n, d) = match read_names(buf) {
        Some(t) => t,
        None => return None,
    };
    let data = match read_data(buf) {
        Some(x) => x,
        None => return None,
    };
    if a.len() > data.len() || n.len() > data.len() - a.len() || d.len() != data.len() - a.len() - n.len() {
        return None;
    }
    let answers = zip_records(&a, &data, 0);
    let nameservers = zip_records(&n, &data, a.len());
    let additional = zip_records(&d, &data, a.len() + n.len());
    Some(ParsedPacket { answers, nameservers, additional })
}

/// The (address, name) pairs a record yields for the host name map: an A
/// record maps its name to its address; a pointer in the answers maps its
/// target to the packet's source; unusable names are skipped.
pub open spec fn view_pairs(v: RecordView, source: IpAddress, answer: bool) -> Seq<(IpAddress, Seq<char>)> {
    match v.data {
        DataView::A(ip) => if usable_name(v.name) {
            seq![(IpAddress::V4(ip), v.name)]
        } else {
            Seq::empty()
        },
        DataView::Ptr(t) => if answer && usable_name(t) {
            seq![(source, t)]
        } else {
            Seq::empty()
        },
        _ => Seq::empty(),
    }
}

/// The pairs of a list of records, in order.
pub open spec fn views_pairs(vs: Seq<RecordView>, source: IpAddress, answer: bool) -> Seq<(IpAddress, Seq<char>)>
    decreases vs.len(),
{
    if vs.len() == 0 {
        Seq::empty()
    } else {
        views_pairs(vs.drop_last(), source, answer) + view_pairs(vs.last(), source, answer)
    }
}

/// The owner names of a list of records, in order.
pub open spec fn view_names(vs: Seq<RecordView>) -> Seq<Seq<char>> {
    vs.map_values(|v: RecordView| v.name)
}

/// `m` is the mDNS record that `v` stands for.
pub open spec fn mdns_stands_for(m: MdnsRecord, v: RecordView) -> bool {
    match v.data {
        DataView::A(ip) => m matches MdnsRecord::A { name, ip: mip } && name@ == v.name && mip == ip,
        DataView::Ptr(t) => m matches MdnsRecord::Ptr { target } && target@ == t,
        _ => m is Other,
    }
}

/// `a` is the service answer that `v` stands for.
pub open spec fn answer_stands_for(a: DnsAnswer, v: RecordView) -> bool {
    match v.data {
        DataView::Ptr(t) => a matches DnsAnswer::Ptr { name, target } && name@ == v.name && target@ == t,
        DataView::Srv { target: t, port: p } => a matches DnsAnswer::Srv { name, target, port }
            && name@ == v.name && target@ == t && port == p,
        DataView::Txt(ss) => a matches DnsAnswer::Txt { name, strings } && name@ == v.name && texts(strings@)
            == ss,
        DataView::A(ip) => a matches DnsAnswer::A { name, ip: aip } && name@ == v.name && aip == ip,
        DataView::Aaaa(ip) => a matches DnsAnswer::Aaaa { name, ip: aip } && name@ == v.name && aip == ip,
        DataView::Other => a is Other,
    }
}

/// Records that stand for views yield the same host name pairs.
pub proof fn lemma_pairs_agree(ms: Seq<MdnsRecord>, vs: Seq<RecordView>, source: IpAddress, answer: bool)
    requires
        ms.len() == vs.len(),
        forall|i: int| 0 <= i < ms.len() ==> mdns_stands_for(#[trigger] ms[i], vs[i]),
    ensures
        records_pairs(ms, source, answer) == views_pairs(vs, source, answer),
    decreases ms.len(),
{
    if ms.len() > 0 {
        let n = ms.len() - 1;
        assert(mdns_stands_for(ms[n as int], vs[n as int]));
        lemma_pairs_agree(ms.drop_last(), vs.drop_last(), source, answer);
    }
}

/// The mDNS record a record stands for.
pub fn mdns_record(r: &DnsRecord) -> (m: MdnsRecord)
    ensures
        mdns_stands_for(m, r@),
{
    match &r.data {
        RecordData::A(ip) => MdnsRecord::A { name: r.name.clone(), ip: *ip },
        RecordData::Ptr(t) => MdnsRecord::Ptr { target: t.clone() },
        _ => MdnsRecord::Other,
    }
}

/// The mDNS records a list of records stands for, in order.
pub fn mdns_records(rs: &Vec<DnsRecord>) -> (r: Vec<MdnsRecord>)
    ensures
        r@.len() == rs@.len(),
        forall|i: int| 0 <= i < rs@.len() ==> mdns_stands_for(#[trigger] r@[i], rs@[i]@),
{
    let mut r: Vec<MdnsRecord> = Vec::new();
    let mut i: usize = 0;
    while i < rs.len()
        invariant
            i <= rs.len(),
            r@.len() == i,
            forall|k: int| 0 <= k < i ==> mdns_stands_for(#[trigger] r@[k], rs@[k]@),
        decreases rs.len() - i,
    {
        r.push(mdns_record(&rs[i]));
        i = i + 1;
    }
    r
}

/// The owner names of a list of records, in order.
pub fn record_names(rs: &Vec<DnsRecord>) -> (r: Vec<String>)
    ensures
        texts(r@) == view_names(record_views(rs@)),
{
    let mut r: Vec<String> = Vec::new();
    let mut i: usize = 0;
    while i < rs.len()
        invariant
            i <= rs.len(),
            texts(r@) == view_names(record_views(rs@)).take(i as int),
        decreases rs.len() - i,
    {
        let ghost before = r@;
        let c = rs[i].name.clone();
        r.push(c);
        assert(texts(r@) =~= texts(before).push(c@));
        assert(view_names(record_views(rs@)).take(i + 1) =~= view_names(record_views(rs@)).take(
            i as int,
        ).push(c@));
        i = i + 1;
    }
    assert(view_names(record_views(rs@)).take(rs.len() as int) =~= view_names(record_views(rs@)));
    r
}

/// The service answer a record stands for.
pub fn dns_answer(r: &DnsRecord) -> (a: DnsAnswer)
    ensures
        answer_stands_for(a, r@),
{
    let name = r.name.clone();
    match &r.data {
        RecordData::Ptr(t) => DnsAnswer::Ptr { name, target: t.clone() },
        RecordData::Srv { target, port } => DnsAnswer::Srv { name, target: target.clone(), port: *port },
        RecordData::Txt(strings) => DnsAnswer::Txt { name, strings: copy_texts(strings) },
        RecordData::A(ip) => DnsAnswer::A { name, ip: *ip },
        RecordData::Aaaa(ip) => DnsAnswer::Aaaa { name, ip: *ip },
        RecordData::Other => DnsAnswer::Other,
    }
}

/// The service answers a list of records stands for, in order.
pub fn dns_answers(rs: &Vec<DnsRecord>) -> (r: Vec<DnsAnswer>)
    ensures
        r@.len() == rs@.len(),
        forall|i: int| 0 <= i < rs@.len() ==> answer_stands_for(#[trigger] r@[i], rs@[i]@),
{
    let mut r: Vec<DnsAnswer> = Vec::new();
    let mut i: usize = 0;
    while i < rs.len()
        invariant
            i <= rs.len(),
            r@.len() == i,
            forall|k: int| 0 <= k < i ==> answer_stands_for(#[trigger] r@[k], rs@[k]@),
        decreases rs.len() - i,
    {
        r.push(dns_answer(&rs[i]));
        i = i + 1;
    }
    r
}

/// The host names a packet teaches: those of its answers, then those of its
/// additional records.
pub open spec fn packet_pairs(p: PacketView, source: IpAddress) -> Seq<(IpAddress, Seq<char>)> {
    views_pairs(p.answers, source, true) + views_pairs(p.additional, source, false)
}

/// The names of a host report for a packet, after the names already heard
/// for the source: those of the answers, the additional records and the
/// name servers.
pub open spec fn packet_names(p: PacketView) -> Seq<Seq<char>> {
    view_names(p.answers) + view_names(p.additional) + view_names(p.nameservers)
}

/// Learns the host names a parsed packet carries and builds the host report
/// for its source.
pub fn report_from_parsed(source: IpAddress, packet: &ParsedPacket, hostnames: &mut HostnameMap) -> (r: IpInfo)
    requires
        old(hostnames).wf(),
    ensures
        final(hostnames).wf(),
        final(hostnames).view_entries() == with_pairs(old(hostnames).view_entries(), packet_pairs(packet@, source)),
        r@.ip == source,
        r@.names == names_for(final(hostnames).view_entries(), source) + packet_names(packet@),
        r@.services is None,
        r@.status == LastKnownStatus::Online,
        r@.seen_count == 1,
{
    let answers = mdns_records(&packet.answers);
    let additional = mdns_records(&packet.additional);
    proof {
        lemma_pairs_agree(answers@, record_views(packet.answers@), source, true);
        lemma_pairs_agree(additional@, record_views(packet.additional@), source, false);
    }
    extract_hostnames_from_mdns(&answers, &additional, source, hostnames);
    packet_report(
        source,
        hostnames,
        &record_names(&packet.answers),
        &record_names(&packet.additional),
        &record_names(&packet.nameservers),
    )
}

/// Reads a received packet: the host report for its source, after learning
/// the host names it carries, and its answers as service answers. Bytes that
/// are no DNS message give `None` and leave the map as it was.
pub fn report_from_packet(source: IpAddress, buf: &[u8], hostnames: &mut HostnameMap) -> (r: Option<(IpInfo, Vec<DnsAnswer>)>)
    requires
        old(hostnames).wf(),
    ensures
        final(hostnames).wf(),
        match parsed_packet(buf@) {
            None => r is None && final(hostnames).view_entries() == old(hostnames).view_entries(),
            Some(p) => r matches Some((info, answers)) && {
                &&& final(hostnames).view_entries() == with_pairs(old(hostnames).view_entries(), packet_pairs(p, source))
                &&& info@.ip == source
                &&& info@.names == names_for(final(hostnames).view_entries(), source) + packet_names(p)
                &&& info@.services is None
                &&& info@.status == LastKnownStatus::Online
                &&& info@.seen_count == 1
                &&& answers@.len() == p.answers.len()
                &&& forall|i: int| 0 <= i < p.answers.len() ==> answer_stands_for(#[trigger] answers@[i], p.answers[i])
            },
        },
{
    match parse_dns_packet(buf) {
        None => None,
        Some(packet) => {
            let info = report_from_parsed(source, &packet, hostnames);
            let answers = dns_answers(&packet.answers);
            Some((info, answers))
        },
    }
}

/// The kinds of question the listener asks.
#[derive(Clone, Copy, Debug, PartialEq, Eq)]
pub enum QueryKind {
    A,
    Aaaa,
    Ptr,
    Srv,
    Txt,
}

/// The number of bytes a character takes in UTF-8 (as `char::len_utf8` documents).
pub open spec fn utf8_len(c: char) -> nat {
    if (c as u32) < 0x80 {
        1
    } else if (c as u32) < 0x800 {
        2
    } else if (c as u32) < 0x10000 {
        3
    } else {
        4
    }
}

/// Every dot-separated part of `s` takes fewer than 63 bytes, where the
/// part under way has taken `run` bytes before `s`.
pub open spec fn parts_fit_from(s: Seq<char>, run: nat) -> bool
    decreases s.len(),
{
    if s.len() == 0 {
        run < 63
    } else if s[0] == '.' {
        run < 63 && parts_fit_from(s.drop_first(), 0)
    } else {
        parts_fit_from(s.drop_first(), run + utf8_len(s[0]))
    }
}

/// Every dot-separated label of a name takes fewer than 63 bytes, the
/// bound the query builder asserts.
pub open spec fn labels_fit(name: Seq<char>) -> bool {
    parts_fit_from(name, 0)
}

/// The UTF-8 bytes of a character.
pub open spec fn utf8_bytes(c: char) -> Seq<u8> {
    let u = c as u32;
    if u < 0x80 {
        seq![u as u8]
    } else if u < 0x800 {
        seq![(0xc0 | (u >> 6)) as u8, (0x80 | (u & 0x3f)) as u8]
    } else if u < 0x10000 {
        seq![(0xe0 | (u >> 12)) as u8, (0x80 | ((u >> 6) & 0x3f)) as u8, (0x80 | (u & 0x3f)) as u8]
    } else {
        seq![
            (0xf0 | (u >> 18)) as u8,
            (0x80 | ((u >> 12) & 0x3f)) as u8,
            (0x80 | ((u >> 6) & 0x3f)) as u8,
            (0x80 | (u & 0x3f)) as u8,
        ]
    }
}

/// A name on the wire: each dot-separated label as its byte count and its
/// UTF-8 bytes, then a zero byte; `label` holds the bytes of the label under
/// way before `s`.
pub open spec fn name_bytes_from(s: Seq<char>, label: Seq<u8>) -> Seq<u8>
    decreases s.len(),
{
    if s.len() == 0 {
        seq![label.len() as u8] + label + seq![0u8]
    } else if s[0] == '.' {
        seq![label.len() as u8] + label + name_bytes_from(s.drop_first(), Seq::empty())
    } else {
        name_bytes_from(s.drop_first(), label + utf8_bytes(s[0]))
    }
}

/// The record type number of a query kind.
pub open spec fn query_type_code(kind: QueryKind) -> u8 {
    match kind {
        QueryKind::A => 1,
        QueryKind::Aaaa => 28,
        QueryKind::Ptr => 12,
        QueryKind::Srv => 33,
        QueryKind::Txt => 16,
    }
}

/// A one-question query message: the 12-byte header (the id, all flags
/// clear, one question, no records), the name, the type and class IN.
pub open spec fn query_message(id: u16, name: Seq<char>, kind: QueryKind) -> Seq<u8> {
    seq![(id >> 8) as u8, (id & 0xff) as u8, 0u8, 0u8, 0u8, 1u8, 0u8, 0u8, 0u8, 0u8, 0u8, 0u8]
        + name_bytes_from(name, Seq::empty()) + seq![0u8, query_type_code(kind), 0u8, 1u8]
}

/// The bytes `dns_parser::Builder` writes for a one-question query (class
/// IN, multicast answer asked, no recursion) with this id, name and kind;
/// `None` where the message is longer than 512 bytes, which the builder
/// reports as truncated.
pub open spec fn dns_query_bytes(id: u16, name: Seq<char>, kind: QueryKind) -> Option<Seq<u8>> {
    let m = query_message(id, name, kind);
    if m.len() <= 512 {
        Some(m)
    } else {
        None
    }
}

/// Writes a one-question query.
///
/// Calls `dns_parser::Builder::new_query(id, false)`, `add_question` with
/// the name, class IN and no unicast preference, and `build`, keeping the
/// packet only where `build` reports it complete. `add_question` asserts
/// that every label is shorter than 63 bytes, which `requires` asks.
#[verifier::external_body]
fn query_packet(id: u16, name: &str, kind: QueryKind) -> (r: Option<Vec<u8>>)
    requires
        labels_fit(name@),
    ensures
        match r {
            Some(b) => dns_query_bytes(id, name@, kind) == Some(b@),
            None => dns_query_bytes(id, name@, kind) is None,
        },
{
    let qtype = match kind {
        QueryKind::A => dns_parser::QueryType::A,
        QueryKind::Aaaa => dns_parser::QueryType::AAAA,
        QueryKind::Ptr => dns_parser::QueryType::PTR,
        QueryKind::Srv => dns_parser::QueryType::SRV,
        QueryKind::Txt => dns_parser::QueryType::TXT,
    };
    let mut builder = dns_parser::Builder::new_query(id, false);
    builder.add_question(name, false, qtype, dns_parser::QueryClass::IN);
    builder.build().ok()
}

/// Whether every label of a name is short enough for a query.
pub fn name_fits_query(name: &str) -> (r: bool)
    ensures
        r == labels_fit(name@),
{
    let n = name.unicode_len();
    let mut run: usize = 0;
    let mut i: usize = 0;
    assert(name@.skip(0) =~= name@);
    while i < n
        invariant
            n == name@.len(),
            i <= n,
            run < 63,
            labels_fit(name@) == parts_fit_from(name@.skip(i as int), run as nat),
        decreases n - i,
    {
        let c = name.get_char(i);
        let ghost rest = name@.skip(i as int);
        assert(rest[0] == c);
        assert(rest.drop_first() =~= name@.skip(i + 1));
        if c == '.' {
            run = 0;
        } else {
            let code: u32 = c as u32;
            let w: usize = if code < 0x80 {
                1
            } else if code < 0x800 {
                2
            } else if code < 0x10000 {
                3
            } else {
                4
            };
            assert(w == utf8_len(c));
            run = run + w;
            if run >= 63 {
                proof {
                    lemma_long_part_fails(name@.skip(i + 1), run as nat);
                }
                return false;
            }
        }
        i = i + 1;
    }
    assert(name@.skip(n as int).len() == 0);
    true
}

/// A part that has already taken 63 bytes or more never fits.
proof fn lemma_long_part_fails(s: Seq<char>, run: nat)
    requires
        run >= 63,
    ensures
        !parts_fit_from(s, run),
    decreases s.len(),
{
    if s.len() > 0 && s[0] != '.' {
        lemma_long_part_fails(s.drop_first(), run + utf8_len(s[0]));
    }
}

/// The query the listener sends for a name and kind: `None` where a label
/// is too long or the message would be truncated.
pub open spec fn query_for(name: Seq<char>, kind: QueryKind) -> Option<Seq<u8>> {
    if labels_fit(name) {
        dns_query_bytes(MDNS_QUERY_ID, name, kind)
    } else {
        None
    }
}

/// The packets that were written, in order.
pub open spec fn written(s: Seq<Option<Seq<u8>>>) -> Seq<Seq<u8>>
    decreases s.len(),
{
    if s.len() == 0 {
        Seq::empty()
    } else {
        match s.last() {
            Some(b) => written(s.drop_last()).push(b),
            None => written(s.drop_last()),
        }
    }
}

/// The bytes of each packet.
pub open spec fn packet_bytes(v: Seq<Vec<u8>>) -> Seq<Seq<u8>> {
    v.map_values(|b: Vec<u8>| b@)
}

/// The query for a name and kind, with the listener's query id.
pub fn build_query(name: &str, kind: QueryKind) -> (r: Option<Vec<u8>>)
    ensures
        match r {
            Some(b) => query_for(name@, kind) == Some(b@),
            None => query_for(name@, kind) is None,
        },
{
    if name_fits_query(name) {
        query_packet(MDNS_QUERY_ID, name, kind)
    } else {
        None
    }
}

/// Appends the query for a name and kind where it could be written.
fn push_query(packets: &mut Vec<Vec<u8>>, name: &str, kind: QueryKind)
    ensures
        packet_bytes(final(packets)@) == match query_for(name@, kind) {
            Some(b) => packet_bytes(old(packets)@).push(b),
            None => packet_bytes(old(packets)@),
        },
{
    match build_query(name, kind) {
        Some(b) => {
            let ghost before = packets@;
            packets.push(b);
            assert(packet_bytes(packets@) =~= packet_bytes(before).push(b@));
        },
        None => {},
    }
}

/// The name whose instances are the device information records.
pub const DEVICE_INFO_QUERY: &'static str = "_device-info._tcp.local";

/// The name whose instances are the workstations.
pub const WORKSTATION_QUERY: &'static str = "_workstation._tcp.local";

/// The periodic mDNS queries: PTR questions for all service types, for
/// device information and for workstations, in that order.
pub fn build_mdns_queries() -> (r: Vec<Vec<u8>>)
    ensures
        packet_bytes(r@) == written(
            seq![
                query_for(DNS_SD_QUERY_ALL@, QueryKind::Ptr),
                query_for(DEVICE_INFO_QUERY@, QueryKind::Ptr),
                query_for(WORKSTATION_QUERY@, QueryKind::Ptr),
            ],
        ),
{
    let mut r: Vec<Vec<u8>> = Vec::new();
    assert(packet_bytes(r@) =~= Seq::<Seq<u8>>::empty());
    push_query(&mut r, DNS_SD_QUERY_ALL, QueryKind::Ptr);
    push_query(&mut r, DEVICE_INFO_QUERY, QueryKind::Ptr);
    push_query(&mut r, WORKSTATION_QUERY, QueryKind::Ptr);
    let ghost s = seq![
        query_for(DNS_SD_QUERY_ALL@, QueryKind::Ptr),
        query_for(DEVICE_INFO_QUERY@, QueryKind::Ptr),
        query_for(WORKSTATION_QUERY@, QueryKind::Ptr),
    ];
    assert(s.drop_last().drop_last().drop_last() =~= Seq::<Option<Seq<u8>>>::empty());
    assert(s.drop_last().drop_last() =~= seq![s[0]]);
    assert(s.drop_last() =~= seq![s[0], s[1]]);
    proof {
        reveal_with_fuel(written, 4);
    }
    r
}

/// The PTR query asking which host owns a version 4 address.
pub fn build_reverse_dns_query(ip: u32) -> (r: Option<Vec<u8>>)
    ensures
        match r {
            Some(b) => query_for(reverse_ptr_text(ip), QueryKind::Ptr) == Some(b@),
            None => query_for(reverse_ptr_text(ip), QueryKind::Ptr) is None,
        },
{
    let name = reverse_dns_ptr_record(ip);
    build_query(name.as_str(), QueryKind::Ptr)
}

/// The queries that follow an answer: a PTR question for a service type,
/// SRV then TXT for an instance, A then AAAA for a host, none otherwise.
pub open spec fn follow_up_packets(f: FollowUp) -> Seq<Seq<u8>> {
    match f {
        FollowUp::QueryPtr(n) => written(seq![query_for(n@, QueryKind::Ptr)]),
        FollowUp::QuerySrvAndTxt(n) => written(seq![query_for(n@, QueryKind::Srv), query_for(n@, QueryKind::Txt)]),
        FollowUp::QueryAAndAaaa(n) => written(seq![query_for(n@, QueryKind::A), query_for(n@, QueryKind::Aaaa)]),
        FollowUp::Nothing => Seq::empty(),
    }
}

/// The queries to send after an answer.
pub fn follow_up_queries(f: &FollowUp) -> (r: Vec<Vec<u8>>)
    ensures
        packet_bytes(r@) == follow_up_packets(*f),
{
    let mut r: Vec<Vec<u8>> = Vec::new();
    assert(packet_bytes(r@) =~= Seq::<Seq<u8>>::empty());
    match f {
        FollowUp::QueryPtr(n) => {
            push_query(&mut r, n.as_str(), QueryKind::Ptr);
            let ghost s = seq![query_for(n@, QueryKind::Ptr)];
            assert(s.drop_last() =~= Seq::<Option<Seq<u8>>>::empty());
        },
        FollowUp::QuerySrvAndTxt(n) => {
            push_query(&mut r, n.as_str(), QueryKind::Srv);
            push_query(&mut r, n.as_str(), QueryKind::Txt);
            let ghost s = seq![query_for(n@, QueryKind::Srv), query_for(n@, QueryKind::Txt)];
            assert(s.drop_last().drop_last() =~= Seq::<Option<Seq<u8>>>::empty());
            assert(s.drop_last() =~= seq![s[0]]);
        },
        FollowUp::QueryAAndAaaa(n) => {
            push_query(&mut r, n.as_str(), QueryKind::A);
            push_query(&mut r, n.as_str(), QueryKind::Aaaa);
            let ghost s = seq![query_for(n@, QueryKind::A), query_for(n@, QueryKind::Aaaa)];
            assert(s.drop_last().drop_last() =~= Seq::<Option<Seq<u8>>>::empty());
            assert(s.drop_last() =~= seq![s[0]]);
        },
        FollowUp::Nothing => {},
    }
    proof {
        reveal_with_fuel(written, 3);
    }
    r
}

/// The target of the first PTR record in a list, if any.
pub open spec fn first_ptr(vs: Seq<RecordView>) -> Option<Seq<char>>
    decreases vs.len(),
{
    if vs.len() == 0 {
        None
    } else {
        match vs[0].data {
            DataView::Ptr(t) => Some(t),
            _ => first_ptr(vs.drop_first()),
        }
    }
}

/// The host name a reply to a reverse lookup gives: the target of the first
/// PTR record among its answers; none where there is no such record or the
/// bytes are no DNS message.
pub fn reverse_lookup_reply(buf: &[u8]) -> (r: Option<String>)
    ensures
        match parsed_packet(buf@) {
            None => r is None,
            Some(p) => opt_text(r) == first_ptr(p.answers),
        },
{
    let packet = match parse_dns_packet(buf) {
        None => return None,
        Some(p) => p,
    };
    let ghost vs = record_views(packet.answers@);
    let mut i: usize = 0;
    assert(vs.skip(0) =~= vs);
    while i < packet.answers.len()
        invariant
            i <= packet.answers.len(),
            vs == record_views(packet.answers@),
            parsed_packet(buf@) == Some(packet@),
            first_ptr(vs) == first_ptr(vs.skip(i as int)),
        decreases packet.answers.len() - i,
    {
        assert(vs.skip(i as int)[0] == packet.answers@[i as int]@);
        assert(vs.skip(i as int).drop_first() =~= vs.skip(i + 1));
        match &packet.answers[i].data {
            RecordData::Ptr(t) => {
                let c = t.clone();
                assert(vs.skip(i as int)[0].data == DataView::Ptr(t@));
                assert(first_ptr(vs.skip(i as int)) == Some(t@));
                assert(opt_text(Some(c)) == Some(c@));
                return Some(c);
            },
            _ => {},
        }
        i = i + 1;
    }
    None
}

} // verus!
