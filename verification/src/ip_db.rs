//! A store of host records keyed by address, kept in address order.
use vstd::prelude::*;
use crate::ip_address::{IpAddress, ip_before, ip_lt};
use crate::ip_info::{IpInfo, IpInfoView, info_matches};
use crate::lexical::{append_missing, append_missing_texts, texts};

verus! {

/// The record after another report about its address: seen once more
/// (wrapping at `u64::MAX`) and the reported names it lacked appended.
pub open spec fn merged_record(old: IpInfoView, new: IpInfoView) -> IpInfoView {
    IpInfoView {
        ip: old.ip,
        names: append_missing(old.names, new.names),
        services: old.services,
        status: old.status,
        seen_count: old.seen_count.wrapping_add(1),
        last_updated: old.last_updated,
    }
}

/// Records in strictly ascending address order.
pub open spec fn ip_sorted(s: Seq<IpInfoView>) -> bool {
    forall|i: int, j: int| 0 <= i < j < s.len() ==> ip_lt(#[trigger] s[i].ip, #[trigger] s[j].ip)
}

/// The records that match the filter, in order: all of them without a pattern.
pub open spec fn matching(s: Seq<IpInfoView>, pattern: Option<Seq<char>>) -> Seq<IpInfoView>
    decreases s.len(),
{
    if s.len() == 0 {
        Seq::empty()
    } else {
        let rest = matching(s.drop_last(), pattern);
        let keep = match pattern {
            Some(p) => info_matches(s.last().ip, s.last().names, p),
            None => true,
        };
        if keep {
            rest.push(s.last())
        } else {
            rest
        }
    }
}

/// The records as a map from address to record.
pub open spec fn record_map(s: Seq<IpInfoView>) -> Map<IpAddress, IpInfoView> {
    Map::new(
        |ip: IpAddress| exists|k: int| 0 <= k < s.len() && s[k].ip == ip,
        |ip: IpAddress| s[choose|k: int| 0 <= k < s.len() && s[k].ip == ip],
    )
}

proof fn lemma_ip_lt_order(a: IpAddress, b: IpAddress, c: IpAddress)
    ensures
        ip_lt(a, b) && ip_lt(b, c) ==> ip_lt(a, c),
        !ip_lt(a, a),
        ip_lt(a, b) ==> !ip_lt(b, a),
        a == b || ip_lt(a, b) || ip_lt(b, a),
{
}

proof fn lemma_map_insert_at(s: Seq<IpInfoView>, pos: int, e: IpInfoView)
    requires
        ip_sorted(s),
        0 <= pos <= s.len(),
        forall|k: int| 0 <= k < pos ==> ip_lt(s[k].ip, e.ip),
        forall|k: int| pos <= k < s.len() ==> ip_lt(e.ip, s[k].ip),
    ensures
        ip_sorted(s.insert(pos, e)),
        record_map(s.insert(pos, e)) == record_map(s).insert(e.ip, e),
{
    let t = s.insert(pos, e);
    assert forall|i: int, j: int| 0 <= i < j < t.len() implies ip_lt(
        #[trigger] t[i].ip,
        #[trigger] t[j].ip,
    ) by {
        if i < pos && j > pos {
            lemma_ip_lt_order(s[i].ip, e.ip, s[j - 1].ip);
        } else if j > pos {
            assert(ip_lt(s[i - 1].ip, s[j - 1].ip) || i == pos);
        }
    }
    assert forall|ip: IpAddress| #[trigger] record_map(t).contains_key(ip) <==> record_map(
        s,
    ).insert(e.ip, e).contains_key(ip) by {
        if record_map(t).contains_key(ip) {
            let k = choose|k: int| 0 <= k < t.len() && t[k].ip == ip;
            if k < pos {
                assert(s[k].ip == ip);
            } else if k > pos {
                assert(s[k - 1].ip == ip);
            }
        }
        if record_map(s).contains_key(ip) {
            let k = choose|k: int| 0 <= k < s.len() && s[k].ip == ip;
            if k < pos {
                assert(t[k].ip == ip);
            } else {
                assert(t[k + 1].ip == ip);
            }
        }
        if ip == e.ip {
            assert(t[pos].ip == ip);
        }
    }
    assert forall|ip: IpAddress| #[trigger] record_map(t).contains_key(ip) implies record_map(t)[ip]
        == record_map(s).insert(e.ip, e)[ip] by {
        let k = choose|k: int| 0 <= k < t.len() && t[k].ip == ip;
        if ip == e.ip {
            if k != pos {
                if k < pos {
                    lemma_ip_lt_order(t[k].ip, e.ip, e.ip);
                } else {
                    lemma_ip_lt_order(e.ip, t[k].ip, t[k].ip);
                }
            }
        } else {
            let j = choose|j: int| 0 <= j < s.len() && s[j].ip == ip;
            if k < pos {
                if j != k {
                    if j < k {
                        assert(ip_lt(s[j].ip, s[k].ip));
                    } else {
                        assert(ip_lt(s[k].ip, s[j].ip));
                    }
                }
            } else {
                assert(k != pos);
                if j != k - 1 {
                    if j < k - 1 {
                        assert(ip_lt(s[j].ip, s[k - 1].ip));
                    } else {
                        assert(ip_lt(s[k - 1].ip, s[j].ip));
                    }
                }
            }
        }
    }
    assert(record_map(t) =~= record_map(s).insert(e.ip, e));
}

proof fn lemma_map_update_at(s: Seq<IpInfoView>, k: int, e: IpInfoView)
    requires
        ip_sorted(s),
        0 <= k < s.len(),
        e.ip == s[k].ip,
    ensures
        ip_sorted(s.update(k, e)),
        record_map(s.update(k, e)) == record_map(s).insert(e.ip, e),
{
    let t = s.update(k, e);
    assert forall|i: int, j: int| 0 <= i < j < t.len() implies ip_lt(
        #[trigger] t[i].ip,
        #[trigger] t[j].ip,
    ) by {
        assert(ip_lt(s[i].ip, s[j].ip));
    }
    assert forall|ip: IpAddress| #[trigger] record_map(t).contains_key(ip) <==> record_map(
        s,
    ).insert(e.ip, e).contains_key(ip) by {
        if record_map(t).contains_key(ip) {
            let j = choose|j: int| 0 <= j < t.len() && t[j].ip == ip;
            assert(s[j].ip == ip);
        }
        if record_map(s).contains_key(ip) {
            let j = choose|j: int| 0 <= j < s.len() && s[j].ip == ip;
            assert(t[j].ip == ip);
        }
        if ip == e.ip {
            assert(t[k].ip == ip);
        }
    }
    assert forall|ip: IpAddress| #[trigger] record_map(t).contains_key(ip) implies record_map(t)[ip]
        == record_map(s).insert(e.ip, e)[ip] by {
        let j = choose|j: int| 0 <= j < t.len() && t[j].ip == ip;
        if ip == e.ip {
            if j != k {
                if j < k {
                    assert(ip_lt(s[j].ip, s[k].ip));
                } else {
                    assert(ip_lt(s[k].ip, s[j].ip));
                }
            }
        } else {
            let m = choose|m: int| 0 <= m < s.len() && s[m].ip == ip;
            if m != j {
                if m < j {
                    assert(ip_lt(s[m].ip, s[j].ip));
                } else {
                    assert(ip_lt(s[j].ip, s[m].ip));
                }
            }
        }
    }
    assert(record_map(t) =~= record_map(s).insert(e.ip, e));
}

/// Host records keyed by address.
#[derive(Debug)]
pub struct IpDb {
    ip_info: Vec<IpInfo>,
}

impl IpDb {
    /// The records in ascending address order.
    pub closed spec fn records(&self) -> Seq<IpInfoView> {
        self.ip_info@.map_values(|i: IpInfo| i@)
    }

    /// The records by address.
    pub open spec fn map(&self) -> Map<IpAddress, IpInfoView> {
        record_map(self.records())
    }

    /// The records are kept in strictly ascending address order.
    pub open spec fn wf(&self) -> bool {
        ip_sorted(self.records())
    }

    pub fn new() -> (r: Self)
        ensures
            r.wf(),
            r.records() == Seq::<IpInfoView>::empty(),
    {
        let r = IpDb { ip_info: Vec::new() };
        assert(r.records() =~= Seq::<IpInfoView>::empty());
        r
    }

    /// The number of hosts.
    pub fn len(&self) -> (r: usize)
        ensures
            r == self.records().len(),
    {
        self.ip_info.len()
    }

    /// Stores a report: a known address gets `merged_record`, a new one the
    /// report as it is.
    pub fn insert(&mut self, ip_info: IpInfo)
        requires
            old(self).wf(),
        ensures
            final(self).wf(),
            final(self).map() == old(self).map().insert(
                ip_info.ip,
                if old(self).map().contains_key(ip_info.ip) {
                    merged_record(old(self).map()[ip_info.ip], ip_info@)
                } else {
                    ip_info@
                },
            ),
    {
        let ghost s = self.records();
        let ip = ip_info.ip;
        let mut pos: usize = 0;
        while pos < self.ip_info.len()
            invariant
                pos <= self.ip_info.len(),
                s == self.records(),
                ip_sorted(s),
                forall|k: int| 0 <= k < pos ==> ip_lt(s[k].ip, ip),
            ensures
                pos <= self.ip_info.len(),
                forall|k: int| 0 <= k < pos ==> ip_lt(s[k].ip, ip),
                pos < self.ip_info.len() ==> !ip_lt(s[pos as int].ip, ip),
            decreases self.ip_info.len() - pos,
        {
            assert(s[pos as int] == self.ip_info@[pos as int]@);
            if !ip_before(self.ip_info[pos].ip, ip) {
                break;
            }
            pos = pos + 1;
        }
        if pos < self.ip_info.len() && self.ip_info[pos].ip == ip {
            let mut entry = self.ip_info.remove(pos);
            let ghost old_e = entry@;
            assert(old_e == s[pos as int]);
            entry.seen_count = entry.seen_count.wrapping_add(1);
            append_missing_texts(&mut entry.names, &ip_info.names);
            let ghost e = entry@;
            assert(e == merged_record(old_e, ip_info@));
            self.ip_info.insert(pos, entry);
            assert(self.records() =~= s.update(pos as int, e));
            proof {
                lemma_map_update_at(s, pos as int, e);
                let m = record_map(s);
                assert(m.contains_key(ip));
                let j = choose|j: int| 0 <= j < s.len() && s[j].ip == ip;
                if j != pos {
                    if j < pos {
                        assert(ip_lt(s[j].ip, s[pos as int].ip));
                    } else {
                        assert(ip_lt(s[pos as int].ip, s[j].ip));
                    }
                }
            }
        } else {
            proof {
                assert forall|k: int| pos <= k < s.len() implies ip_lt(ip, s[k].ip) by {
                    assert(!ip_lt(s[pos as int].ip, ip));
                    assert(s[pos as int].ip != ip) by {
                        assert(s[pos as int] == self.ip_info@[pos as int]@);
                    }
                    if k > pos {
                        assert(ip_lt(s[pos as int].ip, s[k].ip));
                        lemma_ip_lt_order(ip, s[pos as int].ip, s[k].ip);
                    }
                    lemma_ip_lt_order(ip, s[pos as int].ip, s[pos as int].ip);
                }
                if record_map(s).contains_key(ip) {
                    let j = choose|j: int| 0 <= j < s.len() && s[j].ip == ip;
                    if j < pos {
                        lemma_ip_lt_order(ip, ip, ip);
                    } else {
                        lemma_ip_lt_order(ip, ip, ip);
                    }
                }
            }
            let ghost e = ip_info@;
            self.ip_info.insert(pos, ip_info);
            assert(self.records() =~= s.insert(pos as int, e));
            proof {
                lemma_map_insert_at(s, pos as int, e);
            }
        }
    }

    /// The records in ascending address order, only those whose address text
    /// or one of whose names contains the pattern where one is given.
    pub fn get_ip_info(&self, filter_pattern: Option<&str>) -> (r: Vec<&IpInfo>)
        requires
            self.wf(),
        ensures
            r@.map_values(|i: &IpInfo| i@) == matching(
                self.records(),
                match filter_pattern {
                    Some(p) => Some(p@),
                    None => None,
                },
            ),
    {
        let ghost pat = match filter_pattern {
            Some(p) => Some(p@),
            None => None::<Seq<char>>,
        };
        let mut r: Vec<&IpInfo> = Vec::new();
        let mut i: usize = 0;
        while i < self.ip_info.len()
            invariant
                i <= self.ip_info.len(),
                pat == match filter_pattern {
                    Some(p) => Some(p@),
                    None => None::<Seq<char>>,
                },
                r@.map_values(|x: &IpInfo| x@) == matching(self.records().take(i as int), pat),
            decreases self.ip_info.len() - i,
        {
            let ghost t = self.records();
            assert(t.take(i + 1).drop_last() =~= t.take(i as int));
            assert(t.take(i + 1).last() == self.ip_info@[i as int]@);
            let keep = match filter_pattern {
                Some(p) => self.ip_info[i].contains(p),
                None => true,
            };
            if keep {
                let ghost before = r@;
                r.push(&self.ip_info[i]);
                assert(r@.map_values(|x: &IpInfo| x@) =~= before.map_values(|x: &IpInfo| x@).push(
                    self.ip_info@[i as int]@,
                ));
            }
            i = i + 1;
        }
        assert(self.records().take(self.ip_info.len() as int) =~= self.records());
        r
    }
}

/// Without a pattern every record is listed.
pub proof fn lemma_no_pattern_lists_all(s: Seq<IpInfoView>)
    ensures
        matching(s, None) == s,
    decreases s.len(),
{
    if s.len() > 0 {
        lemma_no_pattern_lists_all(s.drop_last());
        assert(s.drop_last().push(s.last()) =~= s);
    }
}

/// Every listed record matches the pattern and is one of the records, and the
/// listing keeps the records' order.
pub proof fn lemma_listing_is_filtered(s: Seq<IpInfoView>, p: Seq<char>)
    ensures
        forall|i: int| 0 <= i < matching(s, Some(p)).len() ==> info_matches(
            #[trigger] matching(s, Some(p))[i].ip,
            matching(s, Some(p))[i].names,
            p,
        ) && s.contains(matching(s, Some(p))[i]),
        matching(s, Some(p)).len() <= s.len(),
    decreases s.len(),
{
    if s.len() > 0 {
        lemma_listing_is_filtered(s.drop_last(), p);
        let r = matching(s.drop_last(), Some(p));
        assert forall|i: int| 0 <= i < matching(s, Some(p)).len() implies info_matches(
            #[trigger] matching(s, Some(p))[i].ip,
            matching(s, Some(p))[i].names,
            p,
        ) && s.contains(matching(s, Some(p))[i]) by {
            let m = matching(s, Some(p));
            if i < r.len() {
                assert(m[i] == r[i]);
                assert(s.drop_last().contains(r[i]));
                let k = choose|k: int| 0 <= k < s.drop_last().len() && s.drop_last()[k] == r[i];
                assert(s[k] == r[i]);
            } else {
                assert(m[i] == s.last());
                assert(s[s.len() - 1] == s.last());
            }
        }
    }
}

/// Addresses come out in ascending order: without a pattern the listing is
/// the whole store, which is kept in strictly ascending address order.
pub proof fn lemma_listing_ascending(s: Seq<IpInfoView>)
    requires
        ip_sorted(s),
    ensures
        ip_sorted(matching(s, None)),
{
    lemma_no_pattern_lists_all(s);
}

/// A record with a name or a service.
pub open spec fn not_bare() -> spec_fn(IpInfoView) -> bool {
    |v: IpInfoView| v.names.len() > 0 || v.services is Some
}

/// The records shown: those matching the pattern, and, where bare
/// addresses are hidden, only those with a name or a service.
pub open spec fn shown(s: Seq<IpInfoView>, pattern: Option<Seq<char>>, hide_bare_ips: bool) -> Seq<IpInfoView> {
    let m = matching(s, pattern);
    if hide_bare_ips {
        m.filter(not_bare())
    } else {
        m
    }
}

impl IpDb {
    /// The records the table shows (see `shown`), in address order.
    pub fn filtered_ip_info(&self, filter_pattern: Option<&str>, hide_bare_ips: bool) -> (r: Vec<&IpInfo>)
        requires
            self.wf(),
        ensures
            r@.map_values(|i: &IpInfo| i@) == shown(
                self.records(),
                match filter_pattern {
                    Some(p) => Some(p@),
                    None => None,
                },
                hide_bare_ips,
            ),
    {
        let all = self.get_ip_info(filter_pattern);
        if !hide_bare_ips {
            return all;
        }
        let ghost m = all@.map_values(|i: &IpInfo| i@);
        let ghost keep = not_bare();
        let mut r: Vec<&IpInfo> = Vec::new();
        let mut i: usize = 0;
        while i < all.len()
            invariant
                i <= all@.len(),
                m == all@.map_values(|x: &IpInfo| x@),
                keep == not_bare(),
                r@.map_values(|x: &IpInfo| x@) == m.take(i as int).filter(keep),
            decreases all@.len() - i,
        {
            let info = all[i];
            proof {
                reveal(Seq::filter);
            }
            assert(m.take(i + 1).drop_last() =~= m.take(i as int));
            assert(m.take(i + 1).last() == info@);
            assert(m.take(i + 1).filter(keep) == (if keep(info@) {
                m.take(i as int).filter(keep).push(info@)
            } else {
                m.take(i as int).filter(keep)
            }));
            assert(info@.names.len() == info.names@.len());
            assert((info@.services is Some) == (info.service_instances is Some));
            assert(keep(info@) == (info.names@.len() > 0 || info.service_instances is Some));
            let ghost before = r@;
            if info.names.len() > 0 || info.service_instances.is_some() {
                r.push(info);
                assert(r@.map_values(|x: &IpInfo| x@) =~= before.map_values(|x: &IpInfo| x@).push(info@));
            }
            i = i + 1;
        }
        assert(m.take(all@.len() as int) =~= m);
        r
    }
}

/// Hiding bare addresses only drops records: every record shown has a name
/// or a service and matches the pattern, and none is shown that would not be
/// shown with bare addresses visible.
pub proof fn lemma_hiding_only_drops_bare(s: Seq<IpInfoView>, p: Option<Seq<char>>)
    ensures
        shown(s, p, true).len() <= shown(s, p, false).len(),
        forall|i: int| 0 <= i < shown(s, p, true).len() ==> (#[trigger] not_bare()(shown(s, p, true)[i])
            && shown(s, p, false).contains(shown(s, p, true)[i])),
{
    let m = matching(s, p);
    m.lemma_filter_len(not_bare());
    assert forall|i: int| 0 <= i < shown(s, p, true).len() implies (#[trigger] not_bare()(shown(s, p, true)[i])
        && shown(s, p, false).contains(shown(s, p, true)[i])) by {
        m.lemma_filter_pred(not_bare(), i);
        let v = m.filter(not_bare())[i];
        assert(m.filter(not_bare()).contains(v));
        m.lemma_filter_contains_rev(not_bare(), v);
    }
}

/// Every listed record is one of the records.
proof fn lemma_matching_within(s: Seq<IpInfoView>, pattern: Option<Seq<char>>)
    ensures
        forall|k: int| 0 <= k < matching(s, pattern).len() ==> s.contains(#[trigger] matching(s, pattern)[k]),
    decreases s.len(),
{
    if s.len() > 0 {
        lemma_matching_within(s.drop_last(), pattern);
        let r = matching(s.drop_last(), pattern);
        let m = matching(s, pattern);
        assert forall|k: int| 0 <= k < m.len() implies s.contains(#[trigger] m[k]) by {
            if k < r.len() {
                assert(m[k] == r[k]);
                let j = choose|j: int| 0 <= j < s.drop_last().len() && s.drop_last()[j] == r[k];
                assert(s[j] == r[k]);
            } else {
                assert(m[k] == s[s.len() - 1]);
            }
        }
    }
}

/// Filtering keeps the ascending address order.
proof fn lemma_matching_sorted(s: Seq<IpInfoView>, pattern: Option<Seq<char>>)
    requires
        ip_sorted(s),
    ensures
        ip_sorted(matching(s, pattern)),
    decreases s.len(),
{
    if s.len() > 0 {
        let d = s.drop_last();
        assert(ip_sorted(d)) by {
            assert forall|i: int, j: int| 0 <= i < j < d.len() implies ip_lt(#[trigger] d[i].ip, #[trigger] d[j].ip) by {
                assert(d[i] == s[i] && d[j] == s[j]);
            }
        }
        lemma_matching_sorted(d, pattern);
        lemma_matching_within(d, pattern);
        let r = matching(d, pattern);
        let m = matching(s, pattern);
        if m != r {
            assert forall|i: int, j: int| 0 <= i < j < m.len() implies ip_lt(#[trigger] m[i].ip, #[trigger] m[j].ip) by {
                if j < r.len() {
                    assert(m[i] == r[i] && m[j] == r[j]);
                } else {
                    assert(m[i] == r[i]);
                    assert(d.contains(r[i]));
                    let q = choose|q: int| 0 <= q < d.len() && d[q] == r[i];
                    assert(s[q] == r[i]);
                    assert(m[j] == s[s.len() - 1]);
                }
            }
        }
    }
}

/// The table lists hosts by ascending numeric address: in a store kept in
/// address order, whatever the filter, of two listed version 4 hosts the one
/// listed first has the smaller 32-bit address, and version 4 hosts come
/// before version 6 hosts.
pub proof fn lemma_listing_numeric_order(s: Seq<IpInfoView>, pattern: Option<Seq<char>>)
    requires
        ip_sorted(s),
    ensures
        forall|i: int, j: int|
            0 <= i < j < matching(s, pattern).len() && (#[trigger] matching(s, pattern)[i]).ip is V4 && (
            #[trigger] matching(s, pattern)[j]).ip is V4 ==> matching(s, pattern)[i].ip->V4_0 < matching(
                s,
                pattern,
            )[j].ip->V4_0,
        forall|i: int, j: int|
            0 <= i < j < matching(s, pattern).len() && (#[trigger] matching(s, pattern)[i]).ip is V6 ==> !((
            #[trigger] matching(s, pattern)[j]).ip is V4),
{
    lemma_matching_sorted(s, pattern);
    let m = matching(s, pattern);
    assert forall|i: int, j: int| 0 <= i < j < m.len() && (#[trigger] m[i]).ip is V4 && (#[trigger] m[j]).ip is V4 implies m[i].ip->V4_0 < m[j].ip->V4_0 by {
        assert(ip_lt(m[i].ip, m[j].ip));
    }
    assert forall|i: int, j: int| 0 <= i < j < m.len() && (#[trigger] m[i]).ip is V6 implies !((#[trigger] m[j]).ip is V4) by {
        assert(ip_lt(m[i].ip, m[j].ip));
    }
}

} // verus!
