//! Names heard in mDNS traffic, per address.
use vstd::prelude::*;
use crate::ip_address::{IpAddress, ip_text};
use crate::ip_info::lines_text;
use crate::lexical::{append_missing, append_missing_texts, texts};
use crate::strings::{dec, push_decimal, push_str};

verus! {

/// One address as plain values.
pub struct MdnsView {
    pub ip: IpAddress,
    pub names: Seq<Seq<char>>,
    pub extra: Option<Seq<char>>,
    pub seen_count: u64,
}

/// The names seen for one address.
#[derive(Debug)]
pub struct MdnsInfo {
    pub ip: IpAddress,
    pub names: Vec<String>,
    pub extra: Option<String>,
    pub seen_count: u64,
}

impl View for MdnsInfo {
    type V = MdnsView;

    open spec fn view(&self) -> MdnsView {
        MdnsView {
            ip: self.ip,
            names: texts(self.names@),
            extra: crate::ip_info::opt_text(self.extra),
            seen_count: self.seen_count,
        }
    }
}

/// How an address is shown: `ip: names (seen n times)`, the names each
/// followed by a line break.
pub open spec fn mdns_text(m: MdnsView) -> Seq<char> {
    ip_text(m.ip) + seq![':', ' '] + lines_text(m.names) + " (seen "@ + dec(m.seen_count as nat)
        + " times)"@
}

/// The record after another report about its address: seen once more
/// (wrapping at `u64::MAX`) and the reported names it lacked appended.
pub open spec fn merged_mdns(old: MdnsView, new: MdnsView) -> MdnsView {
    MdnsView {
        ip: old.ip,
        names: append_missing(old.names, new.names),
        extra: old.extra,
        seen_count: old.seen_count.wrapping_add(1),
    }
}

impl MdnsInfo {
    /// An address first seen now: no names, seen once.
    pub fn from_ip(ip: IpAddress) -> (r: Self)
        ensures
            r@ == (MdnsView {
                ip,
                names: Seq::<Seq<char>>::empty(),
                extra: None::<Seq<char>>,
                seen_count: 1,
            }),
    {
        let r = MdnsInfo { ip, names: Vec::new(), extra: None, seen_count: 1 };
        assert(r@.names =~= Seq::<Seq<char>>::empty());
        r
    }

    pub fn ip(&self) -> (r: IpAddress)
        ensures
            r == self.ip,
    {
        self.ip
    }

    pub fn names(&self) -> (r: &[String])
        ensures
            texts(r@) == self@.names,
    {
        self.names.as_slice()
    }

    pub fn seen_count(&self) -> (r: u64)
        ensures
            r == self.seen_count,
    {
        self.seen_count
    }

    /// The names, each followed by a line break.
    pub fn names_multiline_string(&self) -> (r: String)
        ensures
            r@ == lines_text(self@.names),
    {
        let mut s = String::new();
        let mut i: usize = 0;
        while i < self.names.len()
            invariant
                i <= self.names.len(),
                s@ == lines_text(texts(self.names@).take(i as int)),
            decreases self.names.len() - i,
        {
            let ghost t = texts(self.names@);
            assert(t.take(i + 1).drop_last() =~= t.take(i as int));
            assert(t.take(i + 1).last() == self.names@[i as int]@);
            push_str(&mut s, self.names[i].as_str());
            s.push('\n');
            assert(s@ =~= lines_text(t.take(i + 1)));
            i = i + 1;
        }
        assert(texts(self.names@).take(self.names.len() as int) =~= texts(self.names@));
        s
    }

    /// The three columns of the row: address, names and times seen.
    pub fn ref_array(&self) -> (r: [String; 3])
        ensures
            r[0]@ == ip_text(self.ip),
            r[1]@ == lines_text(self@.names),
            r[2]@ == dec(self.seen_count as nat),
    {
        let mut seen = String::new();
        push_decimal(&mut seen, self.seen_count);
        [self.ip.text(), self.names_multiline_string(), seen]
    }

    /// How the address is shown (see `mdns_text`).
    pub fn text(&self) -> (r: String)
        ensures
            r@ == mdns_text(self@),
    {
        let mut s = self.ip.text();
        s.push(':');
        s.push(' ');
        let names = self.names_multiline_string();
        push_str(&mut s, names.as_str());
        push_str(&mut s, " (seen ");
        push_decimal(&mut s, self.seen_count);
        push_str(&mut s, " times)");
        assert(s@ =~= mdns_text(self@));
        s
    }
}

/// Addresses heard from so far, in the order they were first heard.
#[derive(Debug)]
pub struct AccumulatedMdnsInfo {
    collection: Vec<MdnsInfo>,
}

impl AccumulatedMdnsInfo {
    /// The records in the order their addresses were first heard.
    pub closed spec fn records(&self) -> Seq<MdnsView> {
        self.collection@.map_values(|m: MdnsInfo| m@)
    }

    /// No two records share an address.
    pub open spec fn wf(&self) -> bool {
        forall|i: int, j: int|
            0 <= i < self.records().len() && 0 <= j < self.records().len() && i != j
                ==> self.records()[i].ip != self.records()[j].ip
    }

    pub fn new() -> (r: Self)
        ensures
            r.wf(),
            r.records() == Seq::<MdnsView>::empty(),
    {
        let r = AccumulatedMdnsInfo { collection: Vec::new() };
        assert(r.records() =~= Seq::<MdnsView>::empty());
        r
    }

    pub fn len(&self) -> (r: usize)
        ensures
            r == self.records().len(),
    {
        self.collection.len()
    }

    /// The records.
    pub fn collection(&self) -> (r: &[MdnsInfo])
        ensures
            r@.map_values(|m: MdnsInfo| m@) == self.records(),
    {
        self.collection.as_slice()
    }

    /// Stores a report: a known address gets `merged_mdns`, a new one is
    /// appended as it is.
    pub fn insert(&mut self, mdns_info: MdnsInfo)
        requires
            old(self).wf(),
        ensures
            final(self).wf(),
            (exists|k: int|
                0 <= k < old(self).records().len() && old(self).records()[k].ip == mdns_info.ip
                    && final(self).records() == old(self).records().update(
                    k,
                    merged_mdns(old(self).records()[k], mdns_info@),
                )) || ((forall|k: int|
                0 <= k < old(self).records().len() ==> old(self).records()[k].ip != mdns_info.ip)
                && final(self).records() == old(self).records().push(mdns_info@)),
    {
        let ghost s = self.records();
        let mut k: usize = 0;
        while k < self.collection.len()
            invariant
                k <= self.collection.len(),
                s == self.records(),
                s == old(self).records(),
                self.wf(),
                forall|j: int| 0 <= j < k ==> s[j].ip != mdns_info.ip,
            decreases self.collection.len() - k,
        {
            if self.collection[k].ip == mdns_info.ip {
                let mut entry = self.collection.remove(k);
                let ghost old_e = entry@;
                assert(old_e == s[k as int]);
                entry.seen_count = entry.seen_count.wrapping_add(1);
                append_missing_texts(&mut entry.names, &mdns_info.names);
                let ghost e = entry@;
                self.collection.insert(k, entry);
                assert(self.records() =~= s.update(k as int, e));
                assert(self.records()[k as int].ip == s[k as int].ip);
                assert(forall|i: int| 0 <= i < s.len() ==> self.records()[i].ip == s[i].ip);
                assert(s[k as int].ip == mdns_info.ip);
                return;
            }
            k = k + 1;
        }
        let ghost e = mdns_info@;
        self.collection.push(mdns_info);
        assert(self.records() =~= s.push(e));
    }

    /// Each address as shown (see `mdns_text`), in storage order.
    pub fn get_as_str_vec(&self) -> (r: Vec<String>)
        ensures
            texts(r@) == self.records().map_values(|m: MdnsView| mdns_text(m)),
    {
        let mut r: Vec<String> = Vec::new();
        let mut i: usize = 0;
        while i < self.collection.len()
            invariant
                i <= self.collection.len(),
                texts(r@) == self.records().map_values(|m: MdnsView| mdns_text(m)).take(i as int),
            decreases self.collection.len() - i,
        {
            let ghost before = r@;
            let line = self.collection[i].text();
            assert(self.records()[i as int] == self.collection@[i as int]@);
            r.push(line);
            assert(texts(r@) =~= texts(before).push(line@));
            assert(texts(r@) =~= self.records().map_values(|m: MdnsView| mdns_text(m)).take(
                i + 1,
            ));
            i = i + 1;
        }
        assert(self.records().map_values(|m: MdnsView| mdns_text(m)).take(
            self.collection.len() as int,
        ) =~= self.records().map_values(|m: MdnsView| mdns_text(m)));
        r
    }
}

} // verus!
