//! DNS-SD service discovery: the registry that assembles services from the
//! PTR, SRV, TXT, A and AAAA records of the replies, and what to ask next.
use vstd::prelude::*;
use std::time::Instant;
use crate::clock::instant_now;
use crate::ip_address::IpAddress;
use crate::ip_info::{
    IpInfo, IpInfoView, LastKnownStatus, ServiceInstance, ServiceView, opt_text, opt_texts,
};
use crate::lexical::{copy_texts, texts};
use crate::net::DNS_SD_QUERY_ALL;
use crate::strings::{ends_with, push_str, str_ends_with, str_eq};

verus! {

/// A service found by discovery, with everything needed to reach it.
#[derive(Debug)]
pub struct ServiceInfo {
    pub name: String,
    pub _type: String,
    pub txt: Option<Vec<String>>,
    pub host: String,
    pub ip: IpAddress,
    pub port: u16,
}

/// A found service as plain values.
pub struct ServiceInfoView {
    pub name: Seq<char>,
    pub service_type: Seq<char>,
    pub txt: Option<Seq<Seq<char>>>,
    pub host: Seq<char>,
    pub ip: IpAddress,
    pub port: u16,
}

impl View for ServiceInfo {
    type V = ServiceInfoView;

    open spec fn view(&self) -> ServiceInfoView {
        ServiceInfoView {
            name: self.name@,
            service_type: self._type@,
            txt: opt_texts(self.txt),
            host: self.host@,
            ip: self.ip,
            port: self.port,
        }
    }
}

/// The host record that a found service reports: its address, no names, the
/// one service (announced under its host name), online, seen once, stamped `t`.
pub open spec fn service_report(s: ServiceInfoView, t: Instant) -> IpInfoView {
    IpInfoView {
        ip: s.ip,
        names: Seq::empty(),
        services: Some(
            seq![
                ServiceView {
                    name: s.name,
                    hostname: Some(s.host),
                    service_type: s.service_type,
                    port: s.port,
                    txt: s.txt,
                },
            ],
        ),
        status: LastKnownStatus::Online,
        seen_count: 1,
        last_updated: t,
    }
}

impl IpInfo {
    /// The host record that a found service reports (see `service_report`),
    /// stamped with the current time.
    pub fn from_service_info(s: ServiceInfo) -> (r: IpInfo)
        ensures
            r@ == service_report(s@, r.last_updated),
    {
        let ghost sv = s@;
        let instance = ServiceInstance::new(s.name, s._type, Some(s.host), s.port, s.txt);
        let mut list: Vec<ServiceInstance> = Vec::new();
        list.push(instance);
        let r = IpInfo {
            ip: s.ip,
            names: Vec::new(),
            service_instances: Some(list),
            last_known_status: LastKnownStatus::Online,
            seen_count: 1,
            last_updated: instant_now(),
        };
        assert(r@.names =~= Seq::<Seq<char>>::empty());
        assert(r@.services->0 =~= service_report(sv, r.last_updated).services->0);
        r
    }
}

/// A service being assembled from replies.
#[derive(Debug)]
pub struct TempServiceInfo {
    pub name: String,
    pub _type: String,
    pub txt: Option<Vec<String>>,
    pub host: Option<String>,
    pub ip: Option<IpAddress>,
    pub port: Option<u16>,
}

/// A service being assembled, as plain values.
pub struct TempView {
    pub name: Seq<char>,
    pub service_type: Seq<char>,
    pub txt: Option<Seq<Seq<char>>>,
    pub host: Option<Seq<char>>,
    pub ip: Option<IpAddress>,
    pub port: Option<u16>,
}

impl View for TempServiceInfo {
    type V = TempView;

    open spec fn view(&self) -> TempView {
        TempView {
            name: self.name@,
            service_type: self._type@,
            txt: opt_texts(self.txt),
            host: opt_text(self.host),
            ip: self.ip,
            port: self.port,
        }
    }
}

/// An instance's name without a trailing `.` and service type, where it has one.
pub open spec fn trimmed_name(name: Seq<char>, service_type: Seq<char>) -> Seq<char> {
    let suffix = seq!['.'] + service_type;
    if ends_with(name, suffix) {
        name.take(name.len() - suffix.len())
    } else {
        name
    }
}

/// Whether host, address and port are all known.
pub open spec fn is_complete(t: TempView) -> bool {
    t.host is Some && t.ip is Some && t.port is Some
}

/// The found service that a complete entry makes.
pub open spec fn finished(t: TempView) -> ServiceInfoView {
    ServiceInfoView {
        name: trimmed_name(t.name, t.service_type),
        service_type: t.service_type,
        txt: t.txt,
        host: t.host->0,
        ip: t.ip->0,
        port: t.port->0,
    }
}

/// The found services made by the complete entries, in order.
pub open spec fn finished_all(s: Seq<TempView>) -> Seq<ServiceInfoView>
    decreases s.len(),
{
    if s.len() == 0 {
        Seq::empty()
    } else {
        let rest = finished_all(s.drop_last());
        if is_complete(s.last()) {
            rest.push(finished(s.last()))
        } else {
            rest
        }
    }
}

/// Some entry has `name`.
pub open spec fn has_instance(s: Seq<TempView>, name: Seq<char>) -> bool {
    exists|k: int| 0 <= k < s.len() && s[k].name == name
}

/// The position of the entry with `name`, where there is one.
pub open spec fn instance_index(s: Seq<TempView>, name: Seq<char>) -> int {
    choose|k: int| 0 <= k < s.len() && s[k].name == name
}

/// The entries with `f` applied to the one named `name`, if there is one.
pub open spec fn with_instance(s: Seq<TempView>, name: Seq<char>, e: TempView) -> Seq<TempView> {
    if has_instance(s, name) {
        s.update(instance_index(s, name), e)
    } else {
        s
    }
}

/// The views of a list of entries.
pub open spec fn temp_views(v: Seq<TempServiceInfo>) -> Seq<TempView> {
    v.map_values(|t: TempServiceInfo| t@)
}

/// The views of a list of found services.
pub open spec fn service_info_views(v: Seq<ServiceInfo>) -> Seq<ServiceInfoView> {
    v.map_values(|t: ServiceInfo| t@)
}

/// The entries after an address for `host` arrived: each entry on that host
/// gets the address.
pub open spec fn ip_for_host(s: Seq<TempView>, host: Seq<char>, ip: IpAddress) -> Seq<TempView> {
    s.map_values(
        |t: TempView|
            if t.host == Some(host) {
                TempView {
                    name: t.name,
                    service_type: t.service_type,
                    txt: t.txt,
                    host: t.host,
                    ip: Some(ip),
                    port: t.port,
                }
            } else {
                t
            },
    )
}

/// Services being assembled, one entry per instance name.
pub struct ServiceRegistry {
    services: Vec<TempServiceInfo>,
}

proof fn lemma_instance_index(s: Seq<TempView>, k: int)
    requires
        forall|i: int, j: int| 0 <= i < s.len() && 0 <= j < s.len() && i != j ==> s[i].name != s[j].name,
        0 <= k < s.len(),
    ensures
        has_instance(s, s[k].name),
        instance_index(s, s[k].name) == k,
{
    let j = instance_index(s, s[k].name);
    assert(s[j].name == s[k].name);
}

impl ServiceRegistry {
    /// The entries in the order their instances were first announced.
    pub closed spec fn entries(&self) -> Seq<TempView> {
        temp_views(self.services@)
    }

    /// No two entries share an instance name.
    pub open spec fn wf(&self) -> bool {
        forall|i: int, j: int|
            0 <= i < self.entries().len() && 0 <= j < self.entries().len() && i != j
                ==> self.entries()[i].name != self.entries()[j].name
    }

    pub fn new() -> (r: Self)
        ensures
            r.wf(),
            r.entries() == Seq::<TempView>::empty(),
    {
        let r = ServiceRegistry { services: Vec::new() };
        assert(r.entries() =~= Seq::<TempView>::empty());
        r
    }

    fn find(&self, instance: &str) -> (r: Option<usize>)
        requires
            self.wf(),
        ensures
            match r {
                Some(k) => k < self.entries().len() && has_instance(self.entries(), instance@)
                    && instance_index(self.entries(), instance@) == k,
                None => !has_instance(self.entries(), instance@),
            },
    {
        let mut k: usize = 0;
        while k < self.services.len()
            invariant
                k <= self.services.len(),
                self.wf(),
                forall|j: int| 0 <= j < k ==> self.entries()[j].name != instance@,
            decreases self.services.len() - k,
        {
            if str_eq(self.services[k].name.as_str(), instance) {
                proof {
                    assert(self.entries()[k as int].name == instance@);
                    lemma_instance_index(self.entries(), k as int);
                }
                return Some(k);
            }
            k = k + 1;
        }
        proof {
            if has_instance(self.entries(), instance@) {
                let j = instance_index(self.entries(), instance@);
                assert(self.entries()[j].name == instance@);
            }
        }
        None
    }

    /// Adds an entry for a newly announced instance; a known one is left as is.
    pub fn insert_or_update_instance(&mut self, instance: String, service_type: String)
        requires
            old(self).wf(),
        ensures
            final(self).wf(),
            final(self).entries() == if has_instance(old(self).entries(), instance@) {
                old(self).entries()
            } else {
                old(self).entries().push(
                    TempView {
                        name: instance@,
                        service_type: service_type@,
                        txt: None,
                        host: None,
                        ip: None,
                        port: None,
                    },
                )
            },
    {
        match self.find(instance.as_str()) {
            Some(_) => {},
            None => {
                let ghost s = self.entries();
                let t = TempServiceInfo {
                    name: instance,
                    _type: service_type,
                    txt: None,
                    host: None,
                    ip: None,
                    port: None,
                };
                let ghost tv = t@;
                self.services.push(t);
                assert(self.entries() =~= s.push(tv));
                proof {
                    assert forall|i: int, j: int|
                        0 <= i < self.entries().len() && 0 <= j < self.entries().len() && i != j
                            implies self.entries()[i].name != self.entries()[j].name by {
                        if i < s.len() && j < s.len() {
                        } else if i < s.len() {
                            assert(s[i].name != tv.name);
                        } else {
                            assert(s[j].name != tv.name);
                        }
                    }
                }
            },
        }
    }

    /// Sets the TXT records of a known instance.
    pub fn set_txt(&mut self, instance: &str, txt: Vec<String>)
        requires
            old(self).wf(),
        ensures
            final(self).wf(),
            final(self).entries() == with_instance(
                old(self).entries(),
                instance@,
                TempView {
                    txt: Some(texts(txt@)),
                    ..old(self).entries()[instance_index(old(self).entries(), instance@)]
                },
            ),
    {
        let ghost s = self.entries();
        match self.find(instance) {
            Some(k) => {
                let mut e = self.services.remove(k);
                e.txt = Some(txt);
                let ghost ev = e@;
                self.services.insert(k, e);
                assert(self.entries() =~= s.update(k as int, ev));
                assert(forall|i: int| 0 <= i < s.len() ==> self.entries()[i].name == s[i].name);
            },
            None => {},
        }
    }

    /// Sets host and port of a known instance.
    pub fn set_srv(&mut self, instance: &str, hostname: String, port: u16)
        requires
            old(self).wf(),
        ensures
            final(self).wf(),
            final(self).entries() == with_instance(
                old(self).entries(),
                instance@,
                TempView {
                    host: Some(hostname@),
                    port: Some(port),
                    ..old(self).entries()[instance_index(old(self).entries(), instance@)]
                },
            ),
    {
        let ghost s = self.entries();
        match self.find(instance) {
            Some(k) => {
                let mut e = self.services.remove(k);
                e.host = Some(hostname);
                e.port = Some(port);
                let ghost ev = e@;
                self.services.insert(k, e);
                assert(self.entries() =~= s.update(k as int, ev));
                assert(forall|i: int| 0 <= i < s.len() ==> self.entries()[i].name == s[i].name);
            },
            None => {},
        }
    }

    /// Gives the address to every entry on `hostname`.
    pub fn set_ip_for_host(&mut self, hostname: &str, ip: IpAddress)
        requires
            old(self).wf(),
        ensures
            final(self).wf(),
            final(self).entries() == ip_for_host(old(self).entries(), hostname@, ip),
    {
        let ghost s = self.entries();
        let mut k: usize = 0;
        while k < self.services.len()
            invariant
                k <= self.services.len(),
                self.entries().len() == s.len(),
                forall|i: int| 0 <= i < k ==> self.entries()[i] == ip_for_host(s, hostname@, ip)[i],
                forall|i: int| k <= i < s.len() ==> self.entries()[i] == s[i],
            decreases self.services.len() - k,
        {
            let on_host = match &self.services[k].host {
                Some(h) => str_eq(h.as_str(), hostname),
                None => false,
            };
            if on_host {
                let ghost cur = self.entries();
                let mut e = self.services.remove(k);
                e.ip = Some(ip);
                let ghost ev = e@;
                self.services.insert(k, e);
                assert(self.entries() =~= cur.update(k as int, ev));
            }
            assert(self.entries()[k as int] == ip_for_host(s, hostname@, ip)[k as int]);
            k = k + 1;
        }
        assert(self.entries() =~= ip_for_host(s, hostname@, ip));
        assert(forall|i: int| 0 <= i < s.len() ==> self.entries()[i].name == s[i].name);
    }

    /// The services that are complete (host, address and port known), with
    /// the service type trimmed from their names, in entry order.
    pub fn finalize(&self) -> (r: Vec<ServiceInfo>)
        ensures
            service_info_views(r@) == finished_all(self.entries()),
    {
        let mut r: Vec<ServiceInfo> = Vec::new();
        let mut i: usize = 0;
        while i < self.services.len()
            invariant
                i <= self.services.len(),
                service_info_views(r@) == finished_all(self.entries().take(i as int)),
            decreases self.services.len() - i,
        {
            let ghost t = self.entries();
            assert(t.take(i + 1).drop_last() =~= t.take(i as int));
            assert(t.take(i + 1).last() == self.services@[i as int]@);
            let temp = &self.services[i];
            match (&temp.host, temp.ip, temp.port) {
                (Some(host), Some(ip), Some(port)) => {
                    let mut suffix = String::new();
                    suffix.push('.');
                    push_str(&mut suffix, temp._type.as_str());
                    let n = temp.name.unicode_len();
                    let name: String = if str_ends_with(temp.name.as_str(), suffix.as_str()) {
                        let m = suffix.unicode_len();
                        temp.name.as_str().substring_char(0, n - m).to_owned()
                    } else {
                        temp.name.clone()
                    };
                    proof {
                        if ends_with(temp.name@, suffix@) {
                            assert(temp.name@.take(temp.name@.len() - suffix@.len()) =~= temp.name@.subrange(
                                0,
                                n - suffix@.len(),
                            ));
                        }
                    }
                    let info = ServiceInfo {
                        name,
                        _type: temp._type.clone(),
                        txt: match &temp.txt {
                            Some(v) => Some(copy_texts(v)),
                            None => None,
                        },
                        host: host.clone(),
                        ip,
                        port,
                    };
                    let ghost before = r@;
                    let ghost iv = info@;
                    assert(iv == finished(temp@));
                    r.push(info);
                    assert(service_info_views(r@) =~= service_info_views(before).push(iv));
                },
                _ => {},
            }
            i = i + 1;
        }
        assert(self.entries().take(self.services.len() as int) =~= self.entries());
        r
    }
}

/// One answer record of a DNS-SD reply, as plain values.
pub enum DnsAnswer {
    /// `name` points to `target` (a service type or an instance).
    Ptr { name: String, target: String },
    /// Instance `name` runs on `target` at `port`.
    Srv { name: String, target: String, port: u16 },
    /// The TXT strings of instance `name`.
    Txt { name: String, strings: Vec<String> },
    /// Host `name` has version 4 address `ip`.
    A { name: String, ip: u32 },
    /// Host `name` has version 6 address `ip`.
    Aaaa { name: String, ip: u128 },
    /// Any other record.
    Other,
}

/// The query to send after an answer.
#[derive(Debug)]
pub enum FollowUp {
    /// Ask for the instances of a service type.
    QueryPtr(String),
    /// Ask for the SRV and TXT records of an instance.
    QuerySrvAndTxt(String),
    /// Ask for the addresses of a host.
    QueryAAndAaaa(String),
    /// Nothing to ask.
    Nothing,
}

/// Whether a PTR answer lists service types (it answers the query for all services).
pub open spec fn lists_service_types(name: Seq<char>) -> bool {
    name == "_services._dns-sd._udp.local"@
}

/// Applies one answer to the registry and says what to ask next: a service
/// type from the query for all services is asked for its instances; another
/// PTR names an instance, which is registered and asked for its SRV and TXT;
/// an SRV sets host and port and asks for the host's addresses; TXT, A and
/// AAAA set what they carry.
pub fn handle_answer(registry: &mut ServiceRegistry, answer: DnsAnswer) -> (r: FollowUp)
    requires
        old(registry).wf(),
    ensures
        final(registry).wf(),
        match answer {
            DnsAnswer::Ptr { name, target } => if lists_service_types(name@) {
                final(registry).entries() == old(registry).entries() && r == FollowUp::QueryPtr(
                    target,
                )
            } else {
                final(registry).entries() == (if has_instance(old(registry).entries(), target@) {
                    old(registry).entries()
                } else {
                    old(registry).entries().push(
                        TempView {
                            name: target@,
                            service_type: name@,
                            txt: None,
                            host: None,
                            ip: None,
                            port: None,
                        },
                    )
                }) && (r matches FollowUp::QuerySrvAndTxt(t) && t@ == target@)
            },
            DnsAnswer::Srv { name, target, port } => final(registry).entries() == with_instance(
                old(registry).entries(),
                name@,
                TempView {
                    host: Some(target@),
                    port: Some(port),
                    ..old(registry).entries()[instance_index(old(registry).entries(), name@)]
                },
            ) && (r matches FollowUp::QueryAAndAaaa(t) && t@ == target@),
            DnsAnswer::Txt { name, strings } => final(registry).entries() == with_instance(
                old(registry).entries(),
                name@,
                TempView {
                    txt: Some(texts(strings@)),
                    ..old(registry).entries()[instance_index(old(registry).entries(), name@)]
                },
            ) && r == FollowUp::Nothing,
            DnsAnswer::A { name, ip } => final(registry).entries() == ip_for_host(
                old(registry).entries(),
                name@,
                IpAddress::V4(ip),
            ) && r == FollowUp::Nothing,
            DnsAnswer::Aaaa { name, ip } => final(registry).entries() == ip_for_host(
                old(registry).entries(),
                name@,
                IpAddress::V6(ip),
            ) && r == FollowUp::Nothing,
            DnsAnswer::Other => final(registry).entries() == old(registry).entries() && r
                == FollowUp::Nothing,
        },
{
    match answer {
        DnsAnswer::Ptr { name, target } => {
            proof {
                reveal_strlit("_services._dns-sd._udp.local");
            }
            if str_eq(name.as_str(), DNS_SD_QUERY_ALL) {
                FollowUp::QueryPtr(target)
            } else {
                let follow = target.clone();
                registry.insert_or_update_instance(target, name);
                FollowUp::QuerySrvAndTxt(follow)
            }
        },
        DnsAnswer::Srv { name, target, port } => {
            let follow = target.clone();
            registry.set_srv(name.as_str(), target, port);
            FollowUp::QueryAAndAaaa(follow)
        },
        DnsAnswer::Txt { name, strings } => {
            registry.set_txt(name.as_str(), strings);
            FollowUp::Nothing
        },
        DnsAnswer::A { name, ip } => {
            registry.set_ip_for_host(name.as_str(), IpAddress::V4(ip));
            FollowUp::Nothing
        },
        DnsAnswer::Aaaa { name, ip } => {
            registry.set_ip_for_host(name.as_str(), IpAddress::V6(ip));
            FollowUp::Nothing
        },
        DnsAnswer::Other => FollowUp::Nothing,
    }
}

/// Finalizing lists only complete services, each made from one entry, and
/// never more services than entries.
pub proof fn lemma_finalize_only_complete(s: Seq<TempView>)
    ensures
        finished_all(s).len() <= s.len(),
        forall|i: int| 0 <= i < finished_all(s).len() ==> exists|k: int|
            0 <= k < s.len() && is_complete(s[k]) && #[trigger] finished_all(s)[i] == finished(s[k]),
    decreases s.len(),
{
    if s.len() > 0 {
        lemma_finalize_only_complete(s.drop_last());
        let r = finished_all(s.drop_last());
        assert forall|i: int| 0 <= i < finished_all(s).len() implies exists|k: int|
            0 <= k < s.len() && is_complete(s[k]) && #[trigger] finished_all(s)[i] == finished(s[k]) by {
            if i < r.len() {
                let k = choose|k: int|
                    0 <= k < s.drop_last().len() && is_complete(s.drop_last()[k]) && r[i] == finished(
                        s.drop_last()[k],
                    );
                assert(s[k] == s.drop_last()[k]);
                assert(finished_all(s)[i] == r[i]);
            } else {
                assert(finished_all(s)[i] == finished(s.last()));
                assert(s[s.len() - 1] == s.last());
            }
        }
    }
}

/// An instance named `name.type` is listed as `name`.
pub proof fn lemma_type_suffix_trimmed(name: Seq<char>, service_type: Seq<char>)
    ensures
        trimmed_name(name + seq!['.'] + service_type, service_type) == name,
{
    let full = name + seq!['.'] + service_type;
    let suffix = seq!['.'] + service_type;
    assert(full.skip(full.len() - suffix.len()) =~= suffix);
    assert(full.take(full.len() - suffix.len()) =~= name);
}

/// An address for a host reaches every service on that host: afterwards
/// each entry whose host is that name has the address, and an entry that
/// also has its port is complete; entries on other hosts are unchanged, and
/// no entry loses or changes anything but its address.
pub proof fn lemma_address_reaches_every_service_on_host(s: Seq<TempView>, host: Seq<char>, ip: IpAddress)
    ensures
        ip_for_host(s, host, ip).len() == s.len(),
        forall|i: int|
            0 <= i < s.len() && s[i].host == Some(host) ==> (#[trigger] ip_for_host(s, host, ip)[i]).ip == Some(ip),
        forall|i: int|
            0 <= i < s.len() && s[i].host == Some(host) && s[i].port is Some ==> is_complete(
                #[trigger] ip_for_host(s, host, ip)[i],
            ),
        forall|i: int|
            0 <= i < s.len() && s[i].host != Some(host) ==> #[trigger] ip_for_host(s, host, ip)[i] == s[i],
        forall|i: int|
            0 <= i < s.len() ==> {
                let t = #[trigger] ip_for_host(s, host, ip)[i];
                &&& t.name == s[i].name
                &&& t.service_type == s[i].service_type
                &&& t.txt == s[i].txt
                &&& t.host == s[i].host
                &&& t.port == s[i].port
            },
{
}

} // verus!
