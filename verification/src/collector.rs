//! The collector's record of hosts: reports about the same address are
//! merged into one record, and every change is queued as an update for the
//! table to show.
use vstd::prelude::*;
use crate::ip_address::IpAddress;
use crate::ip_info::has_named;
use crate::ip_info::{
    IpInfo, IpInfoView, LastKnownStatus, ServiceView, info_matches, list_or_empty, service_update,
    service_views,
};
use crate::dns_sd::{ServiceInfo, ServiceInfoView, service_info_views, service_report};
use std::time::Instant;
use crate::lexical::{
    dedup_adjacent, dedup_texts, lemma_sorted_texts, sort_texts, sorted_texts, texts,
    texts_contain,
};

verus! {

/// A change to show.
#[derive(Debug)]
pub enum CollectorUpdate {
    /// A host that is new or whose names or services changed.
    IpInfo(IpInfo),
    /// A known host was heard from again with nothing new.
    PacketSeen(IpAddress),
    /// A known host went online or offline.
    Status((IpAddress, LastKnownStatus)),
}

/// An update as plain values.
pub enum UpdateView {
    Info(IpInfoView),
    PacketSeen(IpAddress),
    Status(IpAddress, LastKnownStatus),
}

impl View for CollectorUpdate {
    type V = UpdateView;

    open spec fn view(&self) -> UpdateView {
        match self {
            CollectorUpdate::IpInfo(i) => UpdateView::Info(i@),
            CollectorUpdate::PacketSeen(ip) => UpdateView::PacketSeen(*ip),
            CollectorUpdate::Status((ip, s)) => UpdateView::Status(*ip, *s),
        }
    }
}

/// The views of a list of host records.
pub open spec fn info_views(s: Seq<IpInfo>) -> Seq<IpInfoView> {
    s.map_values(|i: IpInfo| i@)
}

/// The views of a list of updates.
pub open spec fn update_views(s: Seq<CollectorUpdate>) -> Seq<UpdateView> {
    s.map_values(|u: CollectorUpdate| u@)
}

/// No two records share an address.
pub open spec fn unique_ips(db: Seq<IpInfoView>) -> bool {
    forall|i: int, j: int| 0 <= i < db.len() && 0 <= j < db.len() && i != j ==> db[i].ip != db[j].ip
}

/// Some record has the address.
pub open spec fn has_ip(db: Seq<IpInfoView>, ip: IpAddress) -> bool {
    exists|k: int| 0 <= k < db.len() && db[k].ip == ip
}

/// The position of the record with the address, where there is one.
pub open spec fn ip_index(db: Seq<IpInfoView>, ip: IpAddress) -> int {
    choose|k: int| 0 <= k < db.len() && db[k].ip == ip
}

/// Merging reported names into a record's names, one by one: a name that
/// already occurs in the address text or inside one of the names is skipped;
/// any other is added and the names sorted again. Also says whether a name
/// was added.
pub open spec fn merge_names(ip: IpAddress, names: Seq<Seq<char>>, new: Seq<Seq<char>>) -> (
    Seq<Seq<char>>,
    bool,
)
    decreases new.len(),
{
    if new.len() == 0 {
        (names, false)
    } else {
        let (n, m) = merge_names(ip, names, new.drop_last());
        if info_matches(ip, n, new.last()) {
            (n, m)
        } else {
            (sorted_texts(n.push(new.last())), true)
        }
    }
}

/// A service whose announced host name is one of the host's own names loses it.
pub open spec fn strip_own_hostname(s: ServiceView, names: Seq<Seq<char>>) -> ServiceView {
    match s.hostname {
        Some(h) => if names.contains(h) {
            ServiceView {
                name: s.name,
                hostname: None,
                service_type: s.service_type,
                port: s.port,
                txt: s.txt,
            }
        } else {
            s
        },
        None => s,
    }
}

/// Applying reported services to a record's services one by one (see
/// `service_update`), and whether any of them changed something.
pub open spec fn merge_services(
    names: Seq<Seq<char>>,
    list: Option<Seq<ServiceView>>,
    new: Seq<ServiceView>,
) -> (Option<Seq<ServiceView>>, bool)
    decreases new.len(),
{
    if new.len() == 0 {
        (list, false)
    } else {
        let (l, m) = merge_services(names, list, new.drop_last());
        let (l2, m2) = service_update(l, strip_own_hostname(new.last(), names));
        (l2, m || m2)
    }
}

/// A known record after a differing report: names and services merged in,
/// seen once more (wrapping at `u64::MAX`); and whether names or services
/// changed.
pub open spec fn updated_entry(old: IpInfoView, new: IpInfoView) -> (IpInfoView, bool) {
    let (names, m1) = merge_names(old.ip, old.names, new.names);
    let (services, m2) = merge_services(names, old.services, list_or_empty(new.services));
    (
        IpInfoView {
            ip: old.ip,
            names,
            services,
            status: old.status,
            seen_count: old.seen_count.wrapping_add(1),
            last_updated: old.last_updated,
        },
        m1 || m2,
    )
}

/// A report about a new address as it is stored: its names with runs of
/// repeats collapsed, then sorted.
pub open spec fn new_entry(new: IpInfoView) -> IpInfoView {
    IpInfoView {
        ip: new.ip,
        names: sorted_texts(dedup_adjacent(new.names)),
        services: new.services,
        status: new.status,
        seen_count: new.seen_count,
        last_updated: new.last_updated,
    }
}

/// The records and the queued updates after a report: a report equal to the
/// stored record changes nothing; one that differs is merged
/// (`updated_entry`) and queued in full if names or services changed,
/// otherwise as a packet seen; a report about a new address is stored
/// (`new_entry`) and queued.
pub open spec fn collect_step(db: Seq<IpInfoView>, msgs: Seq<UpdateView>, new: IpInfoView) -> (
    Seq<IpInfoView>,
    Seq<UpdateView>,
) {
    if has_ip(db, new.ip) {
        let k = ip_index(db, new.ip);
        if db[k] == new {
            (db, msgs)
        } else {
            let (e, changed) = updated_entry(db[k], new);
            (
                db.update(k, e),
                msgs.push(
                    if changed {
                        UpdateView::Info(e)
                    } else {
                        UpdateView::PacketSeen(new.ip)
                    },
                ),
            )
        }
    } else {
        let e = new_entry(new);
        (db.push(e), msgs.push(UpdateView::Info(e)))
    }
}

/// The records and queued updates after a status report: a known host whose
/// status differs gets it, and the change is queued; otherwise nothing changes.
pub open spec fn status_step(
    db: Seq<IpInfoView>,
    msgs: Seq<UpdateView>,
    ip: IpAddress,
    status: LastKnownStatus,
) -> (Seq<IpInfoView>, Seq<UpdateView>) {
    if has_ip(db, ip) && db[ip_index(db, ip)].status != status {
        let k = ip_index(db, ip);
        let e = db[k];
        (
            db.update(
                k,
                IpInfoView {
                    ip: e.ip,
                    names: e.names,
                    services: e.services,
                    status,
                    seen_count: e.seen_count,
                    last_updated: e.last_updated,
                },
            ),
            msgs.push(UpdateView::Status(ip, status)),
        )
    } else {
        (db, msgs)
    }
}

/// Status reports applied in order.
pub open spec fn status_steps(
    db: Seq<IpInfoView>,
    msgs: Seq<UpdateView>,
    updates: Seq<(IpAddress, LastKnownStatus)>,
) -> (Seq<IpInfoView>, Seq<UpdateView>)
    decreases updates.len(),
{
    if updates.len() == 0 {
        (db, msgs)
    } else {
        let (d, m) = status_steps(db, msgs, updates.drop_last());
        status_step(d, m, updates.last().0, updates.last().1)
    }
}

/// How many of the reports say online, and how many offline.
pub open spec fn status_counts(updates: Seq<(IpAddress, LastKnownStatus)>) -> (nat, nat)
    decreases updates.len(),
{
    if updates.len() == 0 {
        (0, 0)
    } else {
        let (on, off) = status_counts(updates.drop_last());
        match updates.last().1 {
            LastKnownStatus::Online => (on + 1, off),
            LastKnownStatus::Offline => (on, off + 1),
        }
    }
}

/// The records and queued updates after the reports of found services, in
/// order, the `i`-th stamped `times[i]`.
pub open spec fn service_steps(
    db: Seq<IpInfoView>,
    msgs: Seq<UpdateView>,
    services: Seq<ServiceInfoView>,
    times: Seq<Instant>,
) -> (Seq<IpInfoView>, Seq<UpdateView>)
    decreases services.len(),
{
    if services.len() == 0 {
        (db, msgs)
    } else {
        let (d, m) = service_steps(db, msgs, services.drop_last(), times.drop_last());
        collect_step(d, m, service_report(services.last(), times.last()))
    }
}

/// The store of host records and the updates not yet sent.
pub struct IpInfoCollector {
    db: Vec<IpInfo>,
    update_msgs: Vec<CollectorUpdate>,
}

proof fn lemma_find_index(db: Seq<IpInfoView>, k: int)
    requires
        unique_ips(db),
        0 <= k < db.len(),
    ensures
        has_ip(db, db[k].ip),
        ip_index(db, db[k].ip) == k,
{
    let j = ip_index(db, db[k].ip);
    assert(db[j].ip == db[k].ip);
}

impl IpInfoCollector {
    /// The stored records, in the order their addresses were first reported.
    pub closed spec fn records(&self) -> Seq<IpInfoView> {
        info_views(self.db@)
    }

    /// The updates not yet taken.
    pub closed spec fn pending(&self) -> Seq<UpdateView> {
        update_views(self.update_msgs@)
    }

    /// No two records share an address.
    pub open spec fn wf(&self) -> bool {
        unique_ips(self.records())
    }

    pub fn new() -> (r: Self)
        ensures
            r.wf(),
            r.records() == Seq::<IpInfoView>::empty(),
            r.pending() == Seq::<UpdateView>::empty(),
    {
        let r = IpInfoCollector { db: Vec::new(), update_msgs: Vec::new() };
        assert(r.records() =~= Seq::<IpInfoView>::empty());
        assert(r.pending() =~= Seq::<UpdateView>::empty());
        r
    }

    /// The number of known hosts.
    pub fn len(&self) -> (r: usize)
        ensures
            r == self.records().len(),
    {
        self.db.len()
    }

    fn find(&self, ip: IpAddress) -> (r: Option<usize>)
        requires
            self.wf(),
        ensures
            match r {
                Some(k) => k < self.records().len() && has_ip(self.records(), ip) && ip_index(
                    self.records(),
                    ip,
                ) == k,
                None => !has_ip(self.records(), ip),
            },
    {
        let mut k: usize = 0;
        while k < self.db.len()
            invariant
                k <= self.db.len(),
                self.wf(),
                forall|j: int| 0 <= j < k ==> self.records()[j].ip != ip,
            decreases self.db.len() - k,
        {
            if self.db[k].ip == ip {
                proof {
                    assert(self.records()[k as int].ip == ip);
                    lemma_find_index(self.records(), k as int);
                }
                return Some(k);
            }
            k = k + 1;
        }
        proof {
            if has_ip(self.records(), ip) {
                let j = ip_index(self.records(), ip);
                assert(self.records()[j].ip == ip);
            }
        }
        None
    }

    /// Merges the reported names into `entry` (see `merge_names`).
    fn merge_reported_names(entry: &mut IpInfo, new: &Vec<String>) -> (changed: bool)
        ensures
            (final(entry)@.names, changed) == merge_names(old(entry)@.ip, old(entry)@.names, texts(new@)),
            final(entry)@.ip == old(entry)@.ip,
            final(entry)@.services == old(entry)@.services,
            final(entry)@.status == old(entry)@.status,
            final(entry)@.seen_count == old(entry)@.seen_count,
            final(entry)@.last_updated == old(entry)@.last_updated,
    {
        let ghost start = old(entry)@;
        let mut changed = false;
        let mut i: usize = 0;
        while i < new.len()
            invariant
                i <= new.len(),
                (entry@.names, changed) == merge_names(start.ip, start.names, texts(new@).take(i as int)),
                entry@.ip == start.ip,
                entry@.services == start.services,
                entry@.status == start.status,
                entry@.seen_count == start.seen_count,
                entry@.last_updated == start.last_updated,
            decreases new.len() - i,
        {
            let ghost t = texts(new@);
            assert(t.take(i + 1).drop_last() =~= t.take(i as int));
            assert(t.take(i + 1).last() == new@[i as int]@);
            if !entry.contains(new[i].as_str()) {
                let ghost before = entry@.names;
                let c = new[i].clone();
                entry.names.push(c);
                assert(texts(entry.names@) =~= before.push(new@[i as int]@));
                sort_texts(&mut entry.names);
                changed = true;
            }
            i = i + 1;
        }
        assert(texts(new@).take(new.len() as int) =~= texts(new@));
        changed
    }

    /// Applies the reported services to `entry` (see `merge_services`).
    fn merge_reported_services(entry: &mut IpInfo, new: &Option<Vec<crate::ip_info::ServiceInstance>>) -> (changed: bool)
        ensures
            (final(entry)@.services, changed) == merge_services(
                old(entry)@.names,
                old(entry)@.services,
                list_or_empty(crate::ip_info::opt_service_views(*new)),
            ),
            final(entry)@.ip == old(entry)@.ip,
            final(entry)@.names == old(entry)@.names,
            final(entry)@.status == old(entry)@.status,
            final(entry)@.seen_count == old(entry)@.seen_count,
            final(entry)@.last_updated == old(entry)@.last_updated,
    {
        let ghost start = old(entry)@;
        let mut changed = false;
        match new {
            Some(v) => {
                let mut i: usize = 0;
                while i < v.len()
                    invariant
                        i <= v.len(),
                        (entry@.services, changed) == merge_services(
                            start.names,
                            start.services,
                            service_views(v@).take(i as int),
                        ),
                        entry@.ip == start.ip,
                        entry@.names == start.names,
                        entry@.status == start.status,
                        entry@.seen_count == start.seen_count,
                        entry@.last_updated == start.last_updated,
                    decreases v.len() - i,
                {
                    let ghost t = service_views(v@);
                    assert(t.take(i + 1).drop_last() =~= t.take(i as int));
                    assert(t.take(i + 1).last() == v@[i as int]@);
                    let mut service = v[i].clone();
                    let own = match &service.hostname {
                        Some(h) => texts_contain(&entry.names, h.as_str()),
                        None => false,
                    };
                    if own {
                        service.hostname = None;
                    }
                    assert(service@ == strip_own_hostname(v@[i as int]@, start.names));
                    if entry.update_with_service_instance(service) {
                        changed = true;
                    }
                    i = i + 1;
                }
                assert(service_views(v@).take(v.len() as int) =~= service_views(v@));
            },
            None => {
                assert(list_or_empty(crate::ip_info::opt_service_views(*new)).len() == 0);
            },
        }
        changed
    }

    /// Takes in a report about a host (see `collect_step`).
    pub fn insert_or_update(&mut self, new_ip_info: IpInfo)
        requires
            old(self).wf(),
        ensures
            final(self).wf(),
            (final(self).records(), final(self).pending()) == collect_step(
                old(self).records(),
                old(self).pending(),
                new_ip_info@,
            ),
    {
        let ghost db0 = self.records();
        let ghost msgs0 = self.pending();
        let ip = new_ip_info.ip;
        match self.find(ip) {
            Some(k) => {
                if self.db[k].same_as(&new_ip_info) {
                    return;
                }
                let mut entry = self.db.remove(k);
                assert(entry@ == db0[k as int]);
                let names_changed = Self::merge_reported_names(&mut entry, &new_ip_info.names);
                let services_changed = Self::merge_reported_services(
                    &mut entry,
                    &new_ip_info.service_instances,
                );
                entry.seen_count = entry.seen_count.wrapping_add(1);
                let ghost e = entry@;
                assert(updated_entry(db0[k as int], new_ip_info@) == (e, names_changed || services_changed));
                let ghost m_before = self.update_msgs@;
                if names_changed || services_changed {
                    let copy = entry.clone();
                    self.update_msgs.push(CollectorUpdate::IpInfo(copy));
                } else {
                    self.update_msgs.push(CollectorUpdate::PacketSeen(ip));
                }
                assert(update_views(self.update_msgs@) =~= update_views(m_before).push(
                    self.update_msgs@.last()@,
                ));
                self.db.insert(k, entry);
                assert(info_views(self.db@) =~= db0.update(k as int, e));
                proof {
                    assert forall|i: int, j: int|
                        0 <= i < self.records().len() && 0 <= j < self.records().len() && i != j
                            implies self.records()[i].ip != self.records()[j].ip by {
                        assert(db0[i].ip != db0[j].ip);
                    }
                }
            },
            None => {
                let mut e = new_ip_info;
                dedup_texts(&mut e.names);
                sort_texts(&mut e.names);
                let ghost ev = e@;
                let copy = e.clone();
                let ghost d_before = self.db@;
                self.db.push(copy);
                assert(info_views(self.db@) =~= info_views(d_before).push(ev));
                let ghost m_before = self.update_msgs@;
                self.update_msgs.push(CollectorUpdate::IpInfo(e));
                assert(update_views(self.update_msgs@) =~= update_views(m_before).push(
                    UpdateView::Info(ev),
                ));
                proof {
                    assert forall|i: int, j: int|
                        0 <= i < self.records().len() && 0 <= j < self.records().len() && i != j
                            implies self.records()[i].ip != self.records()[j].ip by {
                        if i < db0.len() && j < db0.len() {
                        } else if i < db0.len() {
                            assert(db0[i].ip != ip);
                        } else {
                            assert(db0[j].ip != ip);
                        }
                    }
                }
            },
        }
    }

    /// The addresses of all known hosts.
    pub fn known_ips(&self) -> (r: Vec<IpAddress>)
        ensures
            r@ == self.records().map_values(|e: IpInfoView| e.ip),
    {
        let mut r: Vec<IpAddress> = Vec::new();
        let mut i: usize = 0;
        while i < self.db.len()
            invariant
                i <= self.db.len(),
                r@ == self.records().map_values(|e: IpInfoView| e.ip).take(i as int),
            decreases self.db.len() - i,
        {
            r.push(self.db[i].ip);
            assert(r@ =~= self.records().map_values(|e: IpInfoView| e.ip).take(i + 1));
            i = i + 1;
        }
        assert(r@ =~= self.records().map_values(|e: IpInfoView| e.ip));
        r
    }

    /// Records a host's status (see `status_step`).
    pub fn set_last_known_status(&mut self, ip: IpAddress, status: LastKnownStatus)
        requires
            old(self).wf(),
        ensures
            final(self).wf(),
            (final(self).records(), final(self).pending()) == status_step(
                old(self).records(),
                old(self).pending(),
                ip,
                status,
            ),
    {
        let ghost db0 = self.records();
        match self.find(ip) {
            Some(k) => {
                if self.db[k].last_known_status != status {
                    let mut entry = self.db.remove(k);
                    entry.last_known_status = status;
                    let ghost e = entry@;
                    self.db.insert(k, entry);
                    assert(info_views(self.db@) =~= db0.update(k as int, e));
                    let ghost m_before = self.update_msgs@;
                    self.update_msgs.push(CollectorUpdate::Status((ip, status)));
                    assert(update_views(self.update_msgs@) =~= update_views(m_before).push(
                        UpdateView::Status(ip, status),
                    ));
                    proof {
                        assert forall|i: int, j: int|
                            0 <= i < self.records().len() && 0 <= j < self.records().len() && i
                                != j implies self.records()[i].ip != self.records()[j].ip by {
                            assert(db0[i].ip != db0[j].ip);
                        }
                    }
                }
            },
            None => {},
        }
    }

    /// Applies the results of a status check in order, and returns how many
    /// hosts were found online and how many offline.
    pub fn update_last_known_status(&mut self, status_updates: Vec<(IpAddress, LastKnownStatus)>) -> (r: (u64, u64))
        requires
            old(self).wf(),
        ensures
            final(self).wf(),
            (final(self).records(), final(self).pending()) == status_steps(
                old(self).records(),
                old(self).pending(),
                status_updates@,
            ),
            r.0 == status_counts(status_updates@).0,
            r.1 == status_counts(status_updates@).1,
    {
        let ghost db0 = self.records();
        let ghost msgs0 = self.pending();
        let mut online_count: u64 = 0;
        let mut offline_count: u64 = 0;
        let mut i: usize = 0;
        while i < status_updates.len()
            invariant
                i <= status_updates.len(),
                self.wf(),
                (self.records(), self.pending()) == status_steps(db0, msgs0, status_updates@.take(i as int)),
                online_count == status_counts(status_updates@.take(i as int)).0,
                offline_count == status_counts(status_updates@.take(i as int)).1,
                online_count + offline_count == i,
            decreases status_updates.len() - i,
        {
            let ghost t = status_updates@;
            assert(t.take(i + 1).drop_last() =~= t.take(i as int));
            let (ip, status) = status_updates[i];
            match status {
                LastKnownStatus::Online => online_count = online_count + 1,
                LastKnownStatus::Offline => offline_count = offline_count + 1,
            }
            self.set_last_known_status(ip, status);
            i = i + 1;
        }
        assert(status_updates@.take(status_updates.len() as int) =~= status_updates@);
        (online_count, offline_count)
    }

    /// Takes in the result of a service discovery: each found service is
    /// reported as a host record (see `service_report`), in order; a failed
    /// discovery changes nothing. Returns whether the discovery succeeded.
    pub fn update_service_instances(&mut self, service_discovery_result: Result<Vec<ServiceInfo>, String>) -> (r: bool)
        requires
            old(self).wf(),
        ensures
            final(self).wf(),
            r == service_discovery_result is Ok,
            match service_discovery_result {
                Ok(v) => exists|times: Seq<Instant>|
                    times.len() == v.len() && (final(self).records(), final(self).pending())
                        == service_steps(
                        old(self).records(),
                        old(self).pending(),
                        service_info_views(v@),
                        times,
                    ),
                Err(_) => final(self).records() == old(self).records() && final(self).pending()
                    == old(self).pending(),
            },
    {
        match service_discovery_result {
            Ok(v) => {
                let ghost all = service_info_views(v@);
                let ghost db0 = self.records();
                let ghost msgs0 = self.pending();
                let ghost mut times: Seq<Instant> = Seq::empty();
                let n = v.len();
                let mut rest = v;
                let mut i: usize = 0;
                while rest.len() > 0
                    invariant
                        self.wf(),
                        i + rest.len() == all.len(),
                        all.len() == n,
                        service_info_views(rest@) == all.skip(i as int),
                        times.len() == i,
                        (self.records(), self.pending()) == service_steps(
                            db0,
                            msgs0,
                            all.take(i as int),
                            times,
                        ),
                    decreases rest.len(),
                {
                    let ghost before = rest@;
                    let service = rest.remove(0);
                    assert(service_info_views(before)[0] == before[0]@);
                    assert(all.skip(i as int)[0] == all[i as int]);
                    assert(service@ == all[i as int]);
                    assert(service_info_views(rest@) =~= service_info_views(before).skip(1));
                    assert(service_info_views(rest@) =~= all.skip(i + 1));
                    let info = IpInfo::from_service_info(service);
                    proof {
                        assert(all.take(i + 1).drop_last() =~= all.take(i as int));
                        let t2 = times.push(info.last_updated);
                        assert(t2.drop_last() =~= times);
                        times = t2;
                    }
                    self.insert_or_update(info);
                    i = i + 1;
                }
                assert(all.take(i as int) =~= all);
                true
            },
            Err(_) => false,
        }
    }

    /// Hands out the queued updates in order and empties the queue.
    pub fn take_updates(&mut self) -> (r: Vec<CollectorUpdate>)
        ensures
            update_views(r@) == old(self).pending(),
            final(self).pending() == Seq::<UpdateView>::empty(),
            final(self).records() == old(self).records(),
    {
        let mut r: Vec<CollectorUpdate> = Vec::new();
        std::mem::swap(&mut r, &mut self.update_msgs);
        assert(update_views(self.update_msgs@) =~= Seq::<UpdateView>::empty());
        r
    }
}

/// A report always leaves its address known, and no two records share an address.
pub proof fn lemma_report_makes_address_known(db: Seq<IpInfoView>, msgs: Seq<UpdateView>, new: IpInfoView)
    requires
        unique_ips(db),
    ensures
        has_ip(collect_step(db, msgs, new).0, new.ip),
        unique_ips(collect_step(db, msgs, new).0),
{
    let d = collect_step(db, msgs, new).0;
    if has_ip(db, new.ip) {
        let k = ip_index(db, new.ip);
        assert(d[k].ip == new.ip);
        assert forall|i: int, j: int| 0 <= i < d.len() && 0 <= j < d.len() && i != j implies d[i].ip != d[j].ip by {
            assert(db[i].ip != db[j].ip);
        }
    } else {
        assert(d[db.len() as int].ip == new.ip);
        assert forall|i: int, j: int| 0 <= i < d.len() && 0 <= j < d.len() && i != j implies d[i].ip != d[j].ip by {
            if i < db.len() && j < db.len() {
            } else if i < db.len() {
                assert(db[i].ip != new.ip);
            } else {
                assert(db[j].ip != new.ip);
            }
        }
    }
}

/// A report equal to the stored record changes nothing and sends nothing.
pub proof fn lemma_identical_report_changes_nothing(db: Seq<IpInfoView>, msgs: Seq<UpdateView>, new: IpInfoView)
    requires
        has_ip(db, new.ip),
        db[ip_index(db, new.ip)] == new,
    ensures
        collect_step(db, msgs, new) == (db, msgs),
{
}

/// Each report queues at most one update, after those already queued.
pub proof fn lemma_one_update_per_report(db: Seq<IpInfoView>, msgs: Seq<UpdateView>, new: IpInfoView)
    ensures
        collect_step(db, msgs, new).1 == msgs || (collect_step(db, msgs, new).1.len() == msgs.len() + 1
            && collect_step(db, msgs, new).1.drop_last() == msgs),
{
    let m = collect_step(db, msgs, new).1;
    if m != msgs {
        assert(m.drop_last() =~= msgs);
    }
}

/// Merging names never loses one.
pub proof fn lemma_merge_keeps_names(ip: IpAddress, names: Seq<Seq<char>>, new: Seq<Seq<char>>)
    ensures
        forall|i: int| 0 <= i < names.len() ==> merge_names(ip, names, new).0.contains(#[trigger] names[i]),
    decreases new.len(),
{
    broadcast use vstd::seq_lib::group_to_multiset_ensures;

    if new.len() > 0 {
        lemma_merge_keeps_names(ip, names, new.drop_last());
        let (n, m) = merge_names(ip, names, new.drop_last());
        if !info_matches(ip, n, new.last()) {
            let p = n.push(new.last());
            lemma_sorted_texts(p);
            assert forall|i: int| 0 <= i < names.len() implies sorted_texts(p).contains(#[trigger] names[i]) by {
                assert(n.contains(names[i]));
                let k = choose|k: int| 0 <= k < n.len() && n[k] == names[i];
                assert(p[k] == names[i]);
                assert(p.contains(names[i]));
                assert(p.to_multiset().count(names[i]) > 0);
                assert(sorted_texts(p).to_multiset().count(names[i]) > 0);
            }
        }
    }
}

/// A report about a known host never drops one of its names, and a differing
/// report counts one more sighting.
pub proof fn lemma_known_host_keeps_names(db: Seq<IpInfoView>, msgs: Seq<UpdateView>, new: IpInfoView)
    requires
        unique_ips(db),
        has_ip(db, new.ip),
    ensures
        ({
            let k = ip_index(db, new.ip);
            let after = collect_step(db, msgs, new).0[k];
            &&& after.ip == new.ip
            &&& forall|i: int| 0 <= i < db[k].names.len() ==> after.names.contains(#[trigger] db[k].names[i])
            &&& db[k] != new ==> after.seen_count == db[k].seen_count.wrapping_add(1)
            &&& db[k] == new ==> after == db[k]
        }),
{
    let k = ip_index(db, new.ip);
    if db[k] != new {
        lemma_merge_keeps_names(db[k].ip, db[k].names, new.names);
    } else {
        assert forall|i: int| 0 <= i < db[k].names.len() implies db[k].names.contains(#[trigger] db[k].names[i]) by {
        }
    }
}

/// Reporting the same status twice has the effect of reporting it once.
pub proof fn lemma_status_report_idempotent(
    db: Seq<IpInfoView>,
    msgs: Seq<UpdateView>,
    ip: IpAddress,
    status: LastKnownStatus,
)
    requires
        unique_ips(db),
    ensures
        ({
            let (d1, m1) = status_step(db, msgs, ip, status);
            status_step(d1, m1, ip, status) == (d1, m1)
        }),
{
    let (d1, m1) = status_step(db, msgs, ip, status);
    if has_ip(db, ip) && db[ip_index(db, ip)].status != status {
        let k = ip_index(db, ip);
        assert(d1[k].ip == ip);
        assert(has_ip(d1, ip));
        let j = ip_index(d1, ip);
        if j != k {
            assert(db[j].ip == d1[j].ip);
            assert(db[j].ip != db[k].ip);
        }
    } else if has_ip(db, ip) {
        assert(d1 == db);
    }
}

/// Announcing a service that changes a host's services is reported as a
/// change.
pub proof fn lemma_service_change_is_flagged(list: Option<Seq<ServiceView>>, s: ServiceView)
    ensures
        service_update(list, s).0 != list ==> service_update(list, s).1,
        !has_named(list_or_empty(list), s.name) ==> service_update(list, s).1,
{
}

/// Merging reported services flags a change whenever the host's services
/// come out different, and whenever a reported service has a name the host
/// did not list before.
pub proof fn lemma_merged_services_change_is_flagged(
    names: Seq<Seq<char>>,
    list: Option<Seq<ServiceView>>,
    new: Seq<ServiceView>,
)
    ensures
        merge_services(names, list, new).0 != list ==> merge_services(names, list, new).1,
        new.len() > 0 && !has_named(list_or_empty(merge_services(names, list, new.drop_last()).0), new.last().name)
            ==> merge_services(names, list, new).1,
    decreases new.len(),
{
    if new.len() > 0 {
        lemma_merged_services_change_is_flagged(names, list, new.drop_last());
        let (l, m) = merge_services(names, list, new.drop_last());
        let t = strip_own_hostname(new.last(), names);
        lemma_service_change_is_flagged(l, t);
        assert(t.name == new.last().name);
    }
}

/// Merging reported names flags a change whenever the names come out different.
pub proof fn lemma_merged_names_change_is_flagged(ip: IpAddress, names: Seq<Seq<char>>, new: Seq<Seq<char>>)
    ensures
        merge_names(ip, names, new).0 != names ==> merge_names(ip, names, new).1,
    decreases new.len(),
{
    if new.len() > 0 {
        lemma_merged_names_change_is_flagged(ip, names, new.drop_last());
    }
}

/// A report that changes a known host's names or services queues the whole
/// record for the table, never just a packet seen.
pub proof fn lemma_changed_record_is_queued(db: Seq<IpInfoView>, msgs: Seq<UpdateView>, new: IpInfoView)
    requires
        has_ip(db, new.ip),
    ensures
        ({
            let k = ip_index(db, new.ip);
            let (d, m) = collect_step(db, msgs, new);
            (d[k].names != db[k].names || d[k].services != db[k].services) ==> m == msgs.push(
                UpdateView::Info(d[k]),
            )
        }),
{
    let k = ip_index(db, new.ip);
    let old = db[k];
    let (names, m1) = merge_names(old.ip, old.names, new.names);
    lemma_merged_names_change_is_flagged(old.ip, old.names, new.names);
    lemma_merged_services_change_is_flagged(names, old.services, list_or_empty(new.services));
}

} // verus!
