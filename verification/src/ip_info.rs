//! What is known of one host: its address, its names, the services it
//! announces, whether it answered lately and how often it was seen.
use vstd::prelude::*;
use std::time::Instant;
use crate::clock::{elapsed_parts, instant_now, span_less};
use crate::display_width::{str_width, text_width};
use crate::ip_address::{IpAddress, ip_text};
use crate::lexical::{
    append_missing, append_missing_texts, copy_texts, lemma_append_missing_idempotent,
    lemma_append_present, texts, texts_equal,
};
use crate::strings::{contains_seq, dec, push_decimal, push_str, str_contains};

verus! {

/// Whether a host answered the last check.
#[derive(Debug, Clone, Copy, PartialEq, Eq, Structural, Hash)]
pub enum LastKnownStatus {
    Online,
    Offline,
}

/// A service as plain values.
pub struct ServiceView {
    pub name: Seq<char>,
    pub hostname: Option<Seq<char>>,
    pub service_type: Seq<char>,
    pub port: u16,
    pub txt: Option<Seq<Seq<char>>>,
}

/// The text of an optional string.
pub open spec fn opt_text(o: Option<String>) -> Option<Seq<char>> {
    match o {
        Some(s) => Some(s@),
        None => None,
    }
}

/// The texts of an optional list of strings.
pub open spec fn opt_texts(o: Option<Vec<String>>) -> Option<Seq<Seq<char>>> {
    match o {
        Some(v) => Some(texts(v@)),
        None => None,
    }
}

/// One service instance announced by a host.
#[derive(Debug)]
pub struct ServiceInstance {
    pub name: String,
    /// Set only where the service announces a host name of its own that
    /// differs from the names of the host it runs on.
    pub hostname: Option<String>,
    pub _type: String,
    pub port: u16,
    pub txt: Option<Vec<String>>,
}

impl View for ServiceInstance {
    type V = ServiceView;

    open spec fn view(&self) -> ServiceView {
        ServiceView {
            name: self.name@,
            hostname: opt_text(self.hostname),
            service_type: self._type@,
            port: self.port,
            txt: opt_texts(self.txt),
        }
    }
}

/// Texts joined with `", "` between them.
pub open spec fn join_comma(t: Seq<Seq<char>>) -> Seq<char>
    decreases t.len(),
{
    if t.len() == 0 {
        Seq::empty()
    } else if t.len() == 1 {
        t[0]
    } else {
        join_comma(t.drop_last()) + seq![',', ' '] + t.last()
    }
}

/// How a service is shown: `name @ host:port`, a line break, then its TXT
/// records joined by `", "`; the `@ host` part only where it has a host name.
pub open spec fn service_text(s: ServiceView) -> Seq<char> {
    s.name + match s.hostname {
        Some(h) => seq![' ', '@', ' '] + h,
        None => Seq::empty(),
    } + seq![':'] + dec(s.port as nat) + seq!['\n'] + match s.txt {
        Some(t) => join_comma(t),
        None => Seq::empty(),
    }
}

fn copy_opt_string(o: &Option<String>) -> (r: Option<String>)
    ensures
        opt_text(r) == opt_text(*o),
{
    match o {
        Some(s) => Some(s.clone()),
        None => None,
    }
}

fn copy_opt_texts(o: &Option<Vec<String>>) -> (r: Option<Vec<String>>)
    ensures
        opt_texts(r) == opt_texts(*o),
{
    match o {
        Some(v) => Some(copy_texts(v)),
        None => None,
    }
}

fn opt_string_equal(a: &Option<String>, b: &Option<String>) -> (r: bool)
    ensures
        r == (opt_text(*a) == opt_text(*b)),
{
    match (a, b) {
        (Some(x), Some(y)) => *x == *y,
        (None, None) => true,
        _ => false,
    }
}

fn opt_texts_equal(a: &Option<Vec<String>>, b: &Option<Vec<String>>) -> (r: bool)
    ensures
        r == (opt_texts(*a) == opt_texts(*b)),
{
    match (a, b) {
        (Some(x), Some(y)) => texts_equal(x, y),
        (None, None) => true,
        _ => false,
    }
}

/// Appends `t` joined with `", "`.
fn push_join_comma(s: &mut String, t: &Vec<String>)
    ensures
        final(s)@ == old(s)@ + join_comma(texts(t@)),
{
    let ghost start = s@;
    let mut i: usize = 0;
    while i < t.len()
        invariant
            i <= t.len(),
            s@ == start + join_comma(texts(t@).take(i as int)),
        decreases t.len() - i,
    {
        let ghost tt = texts(t@);
        assert(tt.take(i + 1).drop_last() =~= tt.take(i as int));
        assert(tt.take(i + 1).last() == t@[i as int]@);
        if i > 0 {
            s.push(',');
            s.push(' ');
        }
        push_str(s, t[i].as_str());
        proof {
            if i == 0 {
                assert(tt.take(0).len() == 0);
                assert(tt.take(1)[0] == t@[0]@);
            }
            assert(s@ =~= start + join_comma(tt.take(i + 1)));
        }
        i = i + 1;
    }
    assert(texts(t@).take(t.len() as int) =~= texts(t@));
}

impl Clone for ServiceInstance {
    fn clone(&self) -> (r: Self)
        ensures
            r@ == self@,
    {
        ServiceInstance {
            name: self.name.clone(),
            hostname: copy_opt_string(&self.hostname),
            _type: self._type.clone(),
            port: self.port,
            txt: copy_opt_texts(&self.txt),
        }
    }
}

impl ServiceInstance {
    pub fn new(
        name: String,
        _type: String,
        hostname: Option<String>,
        port: u16,
        txt: Option<Vec<String>>,
    ) -> (r: Self)
        ensures
            r.name == name,
            r._type == _type,
            r.hostname == hostname,
            r.port == port,
            r.txt == txt,
    {
        ServiceInstance { name, hostname, _type, port, txt }
    }

    /// Whether two instances hold the same values.
    pub fn same_as(&self, other: &Self) -> (r: bool)
        ensures
            r == (self@ == other@),
    {
        self.name == other.name && opt_string_equal(&self.hostname, &other.hostname) && self._type
            == other._type && self.port == other.port && opt_texts_equal(&self.txt, &other.txt)
    }

    /// How the instance is shown (see `service_text`).
    pub fn text(&self) -> (r: String)
        ensures
            r@ == service_text(self@),
    {
        let mut s = String::new();
        push_str(&mut s, self.name.as_str());
        match &self.hostname {
            Some(h) => {
                s.push(' ');
                s.push('@');
                s.push(' ');
                push_str(&mut s, h.as_str());
            },
            None => {},
        }
        s.push(':');
        push_decimal(&mut s, self.port as u64);
        s.push('\n');
        match &self.txt {
            Some(t) => push_join_comma(&mut s, t),
            None => {},
        }
        assert(s@ =~= service_text(self@));
        s
    }
}

/// A host as plain values.
pub struct IpInfoView {
    pub ip: IpAddress,
    pub names: Seq<Seq<char>>,
    pub services: Option<Seq<ServiceView>>,
    pub status: LastKnownStatus,
    pub seen_count: u64,
    pub last_updated: Instant,
}

/// The views of a list of service instances.
pub open spec fn service_views(v: Seq<ServiceInstance>) -> Seq<ServiceView> {
    v.map_values(|s: ServiceInstance| s@)
}

/// The views of an optional list of service instances.
pub open spec fn opt_service_views(o: Option<Vec<ServiceInstance>>) -> Option<Seq<ServiceView>> {
    match o {
        Some(v) => Some(service_views(v@)),
        None => None,
    }
}

/// Each text followed by a line break.
pub open spec fn lines_text(t: Seq<Seq<char>>) -> Seq<char>
    decreases t.len(),
{
    if t.len() == 0 {
        Seq::empty()
    } else {
        lines_text(t.drop_last()) + t.last() + seq!['\n']
    }
}

/// The shown text of each service.
pub open spec fn service_texts(s: Seq<ServiceView>) -> Seq<Seq<char>> {
    s.map_values(|v: ServiceView| service_text(v))
}

/// The services of a host, each shown and followed by a line break.
pub open spec fn services_lines(o: Option<Seq<ServiceView>>) -> Seq<char> {
    match o {
        Some(s) => lines_text(service_texts(s)),
        None => Seq::empty(),
    }
}

/// The largest value of `f` over a list, zero for an empty list.
pub open spec fn max_of(w: Seq<usize>) -> nat
    decreases w.len(),
{
    if w.len() == 0 {
        0
    } else {
        let m = max_of(w.drop_last());
        if m < w.last() {
            w.last() as nat
        } else {
            m
        }
    }
}

/// The widths of a list of texts.
pub open spec fn widths(t: Seq<Seq<char>>) -> Seq<usize> {
    t.map_values(|s: Seq<char>| text_width(s))
}

/// `t` occurs in the address text or in one of the names.
pub open spec fn info_matches(ip: IpAddress, names: Seq<Seq<char>>, t: Seq<char>) -> bool {
    contains_seq(ip_text(ip), t) || exists|i: int| 0 <= i < names.len() && contains_seq(#[trigger] names[i], t)
}

/// The first position in `l` whose service has `name`, if any.
pub open spec fn first_named(l: Seq<ServiceView>, name: Seq<char>, i: int) -> bool {
    0 <= i < l.len() && l[i].name == name && forall|k: int| 0 <= k < i ==> l[k].name != name
}

/// The position of the first service in `l` with `name`, where there is one.
pub open spec fn first_named_index(l: Seq<ServiceView>, name: Seq<char>) -> int {
    choose|i: int| first_named(l, name, i)
}

/// The TXT records after merging `new` into `old`: the new records are added
/// to the old ones unless already there; with no new records, the old stay.
pub open spec fn merged_txt(old: Option<Seq<Seq<char>>>, new: Option<Seq<Seq<char>>>) -> Option<
    Seq<Seq<char>>,
> {
    match new {
        None => old,
        Some(t) => match old {
            Some(o) => Some(append_missing(o, t)),
            None => Some(t),
        },
    }
}

/// The services of an optional list, none for no list.
pub open spec fn list_or_empty(list: Option<Seq<ServiceView>>) -> Seq<ServiceView> {
    match list {
        Some(l) => l,
        None => Seq::empty(),
    }
}

/// Some service in `l` has `name`.
pub open spec fn has_named(l: Seq<ServiceView>, name: Seq<char>) -> bool {
    exists|i: int| first_named(l, name, i)
}

/// A service with its TXT records replaced.
pub open spec fn with_txt(v: ServiceView, t: Option<Seq<Seq<char>>>) -> ServiceView {
    ServiceView { name: v.name, hostname: v.hostname, service_type: v.service_type, port: v.port, txt: t }
}

/// Applying `s` to the service at position `i` of `l`, which has its name.
pub open spec fn update_at(list: Option<Seq<ServiceView>>, l: Seq<ServiceView>, i: int, s: ServiceView) -> (Option<Seq<ServiceView>>, bool) {
    if l[i] == s {
        (list, false)
    } else {
        (Some(l.update(i, with_txt(l[i], merged_txt(l[i].txt, s.txt)))), true)
    }
}

/// A host's services after an announcement of `s`, and whether anything was
/// applied: an instance of the same name that holds the same values is left
/// alone; one that differs gets the new TXT records merged in; an instance of
/// a new name is added at the end.
pub open spec fn service_update(list: Option<Seq<ServiceView>>, s: ServiceView) -> (Option<
    Seq<ServiceView>,
>, bool) {
    let l = list_or_empty(list);
    if has_named(l, s.name) {
        update_at(list, l, first_named_index(l, s.name), s)
    } else {
        (Some(l.push(s)), true)
    }
}

/// What is known of one host.
#[derive(Debug)]
pub struct IpInfo {
    pub ip: IpAddress,
    pub names: Vec<String>,
    pub service_instances: Option<Vec<ServiceInstance>>,
    pub last_known_status: LastKnownStatus,
    pub seen_count: u64,
    pub last_updated: Instant,
}

impl View for IpInfo {
    type V = IpInfoView;

    open spec fn view(&self) -> IpInfoView {
        IpInfoView {
            ip: self.ip,
            names: texts(self.names@),
            services: opt_service_views(self.service_instances),
            status: self.last_known_status,
            seen_count: self.seen_count,
            last_updated: self.last_updated,
        }
    }
}

fn copy_services(v: &Vec<ServiceInstance>) -> (r: Vec<ServiceInstance>)
    ensures
        service_views(r@) == service_views(v@),
{
    let mut r: Vec<ServiceInstance> = Vec::new();
    let mut i: usize = 0;
    while i < v.len()
        invariant
            i <= v.len(),
            service_views(r@) == service_views(v@).take(i as int),
        decreases v.len() - i,
    {
        let ghost old_r = r@;
        let c = v[i].clone();
        r.push(c);
        assert(service_views(r@) =~= service_views(old_r).push(c@));
        assert(service_views(v@).take(i + 1) =~= service_views(v@).take(i as int).push(c@));
        i = i + 1;
    }
    assert(service_views(v@).take(v.len() as int) =~= service_views(v@));
    r
}

fn services_equal(a: &Vec<ServiceInstance>, b: &Vec<ServiceInstance>) -> (r: bool)
    ensures
        r == (service_views(a@) == service_views(b@)),
{
    if a.len() != b.len() {
        assert(service_views(a@).len() != service_views(b@).len());
        return false;
    }
    let mut i: usize = 0;
    while i < a.len()
        invariant
            a.len() == b.len(),
            i <= a.len(),
            forall|k: int| 0 <= k < i ==> a@[k]@ == b@[k]@,
        decreases a.len() - i,
    {
        if !a[i].same_as(&b[i]) {
            assert(service_views(a@)[i as int] != service_views(b@)[i as int]);
            return false;
        }
        i = i + 1;
    }
    assert(service_views(a@) =~= service_views(b@));
    true
}

impl Clone for IpInfo {
    fn clone(&self) -> (r: Self)
        ensures
            r@ == self@,
    {
        IpInfo {
            ip: self.ip,
            names: copy_texts(&self.names),
            service_instances: match &self.service_instances {
                Some(v) => Some(copy_services(v)),
                None => None,
            },
            last_known_status: self.last_known_status,
            seen_count: self.seen_count,
            last_updated: self.last_updated,
        }
    }
}

impl IpInfo {
    /// A host first seen now at `ip`: no names, no services, online, seen once.
    pub fn from_ip(ip: IpAddress) -> (r: Self)
        ensures
            r@.ip == ip,
            r@.names == Seq::<Seq<char>>::empty(),
            r@.services == None::<Seq<ServiceView>>,
            r@.status == LastKnownStatus::Online,
            r@.seen_count == 1,
    {
        IpInfo {
            ip,
            names: Vec::new(),
            service_instances: None,
            last_known_status: LastKnownStatus::Online,
            seen_count: 1,
            last_updated: instant_now(),
        }
    }

    pub fn ip(&self) -> (r: IpAddress)
        ensures
            r == self.ip,
    {
        self.ip
    }

    pub fn names(&self) -> (r: &[String])
        ensures
            texts(r@) == self@.names,
    {
        self.names.as_slice()
    }

    pub fn seen_count(&self) -> (r: u64)
        ensures
            r == self.seen_count,
    {
        self.seen_count
    }

    /// Whether the two records hold the same values, time stamp included.
    pub fn same_as(&self, other: &Self) -> (r: bool)
        ensures
            r == (self@ == other@),
    {
        let services_same = match (&self.service_instances, &other.service_instances) {
            (Some(a), Some(b)) => services_equal(a, b),
            (None, None) => true,
            _ => false,
        };
        self.ip == other.ip && texts_equal(&self.names, &other.names) && services_same
            && self.last_known_status == other.last_known_status && self.seen_count
            == other.seen_count && crate::clock::same_instant(
            &self.last_updated,
            &other.last_updated,
        )
    }

    /// The names, each followed by a line break.
    pub fn names_multiline(&self) -> (r: String)
        ensures
            r@ == lines_text(self@.names),
    {
        let mut s = String::new();
        let mut i: usize = 0;
        while i < self.names.len()
            invariant
                i <= self.names.len(),
                s@ == lines_text(texts(self.names@).take(i as int)),
            decreases self.names.len() - i,
        {
            let ghost t = texts(self.names@);
            assert(t.take(i + 1).drop_last() =~= t.take(i as int));
            assert(t.take(i + 1).last() == self.names@[i as int]@);
            push_str(&mut s, self.names[i].as_str());
            s.push('\n');
            assert(s@ =~= lines_text(t.take(i + 1)));
            i = i + 1;
        }
        assert(texts(self.names@).take(self.names.len() as int) =~= texts(self.names@));
        s
    }

    /// The services as shown, each followed by a line break.
    pub fn service_instances_multiline(&self) -> (r: String)
        ensures
            r@ == services_lines(self@.services),
    {
        let mut s = String::new();
        match &self.service_instances {
            Some(v) => {
                let mut i: usize = 0;
                while i < v.len()
                    invariant
                        i <= v.len(),
                        s@ == lines_text(service_texts(service_views(v@)).take(i as int)),
                    decreases v.len() - i,
                {
                    let ghost t = service_texts(service_views(v@));
                    assert(t.take(i + 1).drop_last() =~= t.take(i as int));
                    assert(t.take(i + 1).last() == service_text(v@[i as int]@));
                    let line = v[i].text();
                    push_str(&mut s, line.as_str());
                    s.push('\n');
                    assert(s@ =~= lines_text(t.take(i + 1)));
                    i = i + 1;
                }
                assert(service_texts(service_views(v@)).take(v.len() as int) =~= service_texts(
                    service_views(v@),
                ));
            },
            None => {},
        }
        s
    }

    /// The four columns of the host's row: address, names, times seen and
    /// services.
    pub fn ref_array(&self) -> (r: [String; 4])
        ensures
            r[0]@ == ip_text(self.ip),
            r[1]@ == lines_text(self@.names),
            r[2]@ == dec(self.seen_count as nat),
            r[3]@ == services_lines(self@.services),
    {
        let mut seen = String::new();
        push_decimal(&mut seen, self.seen_count);
        [self.ip.text(), self.names_multiline(), seen, self.service_instances_multiline()]
    }

    /// The widest name in terminal columns, cut to 16 bits.
    pub fn max_name_unicode_width(&self) -> (r: u16)
        ensures
            r == max_of(widths(self@.names)) as u16,
    {
        let mut max: usize = 0;
        let mut i: usize = 0;
        while i < self.names.len()
            invariant
                i <= self.names.len(),
                max == max_of(widths(texts(self.names@)).take(i as int)),
            decreases self.names.len() - i,
        {
            let ghost w = widths(texts(self.names@));
            assert(w.take(i + 1).drop_last() =~= w.take(i as int));
            let width = str_width(self.names[i].as_str());
            assert(w.take(i + 1).last() == width);
            if max < width {
                max = width;
            }
            i = i + 1;
        }
        assert(widths(texts(self.names@)).take(self.names.len() as int) =~= widths(
            texts(self.names@),
        ));
        max as u16
    }

    /// The widest shown service in terminal columns, cut to 16 bits.
    pub fn max_service_instance_unicode_width(&self) -> (r: u16)
        ensures
            r == (match self@.services {
                Some(s) => max_of(widths(service_texts(s))),
                None => 0,
            }) as u16,
    {
        let mut max: usize = 0;
        match &self.service_instances {
            Some(v) => {
                let mut i: usize = 0;
                while i < v.len()
                    invariant
                        i <= v.len(),
                        max == max_of(widths(service_texts(service_views(v@))).take(i as int)),
                    decreases v.len() - i,
                {
                    let ghost w = widths(service_texts(service_views(v@)));
                    assert(w.take(i + 1).drop_last() =~= w.take(i as int));
                    let line = v[i].text();
                    let width = str_width(line.as_str());
                    assert(w.take(i + 1).last() == width);
                    if max < width {
                        max = width;
                    }
                    i = i + 1;
                }
                assert(widths(service_texts(service_views(v@))).take(v.len() as int) =~= widths(
                    service_texts(service_views(v@)),
                ));
            },
            None => {},
        }
        max as u16
    }

    /// Whether `pattern` occurs in the address text or in one of the names.
    pub fn contains(&self, pattern: &str) -> (r: bool)
        ensures
            r == info_matches(self.ip, self@.names, pattern@),
    {
        let ip_str = self.ip.text();
        if str_contains(ip_str.as_str(), pattern) {
            return true;
        }
        let mut i: usize = 0;
        while i < self.names.len()
            invariant
                i <= self.names.len(),
                forall|k: int| 0 <= k < i ==> !contains_seq(#[trigger] self.names@[k]@, pattern@),
            decreases self.names.len() - i,
        {
            if str_contains(self.names[i].as_str(), pattern) {
                assert(texts(self.names@)[i as int] == self.names@[i as int]@);
                return true;
            }
            i = i + 1;
        }
        proof {
            let t = texts(self.names@);
            assert forall|k: int| 0 <= k < t.len() implies !contains_seq(#[trigger] t[k], pattern@) by {
                assert(t[k] == self.names@[k]@);
            }
        }
        false
    }

    /// Records the status; the record counts as updated now.
    pub fn set_last_known_status(&mut self, status: LastKnownStatus)
        ensures
            final(self)@.status == status,
            final(self)@.ip == old(self)@.ip,
            final(self)@.names == old(self)@.names,
            final(self)@.services == old(self)@.services,
            final(self)@.seen_count == old(self)@.seen_count,
    {
        self.last_known_status = status;
        self.set_last_updated_now();
    }

    pub fn is_offline(&self) -> (r: bool)
        ensures
            r == (self.last_known_status == LastKnownStatus::Offline),
    {
        self.last_known_status == LastKnownStatus::Offline
    }

    /// Counts one more packet from the host (wrapping at `u64::MAX`).
    pub fn update_packets_seen(&mut self)
        ensures
            final(self)@ == (IpInfoView {
                seen_count: old(self).seen_count.wrapping_add(1),
                ..old(self)@
            }),
    {
        self.seen_count = self.seen_count.wrapping_add(1);
    }

    /// Stamps the record with the current time.
    pub fn set_last_updated_now(&mut self)
        ensures
            final(self)@.ip == old(self)@.ip,
            final(self)@.names == old(self)@.names,
            final(self)@.services == old(self)@.services,
            final(self)@.status == old(self)@.status,
            final(self)@.seen_count == old(self)@.seen_count,
    {
        self.last_updated = instant_now();
    }

    /// Whether the record was updated less than `secs` seconds ago; the
    /// answer depends on the clock.
    pub fn updated_within_secs(&self, secs: u16) -> bool {
        let (s, n) = elapsed_parts(&self.last_updated);
        span_less(s, n, secs as u64, 0)
    }

    /// Applies an announcement of a service instance and returns whether
    /// anything changed (see `service_update`).
    pub fn update_with_service_instance(&mut self, service: ServiceInstance) -> (r: bool)
        ensures
            (final(self)@.services, r) == service_update(old(self)@.services, service@),
            final(self)@.ip == old(self)@.ip,
            final(self)@.names == old(self)@.names,
            final(self)@.status == old(self)@.status,
            final(self)@.seen_count == old(self)@.seen_count,
            final(self)@.last_updated == old(self)@.last_updated,
    {
        let ghost list = old(self)@.services;
        let mut instances: Vec<ServiceInstance> = match self.service_instances.take() {
            Some(v) => v,
            None => Vec::new(),
        };
        let ghost l = service_views(instances@);
        assert(l == match list {
            Some(x) => x,
            None => Seq::<ServiceView>::empty(),
        });
        let mut i: usize = 0;
        while i < instances.len()
            invariant
                i <= instances.len(),
                service_views(instances@) == l,
                forall|k: int| 0 <= k < i ==> l[k].name != service@.name,
                l.len() > 0 ==> list == Some(l),
                list == old(self)@.services,
                self.ip == old(self).ip,
                self.names == old(self).names,
                self.last_known_status == old(self).last_known_status,
                self.seen_count == old(self).seen_count,
                self.last_updated == old(self).last_updated,
            decreases instances.len() - i,
        {
            if instances[i].name == service.name {
                assert(first_named(l, service@.name, i as int));
                proof {
                    let j = first_named_index(l, service@.name);
                    if j < i {
                    } else if j > i {
                        assert(l[i as int].name == service@.name);
                    }
                    assert(j == i);
                    assert(l[i as int] == instances@[i as int]@);
                }
                if instances[i].same_as(&service) {
                    self.service_instances = Some(instances);
                    assert(l[i as int] == service@);
                    assert(list_or_empty(list) == l);
                    assert(has_named(l, service@.name));
                    return false;
                }
                let mut s = instances.remove(i);
                let ghost s_old = s@;
                match service.txt {
                    Some(txt) => {
                        match s.txt.take() {
                            Some(mut s_txt) => {
                                append_missing_texts(&mut s_txt, &txt);
                                s.txt = Some(s_txt);
                            },
                            None => {
                                s.txt = Some(txt);
                            },
                        }
                    },
                    None => {},
                }
                assert(s@ == with_txt(s_old, merged_txt(s_old.txt, service@.txt)));
                let ghost removed = instances@;
                instances.insert(i, s);
                assert(service_views(instances@) =~= l.update(
                    i as int,
                    with_txt(l[i as int], merged_txt(l[i as int].txt, service@.txt)),
                ));
                self.service_instances = Some(instances);
                assert(list_or_empty(list) == l);
                assert(has_named(l, service@.name));
                return true;
            }
            i = i + 1;
        }
        proof {
            assert(list_or_empty(list) == l);
            if has_named(l, service@.name) {
                let j = choose|j: int| first_named(l, service@.name, j);
                assert(l[j].name == service@.name);
            }
        }
        let ghost sv = service@;
        instances.push(service);
        assert(service_views(instances@) =~= l.push(sv));
        self.service_instances = Some(instances);
        true
    }
}

proof fn lemma_first_named_unique(l: Seq<ServiceView>, name: Seq<char>, i: int)
    requires
        first_named(l, name, i),
    ensures
        has_named(l, name),
        first_named_index(l, name) == i,
{
    let j = first_named_index(l, name);
    if j < i {
        assert(l[j].name != name);
    } else if j > i {
        assert(l[i].name != name);
    }
}

/// Merging the same TXT records a second time changes nothing.
pub proof fn lemma_merged_txt_idempotent(old: Option<Seq<Seq<char>>>, new: Option<Seq<Seq<char>>>)
    ensures
        merged_txt(merged_txt(old, new), new) == merged_txt(old, new),
{
    match new {
        None => {},
        Some(t) => match old {
            Some(o) => {
                lemma_append_missing_idempotent(o, t);
            },
            None => {
                lemma_append_present(t, t);
            },
        },
    }
}

/// Announcing the same service instance a second time changes a host's
/// services no further.
pub proof fn lemma_service_update_idempotent(list: Option<Seq<ServiceView>>, s: ServiceView)
    ensures
        service_update(service_update(list, s).0, s).0 == service_update(list, s).0,
{
    let l = list_or_empty(list);
    if has_named(l, s.name) {
        let i = first_named_index(l, s.name);
        assert(first_named(l, s.name, i));
        if l[i] != s {
            let m = with_txt(l[i], merged_txt(l[i].txt, s.txt));
            let l1 = l.update(i, m);
            assert(first_named(l1, s.name, i));
            lemma_first_named_unique(l1, s.name, i);
            assert(list_or_empty(Some(l1)) == l1);
            lemma_merged_txt_idempotent(l[i].txt, s.txt);
            assert(with_txt(m, merged_txt(m.txt, s.txt)) == m);
            assert(l1.update(i, m) =~= l1);
        }
    } else {
        let l1 = l.push(s);
        assert(first_named(l1, s.name, l.len() as int)) by {
            assert forall|k: int| 0 <= k < l.len() implies l1[k].name != s.name by {
                if l1[k].name == s.name {
                    lemma_some_first_named(l, s.name, k);
                }
            }
        }
        lemma_first_named_unique(l1, s.name, l.len() as int);
        assert(list_or_empty(Some(l1)) == l1);
    }
}

/// After a service instance is announced, the host has a service of that name.
pub proof fn lemma_announced_service_present(list: Option<Seq<ServiceView>>, s: ServiceView)
    ensures
        has_named(list_or_empty(service_update(list, s).0), s.name),
{
    let l = list_or_empty(list);
    if has_named(l, s.name) {
        let i = first_named_index(l, s.name);
        assert(first_named(l, s.name, i));
        if l[i] != s {
            let l1 = l.update(i, with_txt(l[i], merged_txt(l[i].txt, s.txt)));
            assert(first_named(l1, s.name, i));
            assert(list_or_empty(Some(l1)) == l1);
        }
    } else {
        let l1 = l.push(s);
        assert(l1[l.len() as int].name == s.name);
        assert(list_or_empty(Some(l1)) == l1);
        if !has_named(l1, s.name) {
            // The smallest position holding the name is a first one.
            lemma_some_first_named(l1, s.name, l.len() as int);
        }
    }
}

/// Where some position holds `name`, a first such position exists.
pub proof fn lemma_some_first_named(l: Seq<ServiceView>, name: Seq<char>, k: int)
    requires
        0 <= k < l.len(),
        l[k].name == name,
    ensures
        has_named(l, name),
    decreases k,
{
    if forall|q: int| 0 <= q < k ==> l[q].name != name {
        assert(first_named(l, name, k));
    } else {
        let q = choose|q: int| 0 <= q < k && l[q].name == name;
        lemma_some_first_named(l, name, q);
    }
}

} // verus!
