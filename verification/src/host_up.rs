//! Deciding whether a host is up from two concurrent probes: an ICMP echo
//! and TCP connection attempts.
use vstd::prelude::*;
use std::time::Duration;
use crate::strings::{dec, push_decimal, push_str};

verus! {

/// How a host was found to be up.
#[derive(Debug, Clone, Copy, PartialEq, Eq, PartialOrd, Ord)]
pub enum ReachedBy {
    /// A TCP connection to this port succeeded.
    Port(u16),
    /// An ICMP echo request was answered.
    EchoReply,
    /// The host announced itself over multicast DNS.
    Mdns,
}

/// The text shown for how a host was reached.
pub open spec fn reached_by_text(r: ReachedBy) -> Seq<char> {
    match r {
        ReachedBy::Port(port) => "TCP port "@ + dec(port as nat),
        ReachedBy::EchoReply => "ICMP Echo Reply"@,
        ReachedBy::Mdns => "mDNS discovery"@,
    }
}

impl ReachedBy {
    /// The text shown for how a host was reached, e.g. `TCP port 22`.
    pub fn describe(&self) -> (r: String)
        ensures
            r@ == reached_by_text(*self),
    {
        let mut s = String::new();
        match self {
            ReachedBy::Port(port) => {
                push_str(&mut s, "TCP port ");
                push_decimal(&mut s, *port as u64);
            },
            ReachedBy::EchoReply => push_str(&mut s, "ICMP Echo Reply"),
            ReachedBy::Mdns => push_str(&mut s, "mDNS discovery"),
        }
        assert(s@ =~= reached_by_text(*self));
        s
    }
}

/// A host that is up: how it was reached and how long the probe took.
#[derive(Debug, Clone, Copy, PartialEq, Eq, PartialOrd, Ord)]
pub struct HostUpInfo {
    pub reached_by: ReachedBy,
    pub rtt: Duration,
}

impl HostUpInfo {
    /// A host reached by `reached_by` after `rtt`.
    pub fn new(reached_by: ReachedBy, rtt: Duration) -> (r: Self)
        ensures
            r.reached_by == reached_by,
            r.rtt == rtt,
    {
        HostUpInfo { reached_by, rtt }
    }
}

/// What a probe has to report at one poll.
pub enum ProbeOutcome<T> {
    /// Still running.
    Pending,
    /// Finished; `Some` when it reached the host.
    Finished(Option<T>),
}

/// What the check does after a poll.
pub enum HostUpStep {
    /// Poll again after a short sleep.
    Continue,
    /// The check is over; `Some` when the host is up.
    Done(Option<HostUpInfo>),
}

/// Which probes are still running.
pub struct HostUpCheck {
    icmp_running: bool,
    tcp_running: bool,
}

/// The result of one poll: the probes still running afterwards and the step.
pub open spec fn host_up_step(
    icmp_running: bool,
    tcp_running: bool,
    timed_out: bool,
    icmp: ProbeOutcome<Duration>,
    tcp: ProbeOutcome<(u16, Duration)>,
) -> (bool, bool, Option<Option<HostUpInfo>>) {
    if timed_out {
        (icmp_running, tcp_running, Some(None))
    } else {
        let icmp_done = icmp_running && icmp is Finished;
        if icmp_done && icmp->Finished_0 is Some {
            (false, tcp_running, Some(Some(HostUpInfo { reached_by: ReachedBy::EchoReply, rtt: icmp->Finished_0->Some_0 })))
        } else {
            let icmp_running2 = icmp_running && !icmp_done;
            let tcp_done = tcp_running && tcp is Finished;
            if tcp_done && tcp->Finished_0 is Some {
                let (port, rtt) = tcp->Finished_0->Some_0;
                (icmp_running2, false, Some(Some(HostUpInfo { reached_by: ReachedBy::Port(port), rtt })))
            } else {
                let tcp_running2 = tcp_running && !tcp_done;
                if !icmp_running2 && !tcp_running2 {
                    (false, false, Some(None))
                } else {
                    (icmp_running2, tcp_running2, None)
                }
            }
        }
    }
}

impl HostUpCheck {
    /// Whether the ICMP probe is still running.
    pub closed spec fn icmp_running_view(&self) -> bool {
        self.icmp_running
    }

    /// Whether the TCP probe is still running.
    pub closed spec fn tcp_running_view(&self) -> bool {
        self.tcp_running
    }

    /// A check with both probes running.
    pub fn new() -> (r: Self)
        ensures
            r.icmp_running_view(),
            r.tcp_running_view(),
    {
        HostUpCheck { icmp_running: true, tcp_running: true }
    }

    /// One poll: the host is up as soon as one probe that finished reached it
    /// (the ICMP probe is looked at first), down when both probes finished
    /// without reaching it or the waiting time ran out.
    pub fn poll(
        &mut self,
        timed_out: bool,
        icmp: ProbeOutcome<Duration>,
        tcp: ProbeOutcome<(u16, Duration)>,
    ) -> (r: HostUpStep)
        ensures
            ({
                let (i2, t2, res) = host_up_step(
                    old(self).icmp_running_view(),
                    old(self).tcp_running_view(),
                    timed_out,
                    icmp,
                    tcp,
                );
                &&& final(self).icmp_running_view() == i2
                &&& final(self).tcp_running_view() == t2
                &&& match res {
                    Some(out) => r == HostUpStep::Done(out),
                    None => r is Continue,
                }
            }),
    {
        if timed_out {
            return HostUpStep::Done(None);
        }
        if self.icmp_running {
            if let ProbeOutcome::Finished(found) = icmp {
                self.icmp_running = false;
                if let Some(rtt) = found {
                    return HostUpStep::Done(Some(HostUpInfo::new(ReachedBy::EchoReply, rtt)));
                }
            }
        }
        if self.tcp_running {
            if let ProbeOutcome::Finished(found) = tcp {
                self.tcp_running = false;
                if let Some((port, rtt)) = found {
                    return HostUpStep::Done(Some(HostUpInfo::new(ReachedBy::Port(port), rtt)));
                }
            }
        }
        if !self.icmp_running && !self.tcp_running {
            HostUpStep::Done(None)
        } else {
            HostUpStep::Continue
        }
    }
}

/// The report names a running probe and what that probe found.
pub open spec fn reached_by_a_probe(
    info: HostUpInfo,
    icmp_running: bool,
    tcp_running: bool,
    icmp: Option<Duration>,
    tcp: Option<(u16, Duration)>,
) -> bool {
    ||| (info.reached_by == ReachedBy::EchoReply && icmp_running && icmp == Some(info.rtt))
    ||| (tcp_running && tcp == Some((info.reached_by->Port_0, info.rtt)) && info.reached_by is Port)
}

/// A check ends at the latest once both probes have finished, and a host
/// reported up was reached by a probe that finished with a result.
pub proof fn lemma_check_ends_when_probes_finish(
    icmp_running: bool,
    tcp_running: bool,
    icmp: Option<Duration>,
    tcp: Option<(u16, Duration)>,
)
    ensures
        ({
            let (_, _, res) = host_up_step(
                icmp_running,
                tcp_running,
                false,
                ProbeOutcome::Finished(icmp),
                ProbeOutcome::Finished(tcp),
            );
            &&& res is Some
            &&& (res matches Some(Some(info)) ==> reached_by_a_probe(
                info,
                icmp_running,
                tcp_running,
                icmp,
                tcp,
            ))
        }),
{
}

/// A check that has timed out is over, whatever the probes report.
pub proof fn lemma_timeout_ends_check(
    icmp_running: bool,
    tcp_running: bool,
    icmp: ProbeOutcome<Duration>,
    tcp: ProbeOutcome<(u16, Duration)>,
)
    ensures
        host_up_step(icmp_running, tcp_running, true, icmp, tcp).2 == Some(None::<HostUpInfo>),
{
}

/// A check reports a host down only when the waiting time ran out or no
/// probe is left running: while the ICMP or the TCP probe is still running
/// (it reports `Pending`) and the time has not run out, the check does not
/// end with the host down; and a host reported down without a timeout has
/// both probes finished.
pub proof fn lemma_down_only_when_no_probe_left(
    icmp_running: bool,
    tcp_running: bool,
    timed_out: bool,
    icmp: ProbeOutcome<Duration>,
    tcp: ProbeOutcome<(u16, Duration)>,
)
    ensures
        ({
            let (i2, t2, res) = host_up_step(icmp_running, tcp_running, timed_out, icmp, tcp);
            &&& (res == Some(None::<HostUpInfo>) ==> timed_out || (!i2 && !t2))
            &&& (!timed_out && tcp_running && tcp is Pending ==> res != Some(None::<HostUpInfo>))
            &&& (!timed_out && icmp_running && icmp is Pending ==> res != Some(None::<HostUpInfo>))
            &&& (!timed_out && res is None ==> i2 || t2)
        }),
{
}

/// A probe that reports nothing new keeps running: without a timeout, a
/// running probe that is `Pending` is still running after the poll unless
/// the other probe found the host.
pub proof fn lemma_pending_probe_keeps_running(
    icmp_running: bool,
    tcp_running: bool,
    icmp: ProbeOutcome<Duration>,
    tcp: ProbeOutcome<(u16, Duration)>,
)
    ensures
        ({
            let (i2, t2, res) = host_up_step(icmp_running, tcp_running, false, icmp, tcp);
            &&& (tcp_running && tcp is Pending && !(res matches Some(Some(_))) ==> t2 && res is None)
            &&& (icmp_running && icmp is Pending && !(res matches Some(Some(_))) ==> i2 && res is None)
        }),
{
}

} // verus!
