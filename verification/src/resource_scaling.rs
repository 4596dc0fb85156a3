//! Scales the scanner's thread and file descriptor budget to the machine.
use vstd::prelude::*;
use std::time::Instant;
use crate::clock::{elapsed_parts, instant_now, span_less};

verus! {

/// Fewest I/O threads a scan is configured with.
pub const MIN_LOW_TIER_THREADS: usize = 16;

/// Most I/O threads a scan is configured with.
pub const MAX_IO_THREADS: usize = 8192;

/// Parallelism assumed when the machine cannot tell.
pub const FALLBACK_PARALLELISM: usize = 10;

/// Parallelism is never taken to be below this.
pub const MIN_PARALLELISM: usize = 1;

/// The default NOFILE limit on Linux.
pub const DEFAULT_MAX_FD: u64 = 1024;

/// How capable the machine is, with its available parallelism.
pub enum PerformanceTier {
    High(usize),
    Mid(usize),
    Low(usize),
}

/// Threads per unit of parallelism: 16 on low tier machines (under 8), 32 otherwise.
pub open spec fn thread_scale_of(parallelism: nat) -> nat {
    if parallelism >= 8 {
        32
    } else {
        16
    }
}

/// The thread budget for a parallelism.
pub open spec fn max_threads_of(parallelism: nat) -> nat {
    thread_scale_of(parallelism) * parallelism
}

/// Passive refresh interval in milliseconds: 50 from 32 up, 100 from 8 up, 300 below.
pub open spec fn refresh_interval_of(parallelism: nat) -> nat {
    if parallelism >= 32 {
        50
    } else if parallelism >= 8 {
        100
    } else {
        300
    }
}

impl PerformanceTier {
    /// The parallelism the tier was made from.
    pub open spec fn parallelism(&self) -> usize {
        match self {
            PerformanceTier::High(p) | PerformanceTier::Mid(p) | PerformanceTier::Low(p) => *p,
        }
    }

    /// The tier of a machine: high from 32, mid from 8, low below.
    pub fn from(available_parallelism: usize) -> (r: Self)
        ensures
            r.parallelism() == available_parallelism,
            r is High <==> available_parallelism >= 32,
            r is Mid <==> 8 <= available_parallelism < 32,
            r is Low <==> available_parallelism < 8,
    {
        if available_parallelism >= 32 {
            PerformanceTier::High(available_parallelism)
        } else if available_parallelism >= 8 {
            PerformanceTier::Mid(available_parallelism)
        } else {
            PerformanceTier::Low(available_parallelism)
        }
    }

    /// A tier always matches its parallelism.
    pub open spec fn wf(&self) -> bool {
        match self {
            PerformanceTier::High(p) => *p >= 32,
            PerformanceTier::Mid(p) => 8 <= *p < 32,
            PerformanceTier::Low(p) => *p < 8,
        }
    }

    /// Threads per unit of parallelism.
    pub fn thread_scale(&self) -> (r: usize)
        requires
            self.wf(),
        ensures
            r == thread_scale_of(self.parallelism() as nat),
    {
        match self {
            PerformanceTier::High(_) | PerformanceTier::Mid(_) => 32,
            PerformanceTier::Low(_) => 16,
        }
    }

    /// How often the interface redraws when idle, in milliseconds.
    pub fn passive_refresh_interval(&self) -> (r: u64)
        requires
            self.wf(),
        ensures
            r == refresh_interval_of(self.parallelism() as nat),
    {
        match self {
            PerformanceTier::High(_) => 50,
            PerformanceTier::Mid(_) => 100,
            PerformanceTier::Low(_) => 300,
        }
    }

    /// The scanner thread budget: the thread scale times the parallelism.
    pub fn max_threads(&self) -> (r: usize)
        requires
            self.wf(),
            max_threads_of(self.parallelism() as nat) <= usize::MAX,
        ensures
            r == max_threads_of(self.parallelism() as nat),
    {
        let p = match self {
            PerformanceTier::High(p) | PerformanceTier::Mid(p) | PerformanceTier::Low(p) => *p,
        };
        let scale = self.thread_scale();
        scale * p
    }

    /// Three file descriptors per scanner thread: a TCP socket, an ICMP or
    /// raw socket, and one for sleeping sockets, host checks, DNS-SD and the rest.
    pub fn max_file_descriptors(&self) -> (r: u64)
        requires
            self.wf(),
            3 * max_threads_of(self.parallelism() as nat) <= usize::MAX,
        ensures
            r == 3 * max_threads_of(self.parallelism() as nat),
    {
        let t = self.max_threads();
        (t * 3) as u64
    }
}

/// Tries to raise the NOFILE limit to `lim` and returns the resulting soft limit.
///
/// Calls `rlimit::increase_nofile_limit`; `None` when a system call failed.
/// The limit depends on the system and is not stated.
#[verifier::external_body]
fn increase_nofile_limit(lim: u64) -> Option<u64> {
    rlimit::increase_nofile_limit(lim).ok()
}

/// The parallelism that is used: the detected one, at least one.
pub open spec fn usable_parallelism(detected: nat) -> nat {
    if detected < MIN_PARALLELISM {
        MIN_PARALLELISM as nat
    } else {
        detected
    }
}

/// The descriptor budget of a parallelism (three per thread of the widest
/// thread scale) fits in `usize`.
pub open spec fn budget_fits(parallelism: nat) -> bool {
    96 * parallelism <= usize::MAX
}

/// Every parallelism the detection can give has budgets that fit in `usize`.
pub open spec fn detection_fits<F: Fn() -> usize>(detect: F) -> bool {
    forall|d: usize| #[trigger] detect.ensures((), d) ==> budget_fits(d as nat)
}

/// Where the budget fits, the thread and descriptor budgets fit in `usize`.
pub proof fn lemma_budgets_fit(p: nat)
    requires
        budget_fits(p),
    ensures
        max_threads_of(p) <= usize::MAX,
        3 * max_threads_of(p) <= usize::MAX,
{
    assert(max_threads_of(p) <= 32 * p) by (nonlinear_arith)
        requires
            max_threads_of(p) == thread_scale_of(p) * p,
            thread_scale_of(p) <= 32,
    ;
}

fn bounded_parallelism(detected: usize) -> (r: usize)
    requires
        budget_fits(detected as nat),
    ensures
        r == usable_parallelism(detected as nat),
        MIN_PARALLELISM <= r,
        budget_fits(r as nat),
{
    if detected < MIN_PARALLELISM {
        MIN_PARALLELISM
    } else {
        detected
    }
}

/// The machine's resources as the scanner sees them: its parallelism,
/// re-detected at most every ten seconds, and the file descriptor limit.
#[derive(Clone, Copy)]
pub struct HostResources {
    fd_limit: u64,
    parallelism: usize,
    last_check: Instant,
}

impl HostResources {
    /// The parallelism in use.
    pub closed spec fn parallelism_view(&self) -> usize {
        self.parallelism
    }

    /// The file descriptor limit last obtained.
    pub closed spec fn fd_limit_view(&self) -> u64 {
        self.fd_limit
    }

    /// The parallelism stays within its bounds.
    pub closed spec fn wf(&self) -> bool {
        MIN_PARALLELISM <= self.parallelism && budget_fits(self.parallelism as nat)
    }

    /// The number of threads the machine can run at once, as last detected.
    pub fn parallelism(&self) -> (r: usize)
        ensures
            r == self.parallelism_view(),
    {
        self.parallelism
    }

    /// Detects the parallelism with `detect` and asks for enough file descriptors
    /// for it, falling back to 1024 when the limit cannot be obtained.
    pub fn new<F: Fn() -> usize>(detect: &F) -> (r: Self)
        requires
            detect.requires(()),
            detection_fits(*detect),
        ensures
            r.wf(),
            exists|d: usize| detect.ensures((), d) && r.parallelism_view() == usable_parallelism(d as nat),
    {
        let d = detect();
        let parallelism = bounded_parallelism(d);
        let tier = PerformanceTier::from(parallelism);
        let max_fd = tier.max_file_descriptors();
        let fd_limit = match increase_nofile_limit(max_fd) {
            Some(l) => l,
            None => DEFAULT_MAX_FD,
        };
        HostResources { fd_limit, parallelism, last_check: instant_now() }
    }

    /// Re-detects the parallelism when the last check is over ten seconds old.
    fn maybe_refresh<F: Fn() -> usize>(&mut self, detect: &F)
        requires
            old(self).wf(),
            detect.requires(()),
            detection_fits(*detect),
        ensures
            final(self).wf(),
            final(self).fd_limit_view() == old(self).fd_limit_view(),
            final(self).parallelism_view() == old(self).parallelism_view() || exists|d: usize|
                detect.ensures((), d) && final(self).parallelism_view() == usable_parallelism(
                    d as nat,
                ),
    {
        let (secs, nanos) = elapsed_parts(&self.last_check);
        if span_less(10, 0, secs, nanos) {
            let d = detect();
            self.parallelism = bounded_parallelism(d);
            self.last_check = instant_now();
        }
    }

    /// The performance tier of the (possibly re-detected) parallelism.
    fn performance_tier<F: Fn() -> usize>(&mut self, detect: &F) -> (r: PerformanceTier)
        requires
            old(self).wf(),
            detect.requires(()),
            detection_fits(*detect),
        ensures
            final(self).wf(),
            r.wf(),
            r.parallelism() == final(self).parallelism_view(),
            3 * max_threads_of(r.parallelism() as nat) <= usize::MAX,
            final(self).fd_limit_view() == old(self).fd_limit_view(),
            final(self).parallelism_view() == old(self).parallelism_view() || exists|d: usize|
                detect.ensures((), d) && final(self).parallelism_view() == usable_parallelism(
                    d as nat,
                ),
    {
        self.maybe_refresh(detect);
        proof {
            lemma_budgets_fit(self.parallelism as nat);
        }
        PerformanceTier::from(self.parallelism)
    }

    /// The file descriptor budget of the current tier; the NOFILE limit is
    /// raised first when it is below that budget.
    pub fn max_file_descriptors<F: Fn() -> usize>(&mut self, detect: &F) -> (r: u64)
        requires
            old(self).wf(),
            detect.requires(()),
            detection_fits(*detect),
        ensures
            final(self).wf(),
            r == 3 * max_threads_of(final(self).parallelism_view() as nat),
            old(self).fd_limit_view() >= r ==> final(self).fd_limit_view()
                == old(self).fd_limit_view(),
            kept_or_redetected(old(self).parallelism_view(), final(self).parallelism_view(), *detect),
    {
        let curr_max_fd = self.performance_tier(detect).max_file_descriptors();
        if self.fd_limit < curr_max_fd {
            self.fd_limit = match increase_nofile_limit(curr_max_fd) {
                Some(l) => l,
                None => DEFAULT_MAX_FD,
            };
        }
        curr_max_fd
    }

    /// The I/O thread count: the tier's thread budget clamped to
    /// `MIN_LOW_TIER_THREADS..=MAX_IO_THREADS`, and no more than a third of
    /// the file descriptor budget.
    pub fn max_threads<F: Fn() -> usize>(&mut self, detect: &F) -> (r: u16)
        requires
            old(self).wf(),
            detect.requires(()),
            detection_fits(*detect),
        ensures
            final(self).wf(),
            r >= 1,
            r <= MAX_IO_THREADS,
            r <= max_threads_of(final(self).parallelism_view() as nat),
            kept_or_redetected(old(self).parallelism_view(), final(self).parallelism_view(), *detect),
            exists|p: nat|
                MIN_PARALLELISM <= p && budget_fits(p) && #[trigger] max_threads_of(p) >= 0 && r
                    == min_nat(
                    clamp_nat(max_threads_of(p), MIN_LOW_TIER_THREADS as nat, MAX_IO_THREADS as nat),
                    max_threads_of(final(self).parallelism_view() as nat),
                ),
    {
        let tier = self.performance_tier(detect);
        let ghost p1 = tier.parallelism() as nat;
        let calculated_threads = tier.max_threads();
        let max_threads = if calculated_threads < MIN_LOW_TIER_THREADS {
            MIN_LOW_TIER_THREADS
        } else if calculated_threads > MAX_IO_THREADS {
            MAX_IO_THREADS
        } else {
            calculated_threads
        };
        let scaled_max_fd = (self.max_file_descriptors(detect) / 3) as usize;
        let r = if max_threads < scaled_max_fd {
            max_threads
        } else {
            scaled_max_fd
        };
        assert(max_threads_of(p1) >= 0);
        r as u16
    }

    /// How often the interface redraws when idle, in milliseconds.
    pub fn passive_refresh_interval<F: Fn() -> usize>(&mut self, detect: &F) -> (r: u64)
        requires
            old(self).wf(),
            detect.requires(()),
            detection_fits(*detect),
        ensures
            final(self).wf(),
            r == refresh_interval_of(final(self).parallelism_view() as nat),
            50 <= r <= 300,
    {
        self.performance_tier(detect).passive_refresh_interval()
    }
}

/// The smaller of two numbers.
pub open spec fn min_nat(a: nat, b: nat) -> nat {
    if a < b {
        a
    } else {
        b
    }
}

/// `v` limited to `lo..=hi`.
pub open spec fn clamp_nat(v: nat, lo: nat, hi: nat) -> nat {
    if v < lo {
        lo
    } else if v > hi {
        hi
    } else {
        v
    }
}

/// The parallelism after a call is the one before, or one that the
/// detection gave.
pub open spec fn kept_or_redetected<F: Fn() -> usize>(before: usize, after: usize, detect: F) -> bool {
    after == before || exists|d: usize| detect.ensures((), d) && after == usable_parallelism(d as nat)
}

/// At least three file descriptors per I/O thread: where `max_threads` gave
/// `threads` and left the resources in `after_threads`, and a following
/// `max_file_descriptors` gave `fds` and left them in `after_fds`, with the
/// parallelism not re-detected between the two calls, the thread count is
/// positive and the descriptor budget is at least three times it.
pub proof fn lemma_three_fds_per_thread(after_threads: HostResources, threads: u16, after_fds: HostResources, fds: u64)
    requires
        threads >= 1,
        threads <= max_threads_of(after_threads.parallelism_view() as nat),
        fds == 3 * max_threads_of(after_fds.parallelism_view() as nat),
        after_fds.parallelism_view() == after_threads.parallelism_view(),
    ensures
        threads > 0,
        fds >= 3 * threads,
{
}

/// The same where the detection always gives one value `d0`, as on a machine
/// whose parallelism does not change: from resources made with it, any
/// re-detection between the calls changes nothing, so the descriptor budget
/// is at least three times the thread count.
pub proof fn lemma_three_fds_per_thread_fixed_detection<F: Fn() -> usize>(
    detect: F,
    d0: usize,
    start: HostResources,
    after_threads: HostResources,
    threads: u16,
    after_fds: HostResources,
    fds: u64,
)
    requires
        forall|d: usize| #[trigger] detect.ensures((), d) ==> d == d0,
        start.parallelism_view() == usable_parallelism(d0 as nat),
        kept_or_redetected(start.parallelism_view(), after_threads.parallelism_view(), detect),
        threads >= 1,
        threads <= max_threads_of(after_threads.parallelism_view() as nat),
        kept_or_redetected(after_threads.parallelism_view(), after_fds.parallelism_view(), detect),
        fds == 3 * max_threads_of(after_fds.parallelism_view() as nat),
    ensures
        threads > 0,
        fds >= 3 * threads,
{
    assert(after_threads.parallelism_view() == start.parallelism_view());
    assert(after_fds.parallelism_view() == after_threads.parallelism_view());
}

} // verus!
