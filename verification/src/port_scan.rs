//! Tallying the results of a port scan, and shortening text to fit.
use vstd::prelude::*;
use crate::format::{duration_text, format_duration};
use crate::keybindings::byte_len;
use crate::strings::{dec, decimal_string, push_decimal, push_str};
use crate::ip_address::{IpAddress, ip_text};

verus! {

/// What a probe of one port found.
#[derive(Debug, Clone, Copy, PartialEq, Eq, Structural)]
pub enum PortOutcome {
    Open,
    Closed,
    Filtered,
}

/// The results of a running scan: how many ports were probed, the open ones
/// in ascending order, and how many were closed or filtered.
#[derive(Debug)]
pub struct PortTally {
    pub scanned: u32,
    pub open_ports: Vec<u16>,
    pub closed: u32,
    pub filtered: u32,
}

/// Ports in ascending order (repeats allowed).
pub open spec fn ascending(s: Seq<u16>) -> bool {
    forall|i: int, j: int| 0 <= i < j < s.len() ==> s[i] <= s[j]
}

/// The position before which `port` goes: after every smaller port.
pub open spec fn insert_position(s: Seq<u16>, port: u16, pos: int) -> bool {
    &&& 0 <= pos <= s.len()
    &&& forall|i: int| 0 <= i < pos ==> s[i] < port
    &&& forall|i: int| pos <= i < s.len() ==> s[i] >= port
}

impl PortTally {
    /// Nothing scanned yet.
    pub fn new() -> (r: Self)
        ensures
            r.scanned == 0,
            r.open_ports@ == Seq::<u16>::empty(),
            r.closed == 0,
            r.filtered == 0,
    {
        PortTally { scanned: 0, open_ports: Vec::new(), closed: 0, filtered: 0 }
    }

    /// Records one probed port: an open port is inserted in order after every
    /// smaller one; closed and filtered ports are counted.
    pub fn record(&mut self, port: u16, outcome: PortOutcome)
        requires
            ascending(old(self).open_ports@),
            old(self).scanned < u32::MAX,
            old(self).closed < u32::MAX,
            old(self).filtered < u32::MAX,
        ensures
            ascending(final(self).open_ports@),
            final(self).scanned == old(self).scanned + 1,
            outcome == PortOutcome::Open ==> exists|pos: int|
                insert_position(old(self).open_ports@, port, pos) && final(self).open_ports@
                    == old(self).open_ports@.insert(pos, port),
            outcome != PortOutcome::Open ==> final(self).open_ports@ == old(self).open_ports@,
            final(self).closed == old(self).closed + if outcome == PortOutcome::Closed {
                1int
            } else {
                0int
            },
            final(self).filtered == old(self).filtered + if outcome == PortOutcome::Filtered {
                1int
            } else {
                0int
            },
    {
        self.scanned = self.scanned + 1;
        match outcome {
            PortOutcome::Open => {
                let mut pos: usize = 0;
                while pos < self.open_ports.len() && self.open_ports[pos] < port
                    invariant
                        pos <= self.open_ports.len(),
                        ascending(self.open_ports@),
                        self.open_ports@ == old(self).open_ports@,
                        forall|i: int| 0 <= i < pos ==> self.open_ports@[i] < port,
                    decreases self.open_ports.len() - pos,
                {
                    pos = pos + 1;
                }
                let ghost before = self.open_ports@;
                proof {
                    assert forall|i: int| pos <= i < before.len() implies before[i] >= port by {
                        assert(before[pos as int] >= port);
                    }
                }
                self.open_ports.insert(pos, port);
                assert(insert_position(before, port, pos as int));
                assert forall|i: int, j: int| 0 <= i < j < self.open_ports@.len() implies self.open_ports@[i]
                    <= self.open_ports@[j] by {
                    if i < pos && j > pos {
                        assert(before[i] < port && port <= before[j - 1]);
                    } else if j > pos && i > pos {
                        assert(before[i - 1] <= before[j - 1]);
                    }
                }
            },
            PortOutcome::Closed => self.closed = self.closed + 1,
            PortOutcome::Filtered => self.filtered = self.filtered + 1,
        }
    }
}

/// The text cut to `max_chars` characters with `…` as the last one, where it
/// is longer than that; an empty limit leaves only the `…`.
pub open spec fn truncated(text: Seq<char>, max_chars: nat) -> Seq<char> {
    if text.len() <= max_chars {
        text
    } else {
        let keep = if max_chars == 0 {
            0
        } else {
            (max_chars - 1) as nat
        };
        text.take(keep as int).push('…')
    }
}

/// Shortens a text to fit `max_chars` characters (see `truncated`).
pub fn truncate_with_ellipsis(text: &str, max_chars: usize) -> (r: String)
    ensures
        r@ == truncated(text@, max_chars as nat),
{
    let n = text.unicode_len();
    if n <= max_chars {
        return text.to_owned();
    }
    let keep = if max_chars == 0 {
        0
    } else {
        max_chars - 1
    };
    let mut s = text.substring_char(0, keep).to_owned();
    s.push('…');
    assert(text@.subrange(0, keep as int) =~= text@.take(keep as int));
    s
}


/// Which screen the port scan dialog shows.
#[derive(Debug, Clone, Copy, PartialEq, Eq, Structural)]
pub enum DialogStage {
    /// Choosing the ports to scan.
    Setup,
    /// A scan is running.
    Scanning,
    /// The last scan's results.
    Results,
}

/// What choosing the focused row did, for the caller to follow up.
#[derive(Debug, Clone, Copy, PartialEq, Eq, Structural)]
pub enum SelectEffect {
    /// Nothing more to do.
    Nothing,
    /// A port source was checked or unchecked: the selection is to be recomputed.
    SelectionChanged,
    /// A scan was started.
    ScanStarted,
}

/// The port scan dialog's state: which screen it shows, the focused row of
/// the setup screen (one row per port category, then the custom ports, the
/// mDNS probe and the start button), the checked sources, and the selected
/// row of the results list.
#[derive(Debug)]
pub struct PortScanDialog {
    pub showing: bool,
    /// The live scan settings of the host the dialog is open on.
    pub target: Option<ScanTarget>,
    pub stage: DialogStage,
    pub focus: usize,
    pub ranges_checked: Vec<bool>,
    pub custom_checked: bool,
    pub mdns_checked: bool,
    pub results_selected: usize,
    /// The interior width, fixed at the first drawing after the dialog opens.
    pub frozen_width: Option<u16>,
    /// The body height of the last drawing.
    pub last_body_lines: u16,
    /// The scan that runs or ran last.
    pub running: RunningScan,
}

/// The scan settings of the host the dialog is open on, refreshed from the
/// configuration while it stays open: how many workers probe ports, and the
/// connect timeout in milliseconds.
#[derive(Debug, Clone, Copy, PartialEq, Eq)]
pub struct ScanTarget {
    pub worker_count: u16,
    pub connect_timeout_ms: u64,
}

/// A scan as it runs: the tally of probed ports, how many ports it covers,
/// whether it probes mDNS, the body height it keeps while it runs, and the
/// worker count and connect timeout it started with.
#[derive(Debug)]
pub struct RunningScan {
    pub tally: PortTally,
    pub port_count: usize,
    pub mdns_probe: bool,
    pub body_height: u16,
    pub worker_count: u16,
    pub connect_timeout_ms: u64,
}

/// A scan as plain values.
pub struct RunView {
    pub scanned: u32,
    pub open_ports: Seq<u16>,
    pub closed: u32,
    pub filtered: u32,
    pub port_count: usize,
    pub mdns_probe: bool,
    pub body_height: u16,
    pub worker_count: u16,
    pub connect_timeout_ms: u64,
}

impl View for RunningScan {
    type V = RunView;

    open spec fn view(&self) -> RunView {
        RunView {
            scanned: self.tally.scanned,
            open_ports: self.tally.open_ports@,
            closed: self.tally.closed,
            filtered: self.tally.filtered,
            port_count: self.port_count,
            mdns_probe: self.mdns_probe,
            body_height: self.body_height,
            worker_count: self.worker_count,
            connect_timeout_ms: self.connect_timeout_ms,
        }
    }
}

/// A scan that starts: nothing probed yet, no open port, covering
/// `port_count` ports, probing mDNS where asked, keeping `body_height`, with
/// the target's worker count and connect timeout.
pub open spec fn fresh_run(port_count: usize, mdns_probe: bool, body_height: u16, target: ScanTarget) -> RunView {
    RunView {
        scanned: 0,
        open_ports: Seq::empty(),
        closed: 0,
        filtered: 0,
        port_count,
        mdns_probe,
        body_height,
        worker_count: target.worker_count,
        connect_timeout_ms: target.connect_timeout_ms,
    }
}

impl RunningScan {
    /// A scan that starts (see `fresh_run`).
    pub fn start(port_count: usize, mdns_probe: bool, body_height: u16, target: ScanTarget) -> (r: Self)
        ensures
            r@ == fresh_run(port_count, mdns_probe, body_height, target),
    {
        RunningScan {
            tally: PortTally::new(),
            port_count,
            mdns_probe,
            body_height,
            worker_count: target.worker_count,
            connect_timeout_ms: target.connect_timeout_ms,
        }
    }
}

/// The port count of a selection that parsed, 0 where it did not.
pub open spec fn selection_count(selected_ports: Option<usize>) -> usize {
    match selected_ports {
        Some(n) => n,
        None => 0,
    }
}

/// Whether a scan may start: the selection parses (`Some` port count) and
/// holds a port, or the mDNS probe is checked.
pub open spec fn may_start(selected_ports: Option<usize>, mdns_checked: bool) -> bool {
    match selected_ports {
        Some(n) => n > 0 || mdns_checked,
        None => false,
    }
}

/// The dialog as plain values.
pub struct DialogView {
    pub showing: bool,
    pub target: Option<ScanTarget>,
    pub stage: DialogStage,
    pub focus: int,
    pub ranges_checked: Seq<bool>,
    pub custom_checked: bool,
    pub mdns_checked: bool,
    pub results_selected: int,
    pub frozen_width: Option<u16>,
    pub last_body_lines: u16,
    pub running: RunView,
}

impl View for PortScanDialog {
    type V = DialogView;

    open spec fn view(&self) -> DialogView {
        DialogView {
            showing: self.showing,
            target: self.target,
            stage: self.stage,
            focus: self.focus as int,
            ranges_checked: self.ranges_checked@,
            custom_checked: self.custom_checked,
            mdns_checked: self.mdns_checked,
            results_selected: self.results_selected as int,
            frozen_width: self.frozen_width,
            last_body_lines: self.last_body_lines,
            running: self.running@,
        }
    }
}

/// The dialog after Up.
pub open spec fn after_up(d: DialogView) -> DialogView {
    match d.stage {
        DialogStage::Setup => DialogView { focus: if d.focus > 0 { d.focus - 1 } else { d.focus }, ..d },
        DialogStage::Scanning => d,
        DialogStage::Results => DialogView {
            results_selected: if d.results_selected > 0 {
                d.results_selected - 1
            } else {
                d.results_selected
            },
            ..d
        },
    }
}

/// The dialog after Down.
pub open spec fn after_down(d: DialogView) -> DialogView {
    match d.stage {
        DialogStage::Setup => DialogView {
            focus: if d.focus + 1 < d.ranges_checked.len() + 3 {
                d.focus + 1
            } else {
                d.focus
            },
            ..d
        },
        DialogStage::Scanning => d,
        DialogStage::Results => DialogView {
            results_selected: if d.results_selected < usize::MAX {
                d.results_selected + 1
            } else {
                d.results_selected
            },
            ..d
        },
    }
}

/// The dialog after Enter, and what the caller is to do next (see
/// `PortScanDialog::select`).
pub open spec fn after_select(d: DialogView, selected_ports: Option<usize>) -> (DialogView, SelectEffect) {
    let n = d.ranges_checked.len() as int;
    match d.stage {
        DialogStage::Setup => if d.focus < n {
            (
                DialogView {
                    ranges_checked: d.ranges_checked.update(d.focus, !d.ranges_checked[d.focus]),
                    ..d
                },
                SelectEffect::SelectionChanged,
            )
        } else if d.focus == n {
            (DialogView { custom_checked: !d.custom_checked, ..d }, SelectEffect::SelectionChanged)
        } else if d.focus == n + 1 {
            (DialogView { mdns_checked: !d.mdns_checked, ..d }, SelectEffect::Nothing)
        } else if d.showing && d.target is Some && may_start(selected_ports, d.mdns_checked) {
            (
                DialogView {
                    stage: DialogStage::Scanning,
                    results_selected: 0,
                    running: fresh_run(
                        selection_count(selected_ports),
                        d.mdns_checked,
                        d.last_body_lines,
                        d.target.unwrap(),
                    ),
                    ..d
                },
                SelectEffect::ScanStarted,
            )
        } else {
            (d, SelectEffect::Nothing)
        },
        DialogStage::Scanning => (d, SelectEffect::Nothing),
        DialogStage::Results => (DialogView { stage: DialogStage::Setup, ..d }, SelectEffect::Nothing),
    }
}

/// Down then Up on the setup screen comes back to the same row, unless
/// Down had nowhere to go from the start button.
pub proof fn lemma_down_then_up(d: DialogView)
    requires
        d.stage == DialogStage::Setup,
        0 <= d.focus,
        d.focus + 1 < d.ranges_checked.len() + 3,
    ensures
        after_up(after_down(d)) == d,
{
}

/// Enter twice on a box of the setup screen leaves every box as it was, and
/// asks for the same follow-up both times.
pub proof fn lemma_toggle_twice(d: DialogView, selected_ports: Option<usize>)
    requires
        d.stage == DialogStage::Setup,
        0 <= d.focus <= d.ranges_checked.len() + 1,
    ensures
        after_select(after_select(d, selected_ports).0, selected_ports).0 == d,
        after_select(after_select(d, selected_ports).0, selected_ports).1 == after_select(
            d,
            selected_ports,
        ).1,
{
    let n = d.ranges_checked.len() as int;
    if d.focus < n {
        let once = d.ranges_checked.update(d.focus, !d.ranges_checked[d.focus]);
        assert(once.update(d.focus, !once[d.focus]) =~= d.ranges_checked);
    }
}

/// The interior width, once fixed, is kept by every key: the border does not
/// move while the dialog stays open.
pub proof fn lemma_frozen_width_kept(d: DialogView, selected_ports: Option<usize>)
    ensures
        after_up(d).frozen_width == d.frozen_width,
        after_down(d).frozen_width == d.frozen_width,
        after_select(d, selected_ports).0.frozen_width == d.frozen_width,
{
}

/// No key changes anything while a scan runs.
pub proof fn lemma_scanning_ignores_keys(d: DialogView, selected_ports: Option<usize>)
    requires
        d.stage == DialogStage::Scanning,
    ensures
        after_up(d) == d,
        after_down(d) == d,
        after_select(d, selected_ports) == (d, SelectEffect::Nothing),
{
}

/// The body height of a drawing of the dialog: on the setup screen the
/// header, a blank line and the setup rows (categories + 9 lines); while
/// scanning, the height the scan keeps; on the results screen the header, a
/// blank line, the content drawn, a blank line and the footer.
pub open spec fn drawn_body_lines(d: DialogView, results_content_lines: u16) -> u16 {
    match d.stage {
        DialogStage::Setup => (SETTINGS_HEADER_HEIGHT + 1 + d.ranges_checked.len() + 5) as u16,
        DialogStage::Scanning => d.running.body_height,
        DialogStage::Results => (SETTINGS_HEADER_HEIGHT + 1 + results_content_lines + 2) as u16,
    }
}

/// Every drawing of the setup screen records its fixed height, categories + 9.
pub proof fn lemma_setup_body_height(d: DialogView, results_content_lines: u16)
    requires
        d.stage == DialogStage::Setup,
        d.ranges_checked.len() + 9 <= u16::MAX,
    ensures
        drawn_body_lines(d, results_content_lines) == d.ranges_checked.len() + 9,
{
}

impl PortScanDialog {
    /// The row of the custom ports.
    pub open spec fn custom_row(&self) -> int {
        self.ranges_checked@.len() as int
    }

    /// The row of the mDNS probe.
    pub open spec fn mdns_row(&self) -> int {
        self.ranges_checked@.len() + 1int
    }

    /// The number of setup rows; the last is the start button.
    pub open spec fn row_count(&self) -> int {
        self.ranges_checked@.len() + 3int
    }

    /// The focus is on a setup row, the dialog has a target exactly while it
    /// shows, and the setup body height fits in `u16`.
    pub open spec fn wf(&self) -> bool {
        &&& self.focus < self.row_count()
        &&& self.ranges_checked@.len() + 9 <= u16::MAX
        &&& self.showing == self.target is Some
    }

    /// A closed dialog with `categories` unchecked port categories.
    pub fn new(categories: usize) -> (r: Self)
        requires
            categories + 9 <= u16::MAX,
        ensures
            r.frozen_width is None,
            r.last_body_lines == categories + 9,
            r.running@ == fresh_run(0, false, (categories + 9) as u16, ScanTarget { worker_count: 1, connect_timeout_ms: 0 }),
            r.target is None,
            r.wf(),
            !r.showing,
            r.stage == DialogStage::Setup,
            r.focus == 0,
            r.ranges_checked@ == Seq::new(categories as nat, |i: int| false),
            !r.custom_checked,
            !r.mdns_checked,
            r.results_selected == 0,
    {
        let mut ranges_checked: Vec<bool> = Vec::new();
        let mut i: usize = 0;
        while i < categories
            invariant
                i <= categories,
                ranges_checked@ == Seq::new(i as nat, |k: int| false),
            decreases categories - i,
        {
            ranges_checked.push(false);
            assert(ranges_checked@ =~= Seq::new((i + 1) as nat, |k: int| false));
            i = i + 1;
        }
        PortScanDialog {
            showing: false,
            target: None,
            stage: DialogStage::Setup,
            focus: 0,
            ranges_checked,
            custom_checked: false,
            mdns_checked: false,
            results_selected: 0,
            frozen_width: None,
            last_body_lines: (categories as u16) + 9,
            running: RunningScan::start(
                0,
                false,
                (categories as u16) + 9,
                ScanTarget { worker_count: 1, connect_timeout_ms: 0 },
            ),
        }
    }

    /// Opens the dialog on the previous result where the host has one, else
    /// on the setup screen, with the first row focused and selected, for a
    /// host scanned with `worker_count` workers and a connect timeout of
    /// `connect_timeout_ms`; the checked sources stay as they were.
    pub fn open(&mut self, has_previous_result: bool, worker_count: u16, connect_timeout_ms: u64)
        requires
            old(self).wf(),
        ensures
            final(self).wf(),
            final(self).showing,
            final(self).target == Some(ScanTarget { worker_count, connect_timeout_ms }),
            final(self).stage == if has_previous_result {
                DialogStage::Results
            } else {
                DialogStage::Setup
            },
            final(self).focus == 0,
            final(self).results_selected == 0,
            final(self).ranges_checked@ == old(self).ranges_checked@,
            final(self).custom_checked == old(self).custom_checked,
            final(self).mdns_checked == old(self).mdns_checked,
            final(self).frozen_width is None,
            final(self)@.last_body_lines == old(self)@.last_body_lines,
            final(self)@.running == old(self)@.running,
    {
        self.frozen_width = None;
        self.stage = if has_previous_result {
            DialogStage::Results
        } else {
            DialogStage::Setup
        };
        self.focus = 0;
        self.results_selected = 0;
        self.target = Some(ScanTarget { worker_count, connect_timeout_ms });
        self.showing = true;
    }

    /// Closes the dialog, back to the setup screen for the next opening.
    pub fn close(&mut self)
        requires
            old(self).wf(),
        ensures
            final(self).wf(),
            !final(self).showing,
            final(self).target is None,
            final(self).stage == DialogStage::Setup,
            final(self).focus == old(self).focus,
            final(self).results_selected == old(self).results_selected,
            final(self).ranges_checked@ == old(self).ranges_checked@,
            final(self).custom_checked == old(self).custom_checked,
            final(self).mdns_checked == old(self).mdns_checked,
            final(self).frozen_width is None,
            final(self)@.last_body_lines == old(self)@.last_body_lines,
            final(self)@.running == old(self)@.running,
    {
        self.frozen_width = None;
        self.target = None;
        self.showing = false;
        self.stage = DialogStage::Setup;
    }

    pub fn is_open(&self) -> (r: bool)
        ensures
            r == self.showing,
    {
        self.showing
    }

    pub fn is_scanning(&self) -> (r: bool)
        ensures
            r == (self.stage == DialogStage::Scanning),
    {
        match self.stage {
            DialogStage::Scanning => true,
            _ => false,
        }
    }

    /// Whether typed keys go to the custom ports field: on the setup screen
    /// with its row focused.
    pub fn is_custom_ports_focused(&self) -> (r: bool)
        ensures
            r == (self.focus == self.custom_row() && self.stage == DialogStage::Setup),
    {
        self.focus == self.ranges_checked.len() && match self.stage {
            DialogStage::Setup => true,
            _ => false,
        }
    }

    /// Up: the previous setup row (stopping at the first), or the previous
    /// result row (stopping at the first); nothing while scanning.
    pub fn navigate_up(&mut self)
        requires
            old(self).wf(),
        ensures
            final(self).wf(),
            final(self)@ == after_up(old(self)@),
            final(self).focus == if old(self).stage == DialogStage::Setup && old(self).focus > 0 {
                (old(self).focus - 1) as usize
            } else {
                old(self).focus
            },
            final(self).results_selected == if old(self).stage == DialogStage::Results
                && old(self).results_selected > 0 {
                (old(self).results_selected - 1) as usize
            } else {
                old(self).results_selected
            },
            final(self).stage == old(self).stage,
            final(self).showing == old(self).showing,
            final(self).ranges_checked@ == old(self).ranges_checked@,
            final(self).custom_checked == old(self).custom_checked,
            final(self).mdns_checked == old(self).mdns_checked,
    {
        match self.stage {
            DialogStage::Setup => self.focus = self.focus.saturating_sub(1),
            DialogStage::Scanning => {},
            DialogStage::Results => self.results_selected = self.results_selected.saturating_sub(1),
        }
    }

    /// Down: the next setup row (stopping at the start button), or the next
    /// result row (the list clamps it when drawn); nothing while scanning.
    pub fn navigate_down(&mut self)
        requires
            old(self).wf(),
        ensures
            final(self).wf(),
            final(self)@ == after_down(old(self)@),
            final(self).focus == if old(self).stage == DialogStage::Setup && old(self).focus + 1
                < old(self).row_count() {
                (old(self).focus + 1) as usize
            } else {
                old(self).focus
            },
            final(self).results_selected == if old(self).stage == DialogStage::Results
                && old(self).results_selected < usize::MAX {
                (old(self).results_selected + 1) as usize
            } else {
                old(self).results_selected
            },
            final(self).stage == old(self).stage,
            final(self).showing == old(self).showing,
            final(self).ranges_checked@ == old(self).ranges_checked@,
            final(self).custom_checked == old(self).custom_checked,
            final(self).mdns_checked == old(self).mdns_checked,
    {
        match self.stage {
            DialogStage::Setup => {
                let last = self.ranges_checked.len() + 2;
                if self.focus < last {
                    self.focus = self.focus + 1;
                }
            },
            DialogStage::Scanning => {},
            DialogStage::Results => self.results_selected = self.results_selected.saturating_add(1),
        }
    }

    /// The interior width to draw with: the one fixed since the dialog
    /// opened, or, at the first drawing, the widest of the footers, the title
    /// and the longest mDNS line (at least 46), which is then kept until the
    /// dialog closes or opens again.
    pub fn freeze_interior_width(&mut self, widest_footer: u16, title_width: u16, widest_mdns_line: u16) -> (r: u16)
        requires
            old(self).wf(),
        ensures
            final(self).wf(),
            r == match old(self).frozen_width {
                Some(w) => w,
                None => interior_width_of(widest_footer, title_width, widest_mdns_line),
            },
            final(self)@ == (DialogView { frozen_width: Some(r), ..old(self)@ }),
    {
        match self.frozen_width {
            Some(w) => w,
            None => {
                let w = frozen_interior_width(widest_footer, title_width, widest_mdns_line);
                self.frozen_width = Some(w);
                w
            },
        }
    }

    /// Takes the worker count and connect timeout of the current
    /// configuration into the open dialog's target; a closed dialog stays as
    /// it is. A running scan keeps the settings it started with.
    pub fn refresh_live_settings(&mut self, worker_count: u16, connect_timeout_ms: u64)
        requires
            old(self).wf(),
        ensures
            final(self).wf(),
            final(self)@ == (DialogView {
                target: match old(self).target {
                    Some(_) => Some(ScanTarget { worker_count, connect_timeout_ms }),
                    None => None,
                },
                ..old(self)@
            }),
    {
        if self.target.is_some() {
            self.target = Some(ScanTarget { worker_count, connect_timeout_ms });
        }
    }

    /// Records the body height of the drawing just made for the dialog's
    /// stage: the setup screen's fixed height, the height a running scan
    /// keeps, or, on the results screen, the header, a blank line, the
    /// `results_content_lines` drawn and the footer after a blank line.
    pub fn record_body_lines(&mut self, results_content_lines: u16)
        requires
            old(self).wf(),
            results_content_lines + 6 <= u16::MAX,
        ensures
            final(self).wf(),
            final(self)@ == (DialogView {
                last_body_lines: drawn_body_lines(old(self)@, results_content_lines),
                ..old(self)@
            }),
    {
        self.last_body_lines = match self.stage {
            DialogStage::Setup => setup_body_line_count(self.ranges_checked.len() as u16),
            DialogStage::Scanning => self.running.body_height,
            DialogStage::Results => SETTINGS_HEADER_HEIGHT + 1 + results_content_lines + 2,
        };
    }

    /// Whether a scan may start now (see `may_start`).
    pub fn can_start(&self, selected_ports: Option<usize>) -> (r: bool)
        ensures
            r == may_start(selected_ports, self.mdns_checked),
    {
        match selected_ports {
            Some(n) => n > 0 || self.mdns_checked,
            None => false,
        }
    }

    /// Starts a scan of the selection when the dialog is open and a scan may
    /// start; returns whether it started.
    pub fn start_scan(&mut self, selected_ports: Option<usize>) -> (started: bool)
        requires
            old(self).wf(),
        ensures
            final(self).wf(),
            started == (old(self).showing && may_start(selected_ports, old(self).mdns_checked)),
            started ==> final(self)@ == (DialogView {
                stage: DialogStage::Scanning,
                results_selected: 0,
                running: fresh_run(
                    selection_count(selected_ports),
                    old(self).mdns_checked,
                    old(self).last_body_lines,
                    old(self).target.unwrap(),
                ),
                ..old(self)@
            }),
            !started ==> final(self)@ == old(self)@,
            started ==> final(self).stage == DialogStage::Scanning && final(self).results_selected == 0,
            !started ==> final(self).stage == old(self).stage && final(self).results_selected
                == old(self).results_selected,
            final(self).focus == old(self).focus,
            final(self).showing == old(self).showing,
            final(self).ranges_checked@ == old(self).ranges_checked@,
            final(self).custom_checked == old(self).custom_checked,
            final(self).mdns_checked == old(self).mdns_checked,
    {
        if !self.showing || !self.can_start(selected_ports) {
            return false;
        }
        let target = match self.target {
            Some(t) => t,
            None => return false,
        };
        let port_count = match selected_ports {
            Some(n) => n,
            None => 0,
        };
        self.running = RunningScan::start(port_count, self.mdns_checked, self.last_body_lines, target);
        self.results_selected = 0;
        self.stage = DialogStage::Scanning;
        true
    }

    /// Ends a running scan, finished or cancelled: its results are shown with
    /// the first row selected. Returns whether a scan was running.
    pub fn finish_scan(&mut self) -> (finished: bool)
        requires
            old(self).wf(),
        ensures
            final(self).wf(),
            finished == (old(self).stage == DialogStage::Scanning),
            finished ==> final(self)@ == (DialogView {
                stage: DialogStage::Results,
                results_selected: 0,
                ..old(self)@
            }),
            !finished ==> final(self)@ == old(self)@,
            finished ==> final(self).stage == DialogStage::Results && final(self).results_selected == 0,
            !finished ==> final(self).stage == old(self).stage && final(self).results_selected
                == old(self).results_selected,
            final(self).focus == old(self).focus,
            final(self).showing == old(self).showing,
            final(self).ranges_checked@ == old(self).ranges_checked@,
            final(self).custom_checked == old(self).custom_checked,
            final(self).mdns_checked == old(self).mdns_checked,
    {
        match self.stage {
            DialogStage::Scanning => {
                self.stage = DialogStage::Results;
                self.results_selected = 0;
                true
            },
            _ => false,
        }
    }

    /// Re-runs a finished scan on the results screen; returns whether it started.
    pub fn rescan(&mut self, selected_ports: Option<usize>) -> (started: bool)
        requires
            old(self).wf(),
        ensures
            final(self).wf(),
            started == (old(self).stage == DialogStage::Results && old(self).showing && may_start(
                selected_ports,
                old(self).mdns_checked,
            )),
            started ==> final(self)@ == (DialogView {
                stage: DialogStage::Scanning,
                results_selected: 0,
                running: fresh_run(
                    selection_count(selected_ports),
                    old(self).mdns_checked,
                    old(self).last_body_lines,
                    old(self).target.unwrap(),
                ),
                ..old(self)@
            }),
            !started ==> final(self)@ == old(self)@,
            started ==> final(self).stage == DialogStage::Scanning && final(self).results_selected == 0,
            !started ==> final(self).stage == old(self).stage && final(self).results_selected
                == old(self).results_selected,
            final(self).focus == old(self).focus,
            final(self).showing == old(self).showing,
            final(self).ranges_checked@ == old(self).ranges_checked@,
            final(self).custom_checked == old(self).custom_checked,
            final(self).mdns_checked == old(self).mdns_checked,
    {
        match self.stage {
            DialogStage::Results => self.start_scan(selected_ports),
            _ => false,
        }
    }

    /// Enter. On the setup screen: a category, custom or mDNS row toggles its
    /// box; the start button starts a scan where one may start. On the results
    /// screen: back to setup. Nothing while scanning.
    pub fn select(&mut self, selected_ports: Option<usize>) -> (effect: SelectEffect)
        requires
            old(self).wf(),
        ensures
            final(self).wf(),
            (final(self)@, effect) == after_select(old(self)@, selected_ports),
            final(self).focus == old(self).focus,
            final(self).showing == old(self).showing,
            old(self).stage == DialogStage::Scanning ==> effect == SelectEffect::Nothing && *final(self)
                == *old(self),
            old(self).stage == DialogStage::Results ==> effect == SelectEffect::Nothing
                && final(self).stage == DialogStage::Setup && final(self).ranges_checked@ == old(
                self,
            ).ranges_checked@ && final(self).custom_checked == old(self).custom_checked
                && final(self).mdns_checked == old(self).mdns_checked && final(self).results_selected
                == old(self).results_selected,
            old(self).stage == DialogStage::Setup && old(self).focus < old(self).custom_row() ==> {
                &&& effect == SelectEffect::SelectionChanged
                &&& final(self).ranges_checked@ == old(self).ranges_checked@.update(
                    old(self).focus as int,
                    !old(self).ranges_checked@[old(self).focus as int],
                )
                &&& final(self).custom_checked == old(self).custom_checked
                &&& final(self).mdns_checked == old(self).mdns_checked
                &&& final(self).stage == DialogStage::Setup
                &&& final(self).results_selected == old(self).results_selected
            },
            old(self).stage == DialogStage::Setup && old(self).focus == old(self).custom_row() ==> {
                &&& effect == SelectEffect::SelectionChanged
                &&& final(self).ranges_checked@ == old(self).ranges_checked@
                &&& final(self).custom_checked == !old(self).custom_checked
                &&& final(self).mdns_checked == old(self).mdns_checked
                &&& final(self).stage == DialogStage::Setup
                &&& final(self).results_selected == old(self).results_selected
            },
            old(self).stage == DialogStage::Setup && old(self).focus == old(self).mdns_row() ==> {
                &&& effect == SelectEffect::Nothing
                &&& final(self).ranges_checked@ == old(self).ranges_checked@
                &&& final(self).custom_checked == old(self).custom_checked
                &&& final(self).mdns_checked == !old(self).mdns_checked
                &&& final(self).stage == DialogStage::Setup
                &&& final(self).results_selected == old(self).results_selected
            },
            old(self).stage == DialogStage::Setup && old(self).focus > old(self).mdns_row() ==> {
                let started = old(self).showing && may_start(selected_ports, old(self).mdns_checked);
                &&& effect == if started {
                    SelectEffect::ScanStarted
                } else {
                    SelectEffect::Nothing
                }
                &&& final(self).ranges_checked@ == old(self).ranges_checked@
                &&& final(self).custom_checked == old(self).custom_checked
                &&& final(self).mdns_checked == old(self).mdns_checked
                &&& final(self).stage == if started {
                    DialogStage::Scanning
                } else {
                    DialogStage::Setup
                }
                &&& final(self).results_selected == if started {
                    0
                } else {
                    old(self).results_selected
                }
            },
    {
        match self.stage {
            DialogStage::Setup => {
                let n = self.ranges_checked.len();
                if self.focus < n {
                    let f = self.focus;
                    let was = self.ranges_checked[f];
                    self.ranges_checked.set(f, !was);
                    SelectEffect::SelectionChanged
                } else if self.focus == n {
                    self.custom_checked = !self.custom_checked;
                    SelectEffect::SelectionChanged
                } else if self.focus == n + 1 {
                    self.mdns_checked = !self.mdns_checked;
                    SelectEffect::Nothing
                } else if self.start_scan(selected_ports) {
                    SelectEffect::ScanStarted
                } else {
                    SelectEffect::Nothing
                }
            },
            DialogStage::Scanning => SelectEffect::Nothing,
            DialogStage::Results => {
                self.stage = DialogStage::Setup;
                SelectEffect::Nothing
            },
        }
    }
}

/// Port `p` lies in one of the first `k` category ranges (first and last
/// port, inclusive) whose box is checked.
pub open spec fn in_checked_ranges(ranges: Seq<(u16, u16)>, checked: Seq<bool>, k: int, p: int) -> bool
    decreases k,
{
    if k <= 0 {
        false
    } else {
        in_checked_ranges(ranges, checked, k - 1, p) || (checked[k - 1] && ranges[k - 1].0 <= p
            <= ranges[k - 1].1)
    }
}

/// Port `p` is selected: in a checked category range or in the custom list.
pub open spec fn port_selected(ranges: Seq<(u16, u16)>, checked: Seq<bool>, custom: Seq<u16>, p: int) -> bool {
    in_checked_ranges(ranges, checked, ranges.len() as int, p) || custom.contains(p as u16)
}

/// Ports in strictly ascending order: sorted, each once.
pub open spec fn strictly_ascending(s: Seq<u16>) -> bool {
    forall|i: int, j: int| 0 <= i < j < s.len() ==> s[i] < s[j]
}

/// The ports a scan covers: the union of the checked category ranges and
/// the custom ports (empty unless the custom box is checked and its text
/// parsed), sorted and each once.
pub fn compute_selected_ports(ranges: &Vec<(u16, u16)>, checked: &Vec<bool>, custom: &Vec<u16>) -> (r: Vec<u16>)
    requires
        ranges@.len() == checked@.len(),
    ensures
        strictly_ascending(r@),
        forall|p: u16| r@.contains(p) <==> port_selected(ranges@, checked@, custom@, p as int),
{
    let mut marks: Vec<bool> = Vec::new();
    let mut i: usize = 0;
    while i < 65536
        invariant
            i <= 65536,
            marks@.len() == i,
            forall|p: int| 0 <= p < i ==> !marks@[p],
        decreases 65536 - i,
    {
        marks.push(false);
        i = i + 1;
    }
    let mut k: usize = 0;
    while k < ranges.len()
        invariant
            k <= ranges@.len(),
            ranges@.len() == checked@.len(),
            marks@.len() == 65536,
            forall|p: int| 0 <= p < 65536 ==> marks@[p] == in_checked_ranges(ranges@, checked@, k as int, p),
        decreases ranges@.len() - k,
    {
        if checked[k] && ranges[k].0 <= ranges[k].1 {
            let lo = ranges[k].0;
            let hi = ranges[k].1;
            let mut q: u32 = lo as u32;
            while q <= hi as u32
                invariant
                    k < ranges@.len(),
                    ranges@.len() == checked@.len(),
                    checked@[k as int],
                    lo == ranges@[k as int].0,
                    hi == ranges@[k as int].1,
                    lo <= q <= hi as u32 + 1,
                    marks@.len() == 65536,
                    forall|p: int|
                        0 <= p < 65536 ==> marks@[p] == (in_checked_ranges(ranges@, checked@, k as int, p)
                            || (lo <= p < q)),
                decreases hi as u32 + 1 - q,
            {
                marks.set(q as usize, true);
                q = q + 1;
            }
        }
        k = k + 1;
    }
    let mut j: usize = 0;
    while j < custom.len()
        invariant
            j <= custom@.len(),
            marks@.len() == 65536,
            forall|p: int|
                0 <= p < 65536 ==> marks@[p] == (in_checked_ranges(ranges@, checked@, ranges@.len() as int, p)
                    || custom@.take(j as int).contains(p as u16)),
        decreases custom@.len() - j,
    {
        let c = custom[j];
        marks.set(c as usize, true);
        proof {
            assert forall|p: int| 0 <= p < 65536 implies marks@[p] == (in_checked_ranges(
                ranges@,
                checked@,
                ranges@.len() as int,
                p,
            ) || custom@.take(j + 1).contains(p as u16)) by {
                let t = custom@.take(j + 1);
                assert(t =~= custom@.take(j as int).push(c));
                if custom@.take(j as int).contains(p as u16) {
                    let w = choose|w: int| 0 <= w < j && custom@.take(j as int)[w] == p as u16;
                    assert(t[w] == p as u16);
                }
                if t.contains(p as u16) && p != c as int {
                    let w = choose|w: int| 0 <= w < t.len() && t[w] == p as u16;
                    assert(w < j);
                    assert(custom@.take(j as int)[w] == p as u16);
                }
                if p == c as int {
                    assert(t[j as int] == c);
                }
            }
        }
        j = j + 1;
    }
    assert(custom@.take(custom@.len() as int) =~= custom@);
    let mut r: Vec<u16> = Vec::new();
    let mut p: u32 = 0;
    while p < 65536
        invariant
            p <= 65536,
            marks@.len() == 65536,
            strictly_ascending(r@),
            forall|w: int| 0 <= w < r@.len() ==> r@[w] < p,
            forall|x: int| 0 <= x < 65536 ==> (marks@[x] == port_selected(ranges@, checked@, custom@, x)),
            forall|x: u16| (x as int) < p ==> (r@.contains(x) <==> marks@[x as int]),
        decreases 65536 - p,
    {
        if marks[p as usize] {
            let ghost before = r@;
            r.push(p as u16);
            proof {
                assert forall|x: u16| (x as int) < p + 1 implies (r@.contains(x) <==> marks@[x as int]) by {
                    if x as int == p as int {
                        assert(r@[r@.len() - 1] == x);
                    } else {
                        if r@.contains(x) {
                            let w = choose|w: int| 0 <= w < r@.len() && r@[w] == x;
                            if w < before.len() {
                                assert(before[w] == x);
                            }
                        }
                        if before.contains(x) {
                            let w = choose|w: int| 0 <= w < before.len() && before[w] == x;
                            assert(r@[w] == x);
                        }
                    }
                }
            }
        } else {
            proof {
                assert forall|x: u16| (x as int) < p + 1 implies (r@.contains(x) <==> marks@[x as int]) by {
                    if x as int == p as int && r@.contains(x) {
                        let w = choose|w: int| 0 <= w < r@.len() && r@[w] == x;
                        assert(r@[w] < p);
                    }
                }
            }
        }
        p = p + 1;
    }
    r
}

/// The custom text counts: its box is checked and it holds more than white space.
pub open spec fn custom_counts(custom_checked: bool, custom_text: Seq<char>) -> bool {
    custom_checked && crate::table_pane::trimmed(custom_text).len() > 0
}

/// The selection of the setup screen. Where the custom text counts (see
/// `custom_counts`), `custom_parsed` is what parsing it as a port list gave:
/// its error is the selection's error, or its ports join the checked ranges.
/// Otherwise the checked ranges alone are selected; an empty custom field
/// adds nothing even with its box checked.
pub fn selected_ports(
    ranges: &Vec<(u16, u16)>,
    checked: &Vec<bool>,
    custom_checked: bool,
    custom_text: &str,
    custom_parsed: Result<Vec<u16>, String>,
) -> (r: Result<Vec<u16>, String>)
    requires
        ranges@.len() == checked@.len(),
    ensures
        custom_counts(custom_checked, custom_text@) && custom_parsed is Err ==> r == custom_parsed,
        custom_counts(custom_checked, custom_text@) && custom_parsed is Ok ==> (r matches Ok(v)
            && strictly_ascending(v@) && forall|p: u16|
            v@.contains(p) <==> port_selected(ranges@, checked@, custom_parsed->Ok_0@, p as int)),
        !custom_counts(custom_checked, custom_text@) ==> (r matches Ok(v) && strictly_ascending(v@)
            && forall|p: u16| v@.contains(p) <==> port_selected(ranges@, checked@, Seq::empty(), p as int)),
{
    let counts = if custom_checked {
        let t = crate::table_pane::trim_range(custom_text, 0, custom_text.unicode_len());
        assert(custom_text@.subrange(0, custom_text@.len() as int) =~= custom_text@);
        t.unicode_len() > 0
    } else {
        false
    };
    if counts {
        match custom_parsed {
            Err(e) => Err(e),
            Ok(custom) => Ok(compute_selected_ports(ranges, checked, &custom)),
        }
    } else {
        let none: Vec<u16> = Vec::new();
        let r = compute_selected_ports(ranges, checked, &none);
        assert(none@ =~= Seq::<u16>::empty());
        Ok(r)
    }
}

/// Lines of the settings header: scanned ranges, metrics and status.
pub const SETTINGS_HEADER_HEIGHT: u16 = 3;
/// Lines around the scanning screen's own content: the header, two blank
/// separators and the footer.
pub const SCANNING_BODY_FRAME_LINE_COUNT: u16 = 6;
/// Content lines above the scanning list: the ticker, the progress bar and a
/// blank separator.
pub const SCANNING_LIST_TOP_LINE_COUNT: u16 = 3;
/// The most open-port rows shown before the results list scrolls.
pub const MAX_VISIBLE_RESULT_ROWS: usize = 8;
/// Every results body line but the port rows and the mDNS line.
pub const RESULTS_NON_LIST_BODY_LINES: u16 = 10;
/// First content row below the header and its blank separator.
pub const CONTENT_TOP: u16 = 4;
/// Lines of the results content above the port rows: ticker, progress bar,
/// open count and a blank separator.
pub const RESULTS_FIXED_LINE_COUNT: u16 = 4;
/// Rows around the body: a blank row above and below, and the two borders.
pub const FRAME_HEIGHT: u16 = 4;
/// Columns around the body: one padding column each side, and the borders.
pub const FRAME_WIDTH: u16 = 4;
/// The narrowest interior, wide enough for every setup row and footer.
pub const MIN_INTERIOR_WIDTH: u16 = 46;

/// The setup screen's body lines: the header, a blank separator, one row per
/// port category, and the custom and mDNS rows each after a blank line, a
/// blank line and the start button.
pub fn setup_body_line_count(categories: u16) -> (r: u16)
    requires
        categories + 9 <= u16::MAX,
    ensures
        r == SETTINGS_HEADER_HEIGHT + 1 + categories + 5,
{
    SETTINGS_HEADER_HEIGHT + 1 + categories + 5
}

/// The blank content lines of the scanning screen, which keeps the body
/// height it started with.
pub fn scanning_content_line_count(body_height: u16) -> (r: u16)
    ensures
        r == if body_height > SCANNING_BODY_FRAME_LINE_COUNT {
            body_height - SCANNING_BODY_FRAME_LINE_COUNT
        } else {
            0
        },
{
    body_height.saturating_sub(SCANNING_BODY_FRAME_LINE_COUNT)
}

/// The open ports the scanning list shows: as many as were found, at most
/// the content lines below the ticker and the progress bar.
pub fn scanning_list_rows(body_height: u16, open_ports: usize) -> (r: usize)
    ensures
        ({
            let content = if body_height > SCANNING_BODY_FRAME_LINE_COUNT {
                body_height - SCANNING_BODY_FRAME_LINE_COUNT
            } else {
                0
            };
            let max_rows = if content > SCANNING_LIST_TOP_LINE_COUNT {
                content - SCANNING_LIST_TOP_LINE_COUNT
            } else {
                0
            };
            r == if open_ports < max_rows {
                open_ports as int
            } else {
                max_rows
            }
        }),
{
    let content = scanning_content_line_count(body_height);
    let max_rows = content.saturating_sub(SCANNING_LIST_TOP_LINE_COUNT) as usize;
    if open_ports < max_rows {
        open_ports
    } else {
        max_rows
    }
}

/// The open-port rows the results show at once: at most 8, fewer where the
/// dialog would not fit a frame `frame_height` rows high, and at least 1.
pub fn results_visible_rows(mdns_shown: bool, frame_height: u16) -> (r: usize)
    ensures
        ({
            let chrome = RESULTS_NON_LIST_BODY_LINES + (if mdns_shown {
                1int
            } else {
                0int
            }) + FRAME_HEIGHT - 1;
            let available = if frame_height > chrome {
                frame_height - chrome
            } else {
                0
            };
            r == if available < 1 {
                1
            } else if available < MAX_VISIBLE_RESULT_ROWS {
                available
            } else {
                MAX_VISIBLE_RESULT_ROWS as int
            }
        }),
{
    let chrome: u16 = RESULTS_NON_LIST_BODY_LINES + if mdns_shown {
        1
    } else {
        0
    } + (FRAME_HEIGHT - 1);
    let available = frame_height.saturating_sub(chrome) as usize;
    let rows = if available < MAX_VISIBLE_RESULT_ROWS {
        available
    } else {
        MAX_VISIBLE_RESULT_ROWS
    };
    if rows < 1 {
        1
    } else {
        rows
    }
}

/// The interior row where the results' port rows start: below the header,
/// the fixed lines and the mDNS line where there is one.
pub fn results_list_top(mdns_shown: bool) -> (r: u16)
    ensures
        r == CONTENT_TOP + RESULTS_FIXED_LINE_COUNT + if mdns_shown {
            1int
        } else {
            0int
        },
{
    CONTENT_TOP + RESULTS_FIXED_LINE_COUNT + if mdns_shown {
        1
    } else {
        0
    }
}

/// The rows the results list takes: its length, at least 1 and at most
/// `max_rows`.
pub fn results_list_height(content_len: usize, max_rows: usize) -> (r: usize)
    requires
        max_rows >= 1,
    ensures
        r == if content_len < 1 {
            1
        } else if content_len > max_rows {
            max_rows as int
        } else {
            content_len as int
        },
{
    if content_len < 1 {
        1
    } else if content_len > max_rows {
        max_rows
    } else {
        content_len
    }
}

/// The results content lines drawn under the grouped ports: ticker, progress
/// bar, open count, the mDNS line where there is one, a blank separator and
/// the rows of the list.
pub fn results_placeholder_line_count(mdns_shown: bool, content_len: usize, max_rows: usize) -> (r: usize)
    requires
        1 <= max_rows <= MAX_VISIBLE_RESULT_ROWS,
    ensures
        r == 3 + (if mdns_shown {
            1int
        } else {
            0int
        }) + 1 + (if content_len < 1 {
            1
        } else if content_len > max_rows {
            max_rows as int
        } else {
            content_len as int
        }),
{
    let rows = results_list_height(content_len, max_rows);
    3 + if mdns_shown {
        1
    } else {
        0
    } + 1 + rows
}

/// The widest of the three widths and 46.
pub open spec fn interior_width_of(widest_footer: u16, title_width: u16, widest_mdns_line: u16) -> u16 {
    let a = if title_width > widest_footer {
        title_width
    } else {
        widest_footer
    };
    let b = if widest_mdns_line > a {
        widest_mdns_line
    } else {
        a
    };
    if MIN_INTERIOR_WIDTH > b {
        MIN_INTERIOR_WIDTH
    } else {
        b
    }
}

/// The interior width, fixed when the dialog opens: the widest of the
/// footers, the title and the longest mDNS result line, and at least 46.
pub fn frozen_interior_width(widest_footer: u16, title_width: u16, widest_mdns_line: u16) -> (r: u16)
    ensures
        r == interior_width_of(widest_footer, title_width, widest_mdns_line),
        r >= widest_footer,
        r >= title_width,
        r >= widest_mdns_line,
        r >= MIN_INTERIOR_WIDTH,
        r == widest_footer || r == title_width || r == widest_mdns_line || r == MIN_INTERIOR_WIDTH,
{
    let mut w = widest_footer;
    if title_width > w {
        w = title_width;
    }
    if widest_mdns_line > w {
        w = widest_mdns_line;
    }
    if MIN_INTERIOR_WIDTH > w {
        w = MIN_INTERIOR_WIDTH;
    }
    w
}

/// The dialog's outer size: the interior and body with the frame around
/// them, cut to the frame of the screen.
pub fn dialog_size(interior_width: u16, body_lines: u16, frame_width: u16, frame_height: u16) -> (r: (
    u16,
    u16,
))
    requires
        interior_width + FRAME_WIDTH <= u16::MAX,
        body_lines + FRAME_HEIGHT <= u16::MAX,
    ensures
        r.0 == if interior_width + FRAME_WIDTH < frame_width {
            interior_width + FRAME_WIDTH
        } else {
            frame_width as int
        },
        r.1 == if body_lines + FRAME_HEIGHT < frame_height {
            body_lines + FRAME_HEIGHT
        } else {
            frame_height as int
        },
{
    let w = interior_width + FRAME_WIDTH;
    let h = body_lines + FRAME_HEIGHT;
    (if w < frame_width {
        w
    } else {
        frame_width
    }, if h < frame_height {
        h
    } else {
        frame_height
    })
}

/// `n` spaces.
pub open spec fn spaces(n: nat) -> Seq<char> {
    Seq::new(n, |i: int| ' ')
}

/// A text padded with spaces on the right to `w` characters, as `{:<w$}`.
pub open spec fn padded(t: Seq<char>, w: nat) -> Seq<char> {
    if t.len() >= w {
        t
    } else {
        t + spaces((w - t.len()) as nat)
    }
}

/// Appends `t` padded to `w` characters (see `padded`).
fn push_padded(s: &mut String, t: &str, w: usize)
    ensures
        final(s)@ == old(s)@ + padded(t@, w as nat),
{
    push_str(s, t);
    let n = t.unicode_len();
    let ghost start = old(s)@ + t@;
    let mut k: usize = n;
    while k < w
        invariant
            n == t@.len(),
            n <= k <= w || (k == n && n >= w),
            s@ == start + spaces((k - n) as nat),
        decreases w - k,
    {
        s.push(' ');
        assert(spaces((k + 1 - n) as nat) =~= spaces((k - n) as nat).push(' '));
        k = k + 1;
    }
    if n >= w {
        assert(spaces(0) =~= Seq::<char>::empty());
        assert(s@ =~= old(s)@ + padded(t@, w as nat));
    } else {
        assert(s@ =~= old(s)@ + padded(t@, w as nat));
    }
}

/// The text after the open-port count: ` open port`, plural unless there is
/// exactly one, then the filtered count in brackets where ports were filtered.
pub open spec fn open_summary_text(open: nat, filtered: nat) -> Seq<char> {
    " open port"@ + (if open == 1 {
        ""@
    } else {
        "s"@
    }) + (if filtered > 0 {
        " ("@ + dec(filtered) + " filtered)"@
    } else {
        ""@
    })
}

/// The text after the open-port count (see `open_summary_text`).
pub fn open_summary(open: u64, filtered: u64) -> (r: String)
    ensures
        r@ == open_summary_text(open as nat, filtered as nat),
{
    let mut s = String::new();
    push_str(&mut s, " open port");
    let ghost a = s@;
    if open == 1 {
        push_str(&mut s, "");
    } else {
        push_str(&mut s, "s");
    }
    let ghost b = s@;
    if filtered > 0 {
        push_str(&mut s, " (");
        push_decimal(&mut s, filtered);
        push_str(&mut s, " filtered)");
    } else {
        push_str(&mut s, "");
    }
    assert(s@ =~= open_summary_text(open as nat, filtered as nat));
    s
}

/// The most decimal digits among the first `k` ports.
pub open spec fn max_digits(ports: Seq<u16>, k: int) -> nat
    decreases k,
{
    if k <= 0 {
        0
    } else {
        let rest = max_digits(ports, k - 1);
        let d = dec(ports[k - 1] as nat).len();
        if d > rest {
            d
        } else {
            rest
        }
    }
}

/// The longest of the first `k` labels, in bytes.
pub open spec fn max_label_bytes(labels: Seq<String>, k: int) -> nat
    decreases k,
{
    if k <= 0 {
        0
    } else {
        let rest = max_label_bytes(labels, k - 1);
        let d = byte_len(labels[k - 1]@);
        if d > rest {
            d
        } else {
            rest
        }
    }
}

/// Row `i` of the two-column port list: a port of the left column, padded to
/// the widest port, and its label, padded to the widest left label; then the
/// port of the right column on that row and its label, where there is one.
pub open spec fn two_column_row(ports: Seq<u16>, labels: Seq<String>, i: int) -> Seq<char> {
    let left = (ports.len() + 1) / 2;
    let pw = if ports.len() == 0 {
        1
    } else {
        max_digits(ports, ports.len() as int)
    };
    let lw = max_label_bytes(labels, left as int);
    let first = "  "@ + padded(dec(ports[i] as nat), pw) + "  "@ + padded(labels[i]@, lw);
    if i + left < ports.len() {
        first + "  "@ + padded(dec(ports[i + left] as nat), pw) + "  "@ + labels[i + left]@
    } else {
        first
    }
}

/// Lays the ports out down two columns, the left one filled first (it has the
/// odd port), each with the service label at the same position.
pub fn two_column_port_rows(ports: &Vec<u16>, labels: &Vec<String>) -> (r: Vec<String>)
    requires
        labels@.len() == ports@.len(),
        forall|i: int| 0 <= i < labels@.len() ==> byte_len((#[trigger] labels@[i])@) <= usize::MAX,
    ensures
        r@.len() == (ports@.len() + 1) / 2,
        forall|i: int| 0 <= i < r@.len() ==> (#[trigger] r@[i])@ == two_column_row(ports@, labels@, i),
{
    let n = ports.len();
    let left = n / 2 + n % 2;
    assert(left == (n + 1) / 2);
    let mut pw: usize = 0;
    let mut k: usize = 0;
    while k < n
        invariant
            k <= n,
            n == ports@.len(),
            pw == max_digits(ports@, k as int),
            pw <= 5,
        decreases n - k,
    {
        let d = decimal_string(ports[k] as u64).unicode_len();
        proof {
            lemma_dec_len_u16(ports@[k as int]);
        }
        if d > pw {
            pw = d;
        }
        k = k + 1;
    }
    if n == 0 {
        pw = 1;
    }
    let mut lw: usize = 0;
    let mut k: usize = 0;
    while k < left
        invariant
            k <= left,
            left <= n,
            n == ports@.len(),
            labels@.len() == n,
            forall|i: int| 0 <= i < labels@.len() ==> byte_len((#[trigger] labels@[i])@) <= usize::MAX,
            lw == max_label_bytes(labels@, k as int),
        decreases left - k,
    {
        let b = labels[k].as_str().len();
        assert(b == byte_len(labels@[k as int]@));
        if b > lw {
            lw = b;
        }
        k = k + 1;
    }
    let mut r: Vec<String> = Vec::new();
    let mut row: usize = 0;
    while row < left
        invariant
            row <= left,
            left == (n + 1) / 2,
            n == ports@.len(),
            labels@.len() == n,
            pw == if n == 0 {
                1
            } else {
                max_digits(ports@, n as int)
            },
            lw == max_label_bytes(labels@, left as int),
            r@.len() == row,
            forall|i: int| 0 <= i < row ==> (#[trigger] r@[i])@ == two_column_row(ports@, labels@, i),
        decreases left - row,
    {
        let mut line = String::new();
        push_str(&mut line, "  ");
        let port_text = decimal_string(ports[row] as u64);
        push_padded(&mut line, port_text.as_str(), pw);
        push_str(&mut line, "  ");
        push_padded(&mut line, labels[row].as_str(), lw);
        if row + left < n {
            push_str(&mut line, "  ");
            let right_text = decimal_string(ports[row + left] as u64);
            push_padded(&mut line, right_text.as_str(), pw);
            push_str(&mut line, "  ");
            push_str(&mut line, labels[row + left].as_str());
        }
        assert(line@ =~= two_column_row(ports@, labels@, row as int));
        r.push(line);
        row = row + 1;
    }
    r
}

proof fn lemma_dec_len_u16(p: u16)
    ensures
        dec(p as nat).len() <= 5,
{
    let n = p as nat;
    if n >= 10 {
        assert(dec(n) == dec(n / 10).push(crate::strings::digit_char(n % 10)));
        let n1 = n / 10;
        if n1 >= 10 {
            assert(dec(n1) == dec(n1 / 10).push(crate::strings::digit_char(n1 % 10)));
            let n2 = n1 / 10;
            if n2 >= 10 {
                assert(dec(n2) == dec(n2 / 10).push(crate::strings::digit_char(n2 % 10)));
                let n3 = n2 / 10;
                if n3 >= 10 {
                    assert(dec(n3) == dec(n3 / 10).push(crate::strings::digit_char(n3 % 10)));
                    let n4 = n3 / 10;
                    assert(n4 < 10);
                    assert(dec(n4).len() == 1);
                }
            }
        }
    }
}

/// What the settings header shows of a scan, as plain values: the port
/// count, the scanned ranges as text, the workers, the connect timeout, how
/// long a scan of only filtered ports would take, and the mDNS probe timeout
/// where the probe is on; each span in seconds and nanoseconds.
#[derive(Debug)]
pub struct HeaderSettings {
    pub port_count: usize,
    pub ranges_text: String,
    pub worker_count: u16,
    pub connect_timeout: (u64, u32),
    pub all_filtered_duration: (u64, u32),
    pub mdns_probe_timeout: Option<(u64, u32)>,
}

/// The spans of the settings are valid durations.
pub open spec fn header_settings_valid(h: HeaderSettings) -> bool {
    &&& h.connect_timeout.1 < 1_000_000_000
    &&& h.all_filtered_duration.1 < 1_000_000_000
    &&& (h.mdns_probe_timeout matches Some(t) ==> t.1 < 1_000_000_000)
}

/// Width of the workers field of the metrics line.
pub const HEADER_WORKERS_FIELD: usize = 13;
/// Width of the timeout field of the metrics line.
pub const HEADER_TIMEOUT_FIELD: usize = 8;

/// The first two header lines. An mDNS-only scan shows `mDNS probe only`
/// and the probe port with its timeout; any other shows the ranges cut to
/// `width` characters, and the workers, the connect timeout and the longest
/// the scan may take (`—` for no ports) in fixed-width fields.
pub open spec fn header_text(h: HeaderSettings, width: nat) -> (Seq<char>, Seq<char>) {
    match h.mdns_probe_timeout {
        Some(t) if h.port_count == 0 => (
            "mDNS probe only"@,
            "5353/udp"@ + "   "@ + "max "@ + duration_text(t.0, t.1),
        ),
        _ => {
            let max = if h.port_count == 0 {
                "—"@
            } else {
                duration_text(h.all_filtered_duration.0, h.all_filtered_duration.1)
            };
            (
                truncated(h.ranges_text@, width),
                padded(dec(h.worker_count as nat) + " workers"@, HEADER_WORKERS_FIELD as nat)
                    + padded(duration_text(h.connect_timeout.0, h.connect_timeout.1), HEADER_TIMEOUT_FIELD as nat)
                    + "max "@ + max,
            )
        },
    }
}

/// The ranges and metrics lines of the settings header (see `header_text`).
pub fn settings_header_texts(h: &HeaderSettings, width: u16) -> (r: (String, String))
    requires
        header_settings_valid(*h),
    ensures
        (r.0@, r.1@) == header_text(*h, width as nat),
{
    match h.mdns_probe_timeout {
        Some(t) => {
            if h.port_count == 0 {
                let mut ranges = String::new();
                push_str(&mut ranges, "mDNS probe only");
                let mut metrics = String::new();
                push_str(&mut metrics, "5353/udp");
                push_str(&mut metrics, "   ");
                push_str(&mut metrics, "max ");
                let d = format_duration(t.0, t.1);
                push_str(&mut metrics, d.as_str());
                assert(ranges@ =~= "mDNS probe only"@);
                assert(metrics@ =~= "5353/udp"@ + "   "@ + "max "@ + duration_text(t.0, t.1));
                return (ranges, metrics);
            }
        },
        None => {},
    }
    let ranges = truncate_with_ellipsis(h.ranges_text.as_str(), width as usize);
    let mut workers = String::new();
    push_decimal(&mut workers, h.worker_count as u64);
    push_str(&mut workers, " workers");
    let timeout = format_duration(h.connect_timeout.0, h.connect_timeout.1);
    let mut metrics = String::new();
    push_padded(&mut metrics, workers.as_str(), HEADER_WORKERS_FIELD);
    push_padded(&mut metrics, timeout.as_str(), HEADER_TIMEOUT_FIELD);
    push_str(&mut metrics, "max ");
    if h.port_count == 0 {
        push_str(&mut metrics, "—");
    } else {
        let d = format_duration(h.all_filtered_duration.0, h.all_filtered_duration.1);
        push_str(&mut metrics, d.as_str());
    }
    assert(workers@ =~= dec(h.worker_count as nat) + " workers"@);
    assert(metrics@ =~= header_text(*h, width as nat).1);
    (ranges, metrics)
}

/// Width of the label column of the setup rows.
pub const LABEL_COLUMN_WIDTH: usize = 17;

/// The start of a setup row: the focus mark, the box, a space and the label
/// padded to the label column.
pub open spec fn checkbox_prefix_text(focused: bool, checked: bool, label: Seq<char>) -> Seq<char> {
    (if focused {
        "▶ "@
    } else {
        "  "@
    }) + (if checked {
        "[*]"@
    } else {
        "[ ]"@
    }) + " "@ + padded(label, LABEL_COLUMN_WIDTH as nat)
}

/// The lines of the setup screen: a row per port category with its range,
/// the custom row with its text (the example `22,80,443,8000-8100` while it
/// is empty), a blank line, the mDNS row, a blank line and the start button.
pub open spec fn setup_lines(d: DialogView, labels: Seq<String>, ranges: Seq<(u16, u16)>, custom: Seq<char>) -> Seq<Seq<char>> {
    let n = d.ranges_checked.len();
    Seq::new(
        n,
        |i: int|
            checkbox_prefix_text(d.focus == i, d.ranges_checked[i], labels[i]@) + dec(ranges[i].0 as nat)
                + "-"@ + dec(ranges[i].1 as nat),
    ) + seq![
        checkbox_prefix_text(d.focus == n, d.custom_checked, "Custom"@) + (if custom.len() == 0 {
            "22,80,443,8000-8100"@
        } else {
            custom
        }),
        Seq::<char>::empty(),
        checkbox_prefix_text(d.focus == n + 1, d.mdns_checked, "probe mDNS"@) + "(5353/udp)"@,
        Seq::<char>::empty(),
        (if d.focus == n + 2 {
            "▶ "@
        } else {
            "  "@
        }) + "[ Start scan ]"@,
    ]
}

fn push_checkbox_prefix(s: &mut String, focused: bool, checked: bool, label: &str)
    ensures
        final(s)@ == old(s)@ + checkbox_prefix_text(focused, checked, label@),
{
    if focused {
        push_str(s, "▶ ");
    } else {
        push_str(s, "  ");
    }
    if checked {
        push_str(s, "[*]");
    } else {
        push_str(s, "[ ]");
    }
    push_str(s, " ");
    push_padded(s, label, LABEL_COLUMN_WIDTH);
    assert(final(s)@ =~= old(s)@ + checkbox_prefix_text(focused, checked, label@));
}

impl PortScanDialog {
    /// The text of the setup screen's lines (see `setup_lines`), given each
    /// category's label and range and the custom field's text.
    pub fn setup_content_lines(&self, labels: &Vec<String>, ranges: &Vec<(u16, u16)>, custom: &str) -> (r: Vec<String>)
        requires
            self.wf(),
            labels@.len() == self.ranges_checked@.len(),
            ranges@.len() == self.ranges_checked@.len(),
        ensures
            r@.map_values(|l: String| l@) == setup_lines(self@, labels@, ranges@, custom@),
    {
        let n = self.ranges_checked.len();
        let ghost d = self@;
        let mut out: Vec<String> = Vec::new();
        let mut i: usize = 0;
        while i < n
            invariant
                i <= n,
                n == self.ranges_checked@.len(),
                d == self@,
                labels@.len() == n,
                ranges@.len() == n,
                out@.map_values(|l: String| l@) == Seq::new(
                    i as nat,
                    |k: int|
                        checkbox_prefix_text(d.focus == k, d.ranges_checked[k], labels@[k]@) + dec(
                            ranges@[k].0 as nat,
                        ) + "-"@ + dec(ranges@[k].1 as nat),
                ),
            decreases n - i,
        {
            let mut line = String::new();
            push_checkbox_prefix(&mut line, self.focus == i, self.ranges_checked[i], labels[i].as_str());
            push_decimal(&mut line, ranges[i].0 as u64);
            push_str(&mut line, "-");
            push_decimal(&mut line, ranges[i].1 as u64);
            assert(line@ =~= checkbox_prefix_text(d.focus == i as int, d.ranges_checked[i as int], labels@[i as int]@)
                + dec(ranges@[i as int].0 as nat) + "-"@ + dec(ranges@[i as int].1 as nat));
            let ghost before = out@;
            out.push(line);
            assert(out@.map_values(|l: String| l@) =~= before.map_values(|l: String| l@).push(out@[i as int]@));
            assert(out@.map_values(|l: String| l@) =~= Seq::new(
                (i + 1) as nat,
                |k: int|
                    checkbox_prefix_text(d.focus == k, d.ranges_checked[k], labels@[k]@) + dec(
                        ranges@[k].0 as nat,
                    ) + "-"@ + dec(ranges@[k].1 as nat),
            ));
            i = i + 1;
        }
        let ghost body = out@.map_values(|l: String| l@);
        let mut custom_line = String::new();
        push_checkbox_prefix(&mut custom_line, self.focus == n, self.custom_checked, "Custom");
        if custom.unicode_len() == 0 {
            push_str(&mut custom_line, "22,80,443,8000-8100");
        } else {
            push_str(&mut custom_line, custom);
        }
        out.push(custom_line);
        out.push(String::new());
        let mut mdns_line = String::new();
        push_checkbox_prefix(&mut mdns_line, self.focus == n + 1, self.mdns_checked, "probe mDNS");
        push_str(&mut mdns_line, "(5353/udp)");
        out.push(mdns_line);
        out.push(String::new());
        let mut start = String::new();
        if self.focus == n + 2 {
            push_str(&mut start, "▶ ");
        } else {
            push_str(&mut start, "  ");
        }
        push_str(&mut start, "[ Start scan ]");
        out.push(start);
        assert(out@.map_values(|l: String| l@) =~= setup_lines(d, labels@, ranges@, custom@));
        out
    }
}

/// The dialog's title: the scanned address, and the host's first name in
/// brackets where it has one.
pub open spec fn scan_title_text(ip: IpAddress, name: Option<Seq<char>>) -> Seq<char> {
    match name {
        Some(n) => "Port scan "@ + ip_text(ip) + " ("@ + n + ")"@,
        None => "Port scan "@ + ip_text(ip),
    }
}

/// The dialog's title (see `scan_title_text`).
pub fn scan_title(ip: IpAddress, name: Option<&str>) -> (r: String)
    ensures
        r@ == scan_title_text(
            ip,
            match name {
                Some(n) => Some(n@),
                None => None,
            },
        ),
{
    let mut s = String::new();
    push_str(&mut s, "Port scan ");
    let ip_str = ip.text();
    push_str(&mut s, ip_str.as_str());
    match name {
        Some(n) => {
            push_str(&mut s, " (");
            push_str(&mut s, n);
            push_str(&mut s, ")");
        },
        None => {},
    }
    s
}

/// The elapsed-time ticker: the span, then `  cancelled` for a stopped scan.
pub fn ticker_text(secs: u64, nanos: u32, cancelled: bool) -> (r: String)
    requires
        nanos < 1_000_000_000,
    ensures
        r@ == duration_text(secs, nanos) + if cancelled {
            "  cancelled"@
        } else {
            Seq::<char>::empty()
        },
{
    let mut s = format_duration(secs, nanos);
    if cancelled {
        push_str(&mut s, "  cancelled");
    } else {
        assert(s@ =~= s@ + Seq::<char>::empty());
    }
    s
}

} // verus!
