//! Scrolling the log pane.
use vstd::prelude::*;
use crate::log::LogLevel;
use crate::strings::{dec, push_decimal, push_str};

verus! {

/// Where the log pane is scrolled to, and whether it holds still on new logs.
#[derive(Debug, Clone, Copy, PartialEq, Eq, Structural)]
pub struct LogScroll {
    pub vertical: usize,
    pub horizontal: usize,
    /// The pane's height in rows, borders included.
    pub frame_height: u16,
    /// While frozen, new logs do not move the view.
    pub frozen: bool,
}

/// The rows of logs the pane shows: its height without the two borders.
pub open spec fn window_lines(height: u16) -> nat {
    if height < 2 {
        0
    } else {
        (height - 2) as nat
    }
}

/// The scroll position that shows the oldest of `log_len` logs on the last line.
pub open spec fn end_of(log_len: nat, lines: nat) -> nat {
    if log_len < lines {
        0
    } else {
        (log_len - lines) as nat
    }
}

/// One row down: at most one past the end position; the view freezes.
pub open spec fn down_one(s: LogScroll, log_len: nat) -> LogScroll {
    let end = end_of(log_len, window_lines(s.frame_height));
    let up = if s.vertical == usize::MAX {
        usize::MAX as nat
    } else {
        (s.vertical + 1) as nat
    };
    LogScroll {
        vertical: (if up < end + 1 {
            up
        } else {
            end + 1
        }) as usize,
        frozen: true,
        ..s
    }
}

/// One row up, stopping at the top; at the top the view follows new logs again.
pub open spec fn up_one(s: LogScroll) -> LogScroll {
    let v = if s.vertical == 0 {
        0usize
    } else {
        (s.vertical - 1) as usize
    };
    LogScroll { vertical: v, frozen: if v == 0 {
        false
    } else {
        s.frozen
    }, ..s }
}

/// `n` rows down.
pub open spec fn down_n(s: LogScroll, log_len: nat, n: nat) -> LogScroll
    decreases n,
{
    if n == 0 {
        s
    } else {
        down_one(down_n(s, log_len, (n - 1) as nat), log_len)
    }
}

/// `n` rows up.
pub open spec fn up_n(s: LogScroll, n: nat) -> LogScroll
    decreases n,
{
    if n == 0 {
        s
    } else {
        up_one(up_n(s, (n - 1) as nat))
    }
}

impl LogScroll {
    /// At the top, following new logs.
    pub fn new() -> (r: Self)
        ensures
            r == (LogScroll { vertical: 0, horizontal: 0, frame_height: 0, frozen: false }),
    {
        LogScroll { vertical: 0, horizontal: 0, frame_height: 0, frozen: false }
    }

    /// Records the pane's height for the current frame.
    pub fn set_frame_height(&mut self, height: u16)
        ensures
            *final(self) == (LogScroll { frame_height: height, ..*old(self) }),
    {
        self.frame_height = height;
    }

    /// The rows of logs the pane shows.
    pub fn lines_in_window(&self) -> (r: u16)
        ensures
            r == window_lines(self.frame_height),
    {
        if self.frame_height < 2 {
            0
        } else {
            self.frame_height - 2
        }
    }

    /// The scroll position that shows the oldest of `log_len` logs on the last line.
    pub fn end_position(&self, log_len: usize) -> (r: usize)
        ensures
            r == end_of(log_len as nat, window_lines(self.frame_height)),
    {
        let lines = self.lines_in_window() as usize;
        if log_len < lines {
            0
        } else {
            log_len - lines
        }
    }

    /// Back to the top and the left; the view follows new logs again.
    pub fn scroll_to_start(&mut self)
        ensures
            *final(self) == (LogScroll { vertical: 0, horizontal: 0, frozen: false, ..*old(self) }),
    {
        self.vertical = 0;
        self.horizontal = 0;
        self.frozen = false;
    }

    /// To the end position; the view freezes.
    pub fn scroll_to_end(&mut self, log_len: usize)
        ensures
            *final(self) == (LogScroll {
                vertical: end_of(log_len as nat, window_lines(old(self).frame_height)) as usize,
                frozen: true,
                ..*old(self)
            }),
    {
        self.vertical = self.end_position(log_len);
        self.frozen = true;
    }

    /// One row down (see `down_one`).
    pub fn scroll_down(&mut self, log_len: usize)
        ensures
            *final(self) == down_one(*old(self), log_len as nat),
    {
        let end = self.end_position(log_len);
        let up = if self.vertical == usize::MAX {
            usize::MAX
        } else {
            self.vertical + 1
        };
        self.vertical = if end < usize::MAX && up < end + 1 {
            up
        } else if end < usize::MAX {
            end + 1
        } else {
            up
        };
        self.frozen = true;
    }

    /// One row up (see `up_one`).
    pub fn scroll_up(&mut self)
        ensures
            *final(self) == up_one(*old(self)),
    {
        self.vertical = if self.vertical == 0 {
            0
        } else {
            self.vertical - 1
        };
        if self.vertical == 0 {
            self.frozen = false;
        }
    }

    /// One column left, stopping at the first.
    pub fn scroll_left(&mut self)
        ensures
            *final(self) == (LogScroll {
                horizontal: if old(self).horizontal == 0 {
                    0usize
                } else {
                    (old(self).horizontal - 1) as usize
                },
                ..*old(self)
            }),
    {
        self.horizontal = if self.horizontal == 0 {
            0
        } else {
            self.horizontal - 1
        };
    }

    /// One column right.
    pub fn scroll_right(&mut self)
        ensures
            *final(self) == (LogScroll {
                horizontal: if old(self).horizontal == usize::MAX {
                    usize::MAX
                } else {
                    (old(self).horizontal + 1) as usize
                },
                ..*old(self)
            }),
    {
        self.horizontal = if self.horizontal == usize::MAX {
            usize::MAX
        } else {
            self.horizontal + 1
        };
    }

    /// A window's worth of rows up.
    pub fn scroll_page_up(&mut self)
        ensures
            *final(self) == up_n(*old(self), window_lines(old(self).frame_height)),
    {
        let n = self.lines_in_window();
        let ghost start = *self;
        let mut k: u16 = 0;
        while k < n
            invariant
                k <= n,
                n == window_lines(start.frame_height),
                *self == up_n(start, k as nat),
            decreases n - k,
        {
            self.scroll_up();
            k = k + 1;
        }
    }

    /// A window's worth of rows down.
    pub fn scroll_page_down(&mut self, log_len: usize)
        ensures
            *final(self) == down_n(*old(self), log_len as nat, window_lines(old(self).frame_height)),
    {
        let n = self.lines_in_window();
        let ghost start = *self;
        let mut k: u16 = 0;
        while k < n
            invariant
                k <= n,
                n == window_lines(start.frame_height),
                self.frame_height == start.frame_height,
                *self == down_n(start, log_len as nat, k as nat),
            decreases n - k,
        {
            self.scroll_down(log_len);
            k = k + 1;
        }
    }
}

/// Scrolling down never goes more than one row past the end position.
pub proof fn lemma_scroll_down_bounded(s: LogScroll, log_len: nat)
    requires
        s.vertical <= end_of(log_len, window_lines(s.frame_height)) + 1,
    ensures
        down_one(s, log_len).vertical <= end_of(log_len, window_lines(s.frame_height)) + 1,
{
}

/// Scrolling up from the top stays at the top and follows new logs.
pub proof fn lemma_scroll_up_at_top(s: LogScroll)
    requires
        s.vertical == 0,
    ensures
        up_one(s).vertical == 0,
        !up_one(s).frozen,
{
}

/// One row down and one row up return to where the view was, unless it was
/// already one past the end or at the top.
pub proof fn lemma_down_then_up(s: LogScroll, log_len: nat)
    requires
        0 < s.vertical < usize::MAX,
        log_len <= usize::MAX,
        s.vertical < end_of(log_len, window_lines(s.frame_height)) + 1,
    ensures
        up_one(down_one(s, log_len)).vertical == s.vertical,
{
}

/// The name of a log level.
pub open spec fn level_name(l: LogLevel) -> Seq<char> {
    match l {
        LogLevel::Error => "Error"@,
        LogLevel::Warn => "Warn"@,
        LogLevel::Info => "Info"@,
        LogLevel::Debug => "Debug"@,
        LogLevel::Trace => "Trace"@,
    }
}

/// The log pane's title: the level shown, how many messages are shown and
/// how many are kept at most.
pub open spec fn log_title_text(level: LogLevel, shown: nat, limit: nat) -> Seq<char> {
    "Log Level: "@ + level_name(level) + ", showing "@ + dec(shown) + " msgs (max: "@ + dec(limit) + ")"@
}

/// The log pane's title (see `log_title_text`).
pub fn log_pane_title(level: LogLevel, shown: u16, limit: usize) -> (r: String)
    ensures
        r@ == log_title_text(level, shown as nat, limit as nat),
{
    let mut s = String::new();
    push_str(&mut s, "Log Level: ");
    push_str(&mut s, level.name());
    push_str(&mut s, ", showing ");
    push_decimal(&mut s, shown as u64);
    push_str(&mut s, " msgs (max: ");
    push_decimal(&mut s, limit as u64);
    push_str(&mut s, ")");
    s
}

} // verus!
