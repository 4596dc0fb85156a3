//! Picking one of a few values in the config window, and moving between its tabs.
use vstd::prelude::*;
use crate::lexical::texts;
use crate::strings::str_eq;
use crate::keybindings::byte_len;
use crate::port_scan::max_label_bytes;

verus! {

/// An inline picker over a fixed list of values; moving past either end wraps.
#[derive(Debug)]
pub struct OptionSelector {
    /// The config key the picker edits.
    pub config_key: String,
    pub options: Vec<String>,
    pub selected_idx: usize,
    /// The value's position when the picker opened, restored on cancel.
    pub original_idx: usize,
}

/// The position of the first option equal to `current`, or 0.
pub open spec fn position_of(options: Seq<Seq<char>>, current: Seq<char>) -> int {
    if exists|i: int| 0 <= i < options.len() && options[i] == current {
        choose|i: int|
            0 <= i < options.len() && options[i] == current && forall|k: int|
                0 <= k < i ==> options[k] != current
    } else {
        0
    }
}

/// The value at a position, empty past the end.
pub open spec fn value_at(options: Seq<Seq<char>>, i: int) -> Seq<char> {
    if 0 <= i < options.len() {
        options[i]
    } else {
        Seq::empty()
    }
}

impl OptionSelector {
    /// The selection stays on an option (or at 0 with no options).
    pub open spec fn wf(&self) -> bool {
        self.selected_idx < self.options@.len() || (self.options@.len() == 0 && self.selected_idx == 0)
    }

    /// A picker over `options` opened on `current` (the first option if it is
    /// not among them).
    pub fn new(config_key: &str, options: Vec<String>, current: &str) -> (r: Self)
        ensures
            r.wf(),
            r.config_key@ == config_key@,
            texts(r.options@) == texts(options@),
            r.selected_idx == position_of(texts(options@), current@),
            r.original_idx == r.selected_idx,
    {
        let mut idx: usize = 0;
        let mut i: usize = 0;
        let mut found = false;
        while i < options.len()
            invariant
                i <= options.len(),
                !found ==> forall|k: int| 0 <= k < i ==> options@[k]@ != current@,
                !found ==> idx == 0,
                found ==> idx < options.len() && options@[idx as int]@ == current@ && forall|k: int|
                    0 <= k < idx ==> options@[k]@ != current@,
            decreases options.len() - i,
        {
            if !found && str_eq(options[i].as_str(), current) {
                idx = i;
                found = true;
            }
            i = i + 1;
        }
        proof {
            let t = texts(options@);
            if found {
                assert(t[idx as int] == current@);
                let j = choose|j: int|
                    0 <= j < t.len() && t[j] == current@ && forall|k: int| 0 <= k < j ==> t[k] != current@;
                if j < idx {
                    assert(options@[j]@ == t[j]);
                } else if j > idx {
                    assert(t[idx as int] == current@);
                }
            } else {
                assert forall|k: int| 0 <= k < t.len() implies t[k] != current@ by {
                    assert(t[k] == options@[k]@);
                }
            }
        }
        OptionSelector {
            config_key: config_key.to_owned(),
            options,
            selected_idx: idx,
            original_idx: idx,
        }
    }

    /// The value selected now.
    pub fn current_value(&self) -> (r: &str)
        ensures
            r@ == value_at(texts(self.options@), self.selected_idx as int),
    {
        if self.selected_idx < self.options.len() {
            self.options[self.selected_idx].as_str()
        } else {
            proof {
                reveal_strlit("");
            }
            ""
        }
    }

    /// The value selected when the picker opened.
    pub fn original_value(&self) -> (r: &str)
        ensures
            r@ == value_at(texts(self.options@), self.original_idx as int),
    {
        if self.original_idx < self.options.len() {
            self.options[self.original_idx].as_str()
        } else {
            proof {
                reveal_strlit("");
            }
            ""
        }
    }

    /// One option up, from the first to the last.
    pub fn navigate_up(&mut self)
        requires
            old(self).wf(),
        ensures
            final(self).wf(),
            final(self).options == old(self).options,
            final(self).original_idx == old(self).original_idx,
            final(self).config_key == old(self).config_key,
            old(self).options@.len() == 0 ==> final(self).selected_idx == old(self).selected_idx,
            old(self).options@.len() > 0 ==> final(self).selected_idx == if old(self).selected_idx == 0 {
                old(self).options@.len() - 1
            } else {
                old(self).selected_idx - 1
            },
    {
        let n = self.options.len();
        if n == 0 {
            return;
        }
        self.selected_idx = if self.selected_idx == 0 {
            n - 1
        } else {
            self.selected_idx - 1
        };
    }

    /// One option down, from the last to the first.
    pub fn navigate_down(&mut self)
        requires
            old(self).wf(),
        ensures
            final(self).wf(),
            final(self).options == old(self).options,
            final(self).original_idx == old(self).original_idx,
            final(self).config_key == old(self).config_key,
            old(self).options@.len() == 0 ==> final(self).selected_idx == old(self).selected_idx,
            old(self).options@.len() > 0 ==> final(self).selected_idx == (old(self).selected_idx + 1)
                % (old(self).options@.len() as int),
    {
        let n = self.options.len();
        if n == 0 {
            return;
        }
        self.selected_idx = (self.selected_idx + 1) % n;
    }
}

/// Moving down through all `n` options returns to where the picker was.
pub proof fn lemma_down_wraps(i: int, n: int)
    requires
        0 <= i < n,
    ensures
        (i + 1) % n == if i == n - 1 {
            0
        } else {
            i + 1
        },
{
    if i < n - 1 {
        vstd::arithmetic::div_mod::lemma_small_mod((i + 1) as nat, n as nat);
    } else {
        assert(n % n == 0) by (nonlinear_arith)
            requires
                n > 0,
        ;
    }
}

/// One up after one down returns to the same option.
pub proof fn lemma_up_undoes_down(i: int, n: int)
    requires
        0 <= i < n,
    ensures
        ({
            let d = (i + 1) % n;
            (if d == 0 {
                n - 1
            } else {
                d - 1
            }) == i
        }),
{
    lemma_down_wraps(i, n);
}

/// The tabs of the config window.
#[derive(Debug, Clone, Copy, PartialEq, Eq, Structural)]
pub enum TabKind {
    Interfaces,
    Scan,
    Timeouts,
    Ui,
}

/// The position of a tab, from 0 to 3.
pub open spec fn tab_index(t: TabKind) -> nat {
    match t {
        TabKind::Interfaces => 0,
        TabKind::Scan => 1,
        TabKind::Timeouts => 2,
        TabKind::Ui => 3,
    }
}

/// The tab at a position, if there is one.
pub open spec fn tab_at(i: int) -> Option<TabKind> {
    if i == 0 {
        Some(TabKind::Interfaces)
    } else if i == 1 {
        Some(TabKind::Scan)
    } else if i == 2 {
        Some(TabKind::Timeouts)
    } else if i == 3 {
        Some(TabKind::Ui)
    } else {
        None
    }
}

impl TabKind {
    /// The position of the tab.
    pub fn discriminant(&self) -> (r: usize)
        ensures
            r == tab_index(*self),
    {
        match self {
            TabKind::Interfaces => 0,
            TabKind::Scan => 1,
            TabKind::Timeouts => 2,
            TabKind::Ui => 3,
        }
    }

    fn from_repr(i: usize) -> (r: Option<TabKind>)
        ensures
            r == tab_at(i as int),
    {
        match i {
            0 => Some(TabKind::Interfaces),
            1 => Some(TabKind::Scan),
            2 => Some(TabKind::Timeouts),
            3 => Some(TabKind::Ui),
            _ => None,
        }
    }

    /// The tab to the right, or `None` on the last tab (which then stays, as it is).
    pub fn next(&self) -> (r: Option<TabKind>)
        ensures
            r == tab_at(tab_index(*self) + 1int),
    {
        Self::from_repr(self.discriminant() + 1)
    }

    /// The tab to the left; on the first tab, the first tab afresh.
    pub fn previous(&self) -> (r: TabKind)
        ensures
            tab_index(r) == if tab_index(*self) == 0 {
                0
            } else {
                tab_index(*self) - 1
            },
    {
        let d = self.discriminant();
        let p = if d == 0 {
            0
        } else {
            d - 1
        };
        match Self::from_repr(p) {
            Some(t) => t,
            None => *self,
        }
    }

    /// The tab to the right, from the last back to the first.
    pub fn toggle(&self) -> (r: TabKind)
        ensures
            tab_index(r) == (tab_index(*self) + 1) % 4,
    {
        match Self::from_repr(self.discriminant() + 1) {
            Some(t) => t,
            None => TabKind::Interfaces,
        }
    }
}

/// The tab after toggling.
pub open spec fn toggled_tab(t: TabKind) -> TabKind {
    tab_at(((tab_index(t) + 1) % 4) as int)->0
}

/// Toggling four times returns to the same tab.
pub proof fn lemma_toggle_cycles(t: TabKind)
    ensures
        toggled_tab(toggled_tab(toggled_tab(toggled_tab(t)))) == t,
{
}

/// The tab after toggling is the one `TabKind::toggle` gives.
pub proof fn lemma_toggle_matches(t: TabKind, r: TabKind)
    requires
        tab_index(r) == (tab_index(t) + 1) % 4,
    ensures
        r == toggled_tab(t),
{
}

/// A rectangle of the screen.
#[derive(Debug, Clone, Copy, PartialEq, Eq, Structural)]
pub struct ScreenRect {
    pub x: u16,
    pub y: u16,
    pub width: u16,
    pub height: u16,
}

/// `a - b`, or 0 where `b` is larger.
pub open spec fn sat_sub(a: u16, b: u16) -> int {
    if a > b {
        a - b
    } else {
        0
    }
}

/// The smaller of two numbers.
pub open spec fn min_int(a: int, b: int) -> int {
    if a < b {
        a
    } else {
        b
    }
}

/// Where the picker's pop-up goes, beside item `item` of the list drawn in
/// `area`, or nowhere when there are no options or too little room (under 6
/// columns or 3 rows). It is as wide as the longest option in bytes plus 6,
/// at least 10, and one row per option plus the borders, at most the area's
/// height less 4; both cut to the room left.
pub open spec fn popup_rect_of(
    options: Seq<String>,
    item: usize,
    x_offset: u16,
    y_offset_from_item: u16,
    area: ScreenRect,
) -> Option<ScreenRect> {
    let n = options.len();
    if n == 0 {
        None
    } else {
        let width = if (max_label_bytes(options, n as int) as u16) + 6 > 10 {
            (max_label_bytes(options, n as int) as u16) + 6
        } else {
            10
        };
        let height = min_int((n as u16) + 2, sat_sub(area.height, 4));
        let y_offset = ((item as u16) + y_offset_from_item) as u16;
        let available_width = sat_sub(area.width, x_offset);
        let available_height = sat_sub(area.height, y_offset);
        if available_width < 6 || available_height < 3 {
            None
        } else {
            Some(
                ScreenRect {
                    x: (area.x + x_offset) as u16,
                    y: (area.y + y_offset) as u16,
                    width: min_int(width, available_width) as u16,
                    height: min_int(height, available_height) as u16,
                },
            )
        }
    }
}

impl OptionSelector {
    /// Where the picker's pop-up goes (see `popup_rect_of`).
    pub fn popup_rect(&self, item: usize, x_offset: u16, y_offset_from_item: u16, area: ScreenRect) -> (r: Option<ScreenRect>)
        requires
            forall|i: int| 0 <= i < self.options@.len() ==> byte_len((#[trigger] self.options@[i])@) <= usize::MAX,
            (max_label_bytes(self.options@, self.options@.len() as int) as u16) + 6 <= u16::MAX,
            (self.options@.len() as u16) + 2 <= u16::MAX,
            (item as u16) + y_offset_from_item <= u16::MAX,
            area.x + x_offset <= u16::MAX,
            area.y + (item as u16) + y_offset_from_item <= u16::MAX,
        ensures
            r == popup_rect_of(self.options@, item, x_offset, y_offset_from_item, area),
    {
        let n = self.options.len();
        if n == 0 {
            return None;
        }
        let mut max_len: usize = 0;
        let mut k: usize = 0;
        while k < n
            invariant
                k <= n,
                n == self.options@.len(),
                forall|i: int| 0 <= i < self.options@.len() ==> byte_len((#[trigger] self.options@[i])@) <= usize::MAX,
                max_len == max_label_bytes(self.options@, k as int),
            decreases n - k,
        {
            let b = self.options[k].as_str().len();
            assert(b == byte_len(self.options@[k as int]@));
            if b > max_len {
                max_len = b;
            }
            k = k + 1;
        }
        let base: u16 = (max_len as u16) + 6;
        let width: u16 = if base > 10 {
            base
        } else {
            10
        };
        let rows: u16 = (n as u16) + 2;
        let room: u16 = area.height.saturating_sub(4);
        let height: u16 = if rows < room {
            rows
        } else {
            room
        };
        let y_offset: u16 = (item as u16) + y_offset_from_item;
        let available_width = area.width.saturating_sub(x_offset);
        let available_height = area.height.saturating_sub(y_offset);
        if available_width < 6 || available_height < 3 {
            return None;
        }
        Some(
            ScreenRect {
                x: area.x + x_offset,
                y: area.y + y_offset,
                width: if width < available_width {
                    width
                } else {
                    available_width
                },
                height: if height < available_height {
                    height
                } else {
                    available_height
                },
            },
        )
    }
}

/// The narrowest text editor: two borders, a character, the cursor and a space.
pub const EDITOR_MIN_WIDTH: u16 = 5;
/// The text editor's height: the text row and its bottom border.
pub const EDITOR_HEIGHT: u16 = 2;

/// Where the text editor goes: one column left of the value column
/// `overlay_x`, at row `overlay_y` of `area`; as wide as its text plus 4,
/// within 5 and the columns left; nowhere where fewer than 5 are left.
pub open spec fn editor_rect_of(content_len: u16, overlay_x: u16, overlay_y: u16, area: ScreenRect) -> Option<ScreenRect> {
    let x = sat_sub(overlay_x, 1);
    let available = sat_sub(area.width, x as u16);
    if available < EDITOR_MIN_WIDTH {
        None
    } else {
        let want = content_len + 4;
        Some(
            ScreenRect {
                x: (area.x + x) as u16,
                y: (area.y + overlay_y) as u16,
                width: (if want < EDITOR_MIN_WIDTH {
                    EDITOR_MIN_WIDTH as int
                } else if want > available {
                    available
                } else {
                    want
                }) as u16,
                height: EDITOR_HEIGHT,
            },
        )
    }
}

/// Where the text editor goes (see `editor_rect_of`).
pub fn editor_rect(content_len: u16, overlay_x: u16, overlay_y: u16, area: ScreenRect) -> (r: Option<ScreenRect>)
    requires
        content_len + 4 <= u16::MAX,
        area.x + overlay_x <= u16::MAX,
        area.y + overlay_y <= u16::MAX,
    ensures
        r == editor_rect_of(content_len, overlay_x, overlay_y, area),
{
    let x = overlay_x.saturating_sub(1);
    let available = area.width.saturating_sub(x);
    if available < EDITOR_MIN_WIDTH {
        return None;
    }
    let want = content_len + 4;
    let width = if want < EDITOR_MIN_WIDTH {
        EDITOR_MIN_WIDTH
    } else if want > available {
        available
    } else {
        want
    };
    Some(ScreenRect { x: area.x + x, y: area.y + overlay_y, width, height: EDITOR_HEIGHT })
}

} // verus!
