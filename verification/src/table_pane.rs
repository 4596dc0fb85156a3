//! The host table: row and column selection, row heights, column widths, the
//! lines of a cell and the sub-line picker used to copy one of them.
use vstd::prelude::*;
use crate::display_width::{str_width, text_width};
use crate::ip_address::{IpAddress, ip_text};
use crate::ip_info::{IpInfo, max_of, widths};
use crate::lexical::texts;
use crate::strings::{dec, push_decimal, push_str};

verus! {

/// Rows the table scrolls per selected row.
pub const ITEM_HEIGHT: usize = 1;

/// The smallest row height.
pub const MIN_ROW_HEIGHT: u16 = 2;

/// The blank line above a row's content.
pub const ROW_PADDING: u16 = 1;

/// Lines each service takes in a row.
pub const LINES_PER_SERVICE: u16 = 2;

/// Extra lines of a row whose cell is being picked from: the "copy all"
/// option and a blank line above and below.
pub const SUB_LINE_SELECTOR_EXTRA_ROWS: u16 = 3;

/// The width of the "▶ " cursor in front of a picked line.
pub const CURSOR_PREFIX_WIDTH: u16 = 2;

/// Padding added to a column's content width.
pub const CELL_PADDING: u16 = 1;

/// The column of addresses.
pub const COL_IP: usize = 0;
/// The column of names.
pub const COL_NAME: usize = 1;
/// The column of times seen.
pub const COL_HITS: usize = 2;
/// The column of services.
pub const COL_SERVICES: usize = 3;

/// The narrowest address column.
pub const COL_IP_MIN_WIDTH: u16 = 4;
/// The narrowest name column.
pub const COL_NAME_MIN_WIDTH: u16 = 8;
/// The narrowest column of times seen.
pub const COL_HITS_MIN_WIDTH: u16 = 5;

/// The selection in the table.
#[derive(Debug, Clone, Copy, PartialEq, Eq, Structural)]
pub struct TableNav {
    pub selected: Option<usize>,
    pub selected_column: Option<usize>,
    pub scroll_position: usize,
}

/// The row after moving down in a table of `len` rows: one down, staying on
/// the last row; the first row where none was selected.
pub open spec fn next_row_of(selected: Option<usize>, len: usize) -> usize {
    match selected {
        Some(i) => if i >= len - 1 {
            (len - 1) as usize
        } else {
            (i + 1) as usize
        },
        None => 0,
    }
}

impl TableNav {
    /// The first row selected, scrolled to the top.
    pub fn new() -> (r: Self)
        ensures
            r.selected == Some(0usize),
            r.selected_column is None,
            r.scroll_position == 0,
    {
        TableNav { selected: Some(0), selected_column: None, scroll_position: 0 }
    }

    /// Moves one row down in a table of `filtered_len` rows (nothing happens in
    /// an empty table).
    pub fn next_row(&mut self, filtered_len: usize)
        ensures
            filtered_len == 0 ==> *final(self) == *old(self),
            filtered_len > 0 ==> final(self).selected == Some(next_row_of(old(self).selected, filtered_len))
                && final(self).scroll_position == next_row_of(old(self).selected, filtered_len)
                && final(self).selected_column == old(self).selected_column,
    {
        if filtered_len == 0 {
            return;
        }
        let last_row_idx = filtered_len - 1;
        let i = match self.selected {
            Some(i) => if i >= last_row_idx {
                last_row_idx
            } else {
                i + 1
            },
            None => 0,
        };
        self.selected = Some(i);
        self.scroll_position = i * ITEM_HEIGHT;
    }

    /// Moves one row up, staying on the first row.
    pub fn previous_row(&mut self)
        ensures
            final(self).selected == Some(
                match old(self).selected {
                    Some(i) => if i == 0 {
                        0usize
                    } else {
                        (i - 1) as usize
                    },
                    None => 0usize,
                },
            ),
            final(self).scroll_position == final(self).selected->0,
            final(self).selected_column == old(self).selected_column,
    {
        let i = match self.selected {
            Some(i) => if i == 0 {
                0
            } else {
                i - 1
            },
            None => 0,
        };
        self.selected = Some(i);
        self.scroll_position = i * ITEM_HEIGHT;
    }

    /// Selects the first row.
    pub fn scroll_to_start(&mut self)
        ensures
            final(self).selected == Some(0usize),
            final(self).scroll_position == 0,
            final(self).selected_column == old(self).selected_column,
    {
        self.selected = Some(0);
        self.scroll_position = 0;
    }

    /// Selects the last of `filtered_len` rows (nothing happens in an empty table).
    pub fn scroll_to_end(&mut self, filtered_len: usize)
        ensures
            filtered_len == 0 ==> *final(self) == *old(self),
            filtered_len > 0 ==> final(self).selected == Some((filtered_len - 1) as usize)
                && final(self).scroll_position == filtered_len - 1 && final(self).selected_column
                == old(self).selected_column,
    {
        if filtered_len == 0 {
            return;
        }
        let last_index = filtered_len - 1;
        self.selected = Some(last_index);
        self.scroll_position = last_index * ITEM_HEIGHT;
    }

    /// Selects the next column, or the first where none was selected.
    pub fn next_column(&mut self)
        ensures
            final(self).selected_column == Some(
                match old(self).selected_column {
                    Some(c) => if c == usize::MAX {
                        usize::MAX
                    } else {
                        (c + 1) as usize
                    },
                    None => 0usize,
                },
            ),
            final(self).selected == old(self).selected,
            final(self).scroll_position == old(self).scroll_position,
    {
        let next = match self.selected_column {
            Some(c) => if c == usize::MAX {
                usize::MAX
            } else {
                c + 1
            },
            None => 0,
        };
        self.selected_column = Some(next);
    }

    /// Selects the previous column, or the last where none was selected.
    pub fn previous_column(&mut self)
        ensures
            final(self).selected_column == Some(
                match old(self).selected_column {
                    Some(c) => if c == 0 {
                        0usize
                    } else {
                        (c - 1) as usize
                    },
                    None => usize::MAX,
                },
            ),
            final(self).selected == old(self).selected,
            final(self).scroll_position == old(self).scroll_position,
    {
        let previous = match self.selected_column {
            Some(c) => if c == 0 {
                0
            } else {
                c - 1
            },
            None => usize::MAX,
        };
        self.selected_column = Some(previous);
    }

    /// Drops a selection that is past the end of a table of `len` rows and
    /// scrolls to the top.
    pub fn clamp_to(&mut self, len: usize)
        ensures
            (match old(self).selected {
                Some(i) => i >= len,
                None => false,
            }) ==> final(self).selected is None && final(self).scroll_position == 0
                && final(self).selected_column == old(self).selected_column,
            !(match old(self).selected {
                Some(i) => i >= len,
                None => false,
            }) ==> *final(self) == *old(self),
    {
        let out = match self.selected {
            Some(i) => i >= len,
            None => false,
        };
        if out {
            self.selected = None;
            self.scroll_position = 0;
        }
    }

    /// The selected cell as (row, column), where both are selected.
    pub fn selected_cell_coords(&self) -> (r: Option<(usize, usize)>)
        ensures
            r == match (self.selected, self.selected_column) {
                (Some(a), Some(b)) => Some((a, b)),
                _ => None,
            },
    {
        match (self.selected, self.selected_column) {
            (Some(a), Some(b)) => Some((a, b)),
            _ => None,
        }
    }
}

/// A row's height: at least 2, one line per name and two per service, plus a
/// blank line.
pub open spec fn row_height(names: nat, services: nat) -> nat {
    let a = if names + 1 > 2 {
        names + 1
    } else {
        2
    };
    if services * 2 + 1 > a {
        services * 2 + 1
    } else {
        a
    }
}

/// The number of services of a host record.
pub open spec fn service_count(info: IpInfo) -> nat {
    match info.service_instances {
        Some(v) => v@.len(),
        None => 0,
    }
}

/// The height of a host's row.
pub fn calc_row_height(ip_info: &IpInfo) -> (r: u16)
    requires
        ip_info.names.len() < 0xffff,
        service_count(*ip_info) < 0x7fff,
    ensures
        r == row_height(ip_info.names.len() as nat, service_count(*ip_info)),
{
    let hostname_count = ip_info.names.len() as u16;
    let service_count: u16 = match &ip_info.service_instances {
        Some(v) => v.len() as u16,
        None => 0,
    };
    let a = if hostname_count + ROW_PADDING > MIN_ROW_HEIGHT {
        hostname_count + ROW_PADDING
    } else {
        MIN_ROW_HEIGHT
    };
    let b = service_count * LINES_PER_SERVICE + ROW_PADDING;
    if b > a {
        b
    } else {
        a
    }
}

/// The table title for `item_count` rows.
pub fn pane_title(item_count: u16) -> (r: String)
    ensures
        r@ == dec(item_count as nat) + " IPs discovered"@,
{
    let mut title = String::new();
    push_decimal(&mut title, item_count as u64);
    push_str(&mut title, " IPs discovered");
    title
}

/// The widest text in each column over a list of hosts.
#[derive(Debug, Clone, Copy, PartialEq, Eq, Structural)]
pub struct ColumnConstraints {
    pub max_ip_len: u16,
    pub max_hostname_len: u16,
    pub max_packets_count_len: u16,
    pub max_services_len: u16,
}

impl Default for ColumnConstraints {
    fn default() -> (r: Self)
        ensures
            r == (ColumnConstraints {
                max_ip_len: 10,
                max_hostname_len: 10,
                max_packets_count_len: 10,
                max_services_len: 10,
            }),
    {
        ColumnConstraints {
            max_ip_len: 10,
            max_hostname_len: 10,
            max_packets_count_len: 10,
            max_services_len: 10,
        }
    }
}

/// The larger of two widths.
pub open spec fn max_u16(a: u16, b: u16) -> u16 {
    if a < b {
        b
    } else {
        a
    }
}

/// The column widths over the first `n` hosts of `items`.
pub open spec fn column_widths(items: Seq<IpInfo>, n: int) -> ColumnConstraints
    decreases n,
{
    if n <= 0 {
        ColumnConstraints { max_ip_len: 0, max_hostname_len: 0, max_packets_count_len: 0, max_services_len: 0 }
    } else {
        let c = column_widths(items, n - 1);
        let it = items[n - 1];
        ColumnConstraints {
            max_ip_len: max_u16(c.max_ip_len, text_width(ip_text(it.ip)) as u16),
            max_hostname_len: max_u16(c.max_hostname_len, max_of(widths(it@.names)) as u16),
            max_packets_count_len: max_u16(
                c.max_packets_count_len,
                text_width(dec(it.seen_count as nat)) as u16,
            ),
            max_services_len: max_u16(
                c.max_services_len,
                (match it@.services {
                    Some(s) => max_of(widths(crate::ip_info::service_texts(s))),
                    None => 0,
                }) as u16,
            ),
        }
    }
}

impl ColumnConstraints {
    /// The widest address, name, count and service over the hosts, each cut
    /// to 16 bits.
    pub fn new(items: &[&IpInfo]) -> (r: Self)
        ensures
            r == column_widths(items@.map_values(|i: &IpInfo| *i), items@.len() as int),
    {
        let ghost all = items@.map_values(|i: &IpInfo| *i);
        let mut c = ColumnConstraints {
            max_ip_len: 0,
            max_hostname_len: 0,
            max_packets_count_len: 0,
            max_services_len: 0,
        };
        let mut k: usize = 0;
        while k < items.len()
            invariant
                k <= items.len(),
                all == items@.map_values(|i: &IpInfo| *i),
                c == column_widths(all, k as int),
            decreases items.len() - k,
        {
            let it = items[k];
            assert(all[k as int] == *it);
            let ip_str = it.ip.text();
            let ip_len = str_width(ip_str.as_str()) as u16;
            if c.max_ip_len < ip_len {
                c.max_ip_len = ip_len;
            }
            let name_len = it.max_name_unicode_width();
            if c.max_hostname_len < name_len {
                c.max_hostname_len = name_len;
            }
            let mut count_str = String::new();
            push_decimal(&mut count_str, it.seen_count);
            let count_len = str_width(count_str.as_str()) as u16;
            if c.max_packets_count_len < count_len {
                c.max_packets_count_len = count_len;
            }
            let service_len = it.max_service_instance_unicode_width();
            if c.max_services_len < service_len {
                c.max_services_len = service_len;
            }
            k = k + 1;
        }
        c
    }
}

/// A character with the Unicode `White_Space` property, which
/// `char::is_whitespace` tests: tab to carriage return, space, next line,
/// no-break space, ogham space mark, the spaces from en quad to hair space,
/// line and paragraph separators, narrow no-break space, medium mathematical
/// space and ideographic space.
pub open spec fn is_white(c: char) -> bool {
    let u = c as u32;
    ||| 0x09 <= u <= 0x0d
    ||| u == 0x20
    ||| u == 0x85
    ||| u == 0xa0
    ||| u == 0x1680
    ||| 0x2000 <= u <= 0x200a
    ||| u == 0x2028
    ||| u == 0x2029
    ||| u == 0x202f
    ||| u == 0x205f
    ||| u == 0x3000
}

/// Whether a character is white space (what `char::is_whitespace` answers).
fn char_is_white(c: char) -> (r: bool)
    ensures
        r == is_white(c),
{
    let u = c as u32;
    (0x09 <= u && u <= 0x0d) || u == 0x20 || u == 0x85 || u == 0xa0 || u == 0x1680 || (0x2000 <= u
        && u <= 0x200a) || u == 0x2028 || u == 0x2029 || u == 0x202f || u == 0x205f || u == 0x3000
}

/// The text without white space at either end.
pub open spec fn trimmed(s: Seq<char>) -> Seq<char>
    decreases s.len(),
{
    if s.len() == 0 {
        s
    } else if is_white(s[0]) {
        trimmed(s.drop_first())
    } else if is_white(s.last()) {
        trimmed(s.drop_last())
    } else {
        s
    }
}

/// The text cut at each line break.
pub open spec fn split_lines(s: Seq<char>) -> Seq<Seq<char>>
    decreases s.len(),
{
    if s.len() == 0 {
        seq![Seq::empty()]
    } else {
        let rest = split_lines(s.drop_last());
        if s.last() == '\n' {
            rest.push(Seq::empty())
        } else {
            rest.update(rest.len() - 1, rest.last().push(s.last()))
        }
    }
}

/// The lines of a cell as the copy action sees them: each line trimmed, the
/// empty ones dropped.
pub open spec fn cell_lines_of(lines: Seq<Seq<char>>) -> Seq<Seq<char>>
    decreases lines.len(),
{
    if lines.len() == 0 {
        Seq::empty()
    } else {
        let rest = cell_lines_of(lines.drop_last());
        let t = trimmed(lines.last());
        if t.len() == 0 {
            rest
        } else {
            rest.push(t)
        }
    }
}

proof fn lemma_split_lines_nonempty(s: Seq<char>)
    ensures
        split_lines(s).len() >= 1,
    decreases s.len(),
{
    if s.len() > 0 {
        lemma_split_lines_nonempty(s.drop_last());
    }
}

/// A piece of `s` without white space at either end.
pub(crate) fn trim_range(s: &str, from: usize, to: usize) -> (r: String)
    requires
        from <= to <= s@.len(),
    ensures
        r@ == trimmed(s@.subrange(from as int, to as int)),
    decreases to - from,
{
    if from == to {
        return String::new();
    }
    if char_is_white(s.get_char(from)) {
        assert(s@.subrange(from as int, to as int).drop_first() =~= s@.subrange(from + 1, to as int));
        return trim_range(s, from + 1, to);
    }
    if char_is_white(s.get_char(to - 1)) {
        assert(s@.subrange(from as int, to as int).drop_last() =~= s@.subrange(from as int, to - 1));
        return trim_range(s, from, to - 1);
    }
    s.substring_char(from, to).to_owned()
}

/// The lines of a cell's text, each trimmed, without the empty ones.
pub fn cell_lines(content: &str) -> (r: Vec<String>)
    ensures
        texts(r@) == cell_lines_of(split_lines(content@)),
{
    let n = content.unicode_len();
    let mut r: Vec<String> = Vec::new();
    let mut start: usize = 0;
    let mut i: usize = 0;
    while i < n
        invariant
            n == content@.len(),
            start <= i <= n,
            ({
                let sl = split_lines(content@.take(i as int));
                &&& sl.last() == content@.subrange(start as int, i as int)
                &&& texts(r@) == cell_lines_of(sl.drop_last())
            }),
        decreases n - i,
    {
        proof {
            lemma_split_lines_nonempty(content@.take(i as int));
            assert(content@.take(i + 1).drop_last() =~= content@.take(i as int));
        }
        let c = content.get_char(i);
        if c == '\n' {
            let t = trim_range(content, start, i);
            let ghost old_r = r@;
            if t.unicode_len() > 0 {
                r.push(t);
                assert(texts(r@) =~= texts(old_r).push(r@.last()@));
            }
            proof {
                let sl = split_lines(content@.take(i as int));
                let sl2 = split_lines(content@.take(i + 1));
                assert(sl2 == sl.push(Seq::empty()));
                assert(sl2.drop_last() =~= sl);
                assert(sl.drop_last().push(sl.last()) =~= sl);
            }
            start = i + 1;
            assert(content@.subrange(start as int, i + 1) =~= Seq::<char>::empty());
        } else {
            proof {
                let sl = split_lines(content@.take(i as int));
                let sl2 = split_lines(content@.take(i + 1));
                assert(content@.take(i + 1).last() == c);
                assert(sl2 == sl.update(sl.len() - 1, sl.last().push(c)));
                assert(sl2.drop_last() =~= sl.drop_last());
                assert(sl2.last() =~= content@.subrange(start as int, i + 1));
            }
        }
        i = i + 1;
    }
    proof {
        lemma_split_lines_nonempty(content@.take(n as int));
        assert(content@.take(n as int) =~= content@);
    }
    let t = trim_range(content, start, n);
    let ghost old_r = r@;
    if t.unicode_len() > 0 {
        r.push(t);
        assert(texts(r@) =~= texts(old_r).push(r@.last()@));
    }
    proof {
        let sl = split_lines(content@);
        assert(sl.drop_last().push(sl.last()) =~= sl);
    }
    r
}

/// Picks one line of a multi-line cell to copy. The lines are a snapshot taken
/// when picking starts; one past the last line stands the "copy all" option.
#[derive(Debug)]
pub struct SubLineSelector {
    pub ip: IpAddress,
    pub col: usize,
    pub lines: Vec<String>,
    pub selected: usize,
    pub max_line_width: u16,
}

/// The widths of lines, each cut to 16 bits.
pub open spec fn line_widths(t: Seq<Seq<char>>) -> Seq<usize> {
    t.map_values(|s: Seq<char>| (text_width(s) as u16) as usize)
}

impl SubLineSelector {
    /// The snapshot of lines.
    pub open spec fn lines_view(&self) -> Seq<Seq<char>> {
        texts(self.lines@)
    }

    /// The position of the cursor; the number of lines means "copy all".
    pub open spec fn selected_view(&self) -> nat {
        self.selected as nat
    }

    /// The widest line when picking started.
    pub open spec fn max_width_view(&self) -> u16 {
        self.max_line_width
    }

    /// The cursor stays on a line or on "copy all".
    pub open spec fn wf(&self) -> bool {
        self.selected <= self.lines@.len()
    }

    /// Starts picking from `lines` with the cursor on the first line.
    pub fn new(ip: IpAddress, col: usize, lines: Vec<String>) -> (r: Self)
        ensures
            r.wf(),
            r.ip == ip,
            r.col == col,
            r.lines_view() == texts(lines@),
            r.selected_view() == 0,
            r.max_width_view() == max_of(line_widths(texts(lines@))) as u16,
    {
        let mut max: u16 = 0;
        let mut i: usize = 0;
        while i < lines.len()
            invariant
                i <= lines.len(),
                max == max_of(line_widths(texts(lines@)).take(i as int)),
            decreases lines.len() - i,
        {
            let ghost w = line_widths(texts(lines@));
            assert(w.take(i + 1).drop_last() =~= w.take(i as int));
            let width = str_width(lines[i].as_str()) as u16;
            assert(w.take(i + 1).last() == width as usize);
            if max < width {
                max = width;
            }
            i = i + 1;
        }
        assert(line_widths(texts(lines@)).take(lines.len() as int) =~= line_widths(texts(lines@)));
        SubLineSelector { ip, col, lines, selected: 0, max_line_width: max }
    }

    /// Moves the cursor down, stopping at "copy all".
    pub fn next(&mut self)
        requires
            old(self).wf(),
        ensures
            final(self).wf(),
            final(self).selected_view() == if old(self).selected_view() < old(self).lines_view().len() {
                old(self).selected_view() + 1
            } else {
                old(self).selected_view()
            },
            final(self).lines_view() == old(self).lines_view(),
            final(self).ip == old(self).ip,
            final(self).col == old(self).col,
            final(self).max_width_view() == old(self).max_width_view(),
    {
        if self.selected < self.lines.len() {
            self.selected = self.selected + 1;
        }
    }

    /// Moves the cursor up, stopping at the first line.
    pub fn prev(&mut self)
        requires
            old(self).wf(),
        ensures
            final(self).wf(),
            final(self).selected_view() == if old(self).selected_view() > 0 {
                old(self).selected_view() - 1
            } else {
                0
            },
            final(self).lines_view() == old(self).lines_view(),
            final(self).ip == old(self).ip,
            final(self).col == old(self).col,
            final(self).max_width_view() == old(self).max_width_view(),
    {
        if self.selected > 0 {
            self.selected = self.selected - 1;
        }
    }

    /// Whether "copy all" is highlighted.
    pub fn is_copy_all(&self) -> (r: bool)
        ensures
            r == (self.selected_view() == self.lines_view().len()),
    {
        self.selected == self.lines.len()
    }

    /// The highlighted line, or none when "copy all" is highlighted.
    pub fn selected_line(&self) -> (r: Option<&str>)
        ensures
            match r {
                Some(s) => self.selected_view() < self.lines_view().len() && s@ == self.lines_view()[self.selected_view() as int],
                None => self.selected_view() >= self.lines_view().len(),
            },
    {
        if self.selected < self.lines.len() {
            Some(self.lines[self.selected].as_str())
        } else {
            None
        }
    }

    pub fn selected_index(&self) -> (r: usize)
        ensures
            r == self.selected_view(),
    {
        self.selected
    }

    pub fn lines(&self) -> (r: &[String])
        ensures
            texts(r@) == self.lines_view(),
    {
        self.lines.as_slice()
    }

    pub fn max_line_width(&self) -> (r: u16)
        ensures
            r == self.max_width_view(),
    {
        self.max_line_width
    }

    /// Whether the picker is on the row of `info`.
    pub fn matches_ip(&self, info: &IpInfo) -> (r: bool)
        ensures
            r == (self.ip == info.ip),
    {
        self.ip == info.ip
    }

    /// Whether the picker is on the cell of `info` in column `col`.
    pub fn matches_ip_and_col(&self, info: &IpInfo, col: usize) -> (r: bool)
        ensures
            r == (self.ip == info.ip && self.col == col),
    {
        self.ip == info.ip && self.col == col
    }

    /// The text to copy when picking is confirmed: all lines joined by line
    /// breaks for "copy all", the highlighted line otherwise.
    pub fn confirmed_text(&self) -> (r: String)
        requires
            self.wf(),
        ensures
            self.selected_view() == self.lines_view().len() ==> r@ == joined_lines(self.lines_view()),
            self.selected_view() < self.lines_view().len() ==> r@ == self.lines_view()[self.selected_view() as int],
    {
        if self.selected < self.lines.len() {
            return self.lines[self.selected].clone();
        }
        let mut s = String::new();
        let mut i: usize = 0;
        while i < self.lines.len()
            invariant
                i <= self.lines.len(),
                s@ == joined_lines(texts(self.lines@).take(i as int)),
            decreases self.lines.len() - i,
        {
            let ghost t = texts(self.lines@);
            assert(t.take(i + 1).drop_last() =~= t.take(i as int));
            assert(t.take(i + 1).last() == self.lines@[i as int]@);
            if i > 0 {
                s.push('\n');
            }
            push_str(&mut s, self.lines[i].as_str());
            proof {
                if i == 0 {
                    assert(t.take(0).len() == 0);
                }
            }
            assert(s@ =~= joined_lines(t.take(i + 1)));
            i = i + 1;
        }
        assert(texts(self.lines@).take(self.lines.len() as int) =~= texts(self.lines@));
        s
    }
}

/// Lines joined with line breaks between them.
pub open spec fn joined_lines(t: Seq<Seq<char>>) -> Seq<char>
    decreases t.len(),
{
    if t.len() == 0 {
        Seq::empty()
    } else if t.len() == 1 {
        t[0]
    } else {
        joined_lines(t.drop_last()) + seq!['\n'] + t.last()
    }
}

/// What the copy action does with the selected cell.
#[derive(Debug)]
pub enum CopyPlan {
    /// No cell is selected, or it is outside the table.
    Nothing,
    /// Copy this single line (empty for an empty cell).
    CopyText { ip: IpAddress, col: usize, text: String },
    /// The cell has several lines: pick one first.
    PickLine { ip: IpAddress, col: usize, lines: Vec<String> },
}

/// Decides what copying the selected cell does: with no cell selected, or
/// one beyond the rows or the four columns, nothing; a cell of at most one
/// line is copied as it is; from a cell of several lines one is picked first.
pub fn copy_plan(rows: &[&IpInfo], coords: Option<(usize, usize)>) -> (r: CopyPlan)
    ensures
        match coords {
            None => r is Nothing,
            Some((row, col)) => if row >= rows@.len() || col >= 4 {
                r is Nothing
            } else {
                let info = *rows@[row as int];
                let cell = cell_text(info, col as int);
                let lines = cell_lines_of(split_lines(cell));
                if lines.len() <= 1 {
                    r matches CopyPlan::CopyText { ip, col: c, text } && ip == info.ip && c == col
                        && text@ == (if lines.len() == 1 {
                        lines[0]
                    } else {
                        Seq::empty()
                    })
                } else {
                    r matches CopyPlan::PickLine { ip, col: c, lines: l } && ip == info.ip && c == col
                        && texts(l@) == lines
                }
            },
        },
{
    let (row, col) = match coords {
        Some(rc) => rc,
        None => return CopyPlan::Nothing,
    };
    if row >= rows.len() || col >= 4 {
        return CopyPlan::Nothing;
    }
    let info = rows[row];
    let cells = info.ref_array();
    let content: &String = if col == 0 {
        &cells[0]
    } else if col == 1 {
        &cells[1]
    } else if col == 2 {
        &cells[2]
    } else {
        &cells[3]
    };
    let mut lines = cell_lines(content.as_str());
    if lines.len() <= 1 {
        let text = match lines.pop() {
            Some(t) => t,
            None => String::new(),
        };
        CopyPlan::CopyText { ip: info.ip, col, text }
    } else {
        CopyPlan::PickLine { ip: info.ip, col, lines }
    }
}

/// The text of a host's cell in column `col` (see `IpInfo::ref_array`).
pub open spec fn cell_text(info: IpInfo, col: int) -> Seq<char> {
    if col == 0 {
        ip_text(info.ip)
    } else if col == 1 {
        crate::ip_info::lines_text(info@.names)
    } else if col == 2 {
        dec(info.seen_count as nat)
    } else {
        crate::ip_info::services_lines(info@.services)
    }
}

/// The height of a row whose cell the sub-line picker is open on: enough for
/// the picker's lines and three more, or for the row's other column where
/// that is taller.
pub open spec fn sub_line_height(sel: SubLineSelector, ip_info: IpInfo) -> nat {
    let selector = sel.lines_view().len() + 3;
    let other = if sel.col == COL_NAME {
        row_height(0, service_count(ip_info))
    } else if sel.col == COL_SERVICES {
        row_height(ip_info.names.len() as nat, 0)
    } else {
        2
    };
    if selector > other {
        selector
    } else {
        other
    }
}

/// The height of the row whose cell is being picked from: the snapshot lines,
/// "copy all" and two blank lines, or more where the other variable column
/// (names for the service column and the reverse) needs it.
pub fn sub_line_row_height(sel: &SubLineSelector, ip_info: &IpInfo) -> (r: u16)
    requires
        sel.lines_view().len() + 3 <= 0xffff,
        ip_info.names.len() < 0xffff,
        service_count(*ip_info) < 0x7fff,
    ensures
        r as nat == sub_line_height(*sel, *ip_info),
{
    let selector_height = sel.lines.len() as u16 + SUB_LINE_SELECTOR_EXTRA_ROWS;
    let other_height: u16 = if sel.col == COL_NAME {
        let service_count: u16 = match &ip_info.service_instances {
            Some(v) => v.len() as u16,
            None => 0,
        };
        let b = service_count * LINES_PER_SERVICE + ROW_PADDING;
        if b > MIN_ROW_HEIGHT {
            b
        } else {
            MIN_ROW_HEIGHT
        }
    } else if sel.col == COL_SERVICES {
        let hostname_count = ip_info.names.len() as u16;
        let a = hostname_count + ROW_PADDING;
        if a > MIN_ROW_HEIGHT {
            a
        } else {
            MIN_ROW_HEIGHT
        }
    } else {
        MIN_ROW_HEIGHT
    };
    proof {
        assert(sel.lines_view().len() == sel.lines@.len());
    }
    if selector_height > other_height {
        selector_height
    } else {
        other_height
    }
}

/// The width of a column: its content plus padding, at least `min`; while a
/// cell of this column is being picked from, the widest snapshot line plus
/// the cursor instead of the live content.
pub fn column_width(sel: Option<&SubLineSelector>, col: usize, live_width: u16, min: u16) -> (r: u16)
    requires
        live_width < 0xffff,
        sel matches Some(s) ==> s.max_width_view() <= 0xffff - 3,
    ensures
        r == ({
            let w = match sel {
                Some(s) => if s.col == col {
                    s.max_width_view() + 3
                } else {
                    live_width + 1
                },
                None => live_width + 1,
            };
            if w > min {
                w as u16
            } else {
                min
            }
        }),
{
    let w = match sel {
        Some(s) => if s.col == col {
            s.max_line_width() + CURSOR_PREFIX_WIDTH + CELL_PADDING
        } else {
            live_width + CELL_PADDING
        },
        None => live_width + CELL_PADDING,
    };
    if w > min {
        w
    } else {
        min
    }
}

/// The widths of the address, name and count columns (the service column
/// fills the rest).
pub fn table_width(sel: Option<&SubLineSelector>, c: &ColumnConstraints) -> (r: [u16; 3])
    requires
        c.max_ip_len < 0xffff,
        c.max_hostname_len < 0xffff,
        c.max_packets_count_len < 0xffff,
        sel matches Some(s) ==> s.max_width_view() <= 0xffff - 3,
    ensures
        r[0] == column_width_spec(sel, COL_IP, c.max_ip_len, COL_IP_MIN_WIDTH),
        r[1] == column_width_spec(sel, COL_NAME, c.max_hostname_len, COL_NAME_MIN_WIDTH),
        r[2] == column_width_spec(sel, COL_HITS, c.max_packets_count_len, COL_HITS_MIN_WIDTH),
{
    [
        column_width(sel, COL_IP, c.max_ip_len, COL_IP_MIN_WIDTH),
        column_width(sel, COL_NAME, c.max_hostname_len, COL_NAME_MIN_WIDTH),
        column_width(sel, COL_HITS, c.max_packets_count_len, COL_HITS_MIN_WIDTH),
    ]
}

/// See `column_width`.
pub open spec fn column_width_spec(sel: Option<&SubLineSelector>, col: usize, live_width: u16, min: u16) -> u16 {
    let w = match sel {
        Some(s) => if s.col == col {
            s.max_width_view() + 3
        } else {
            live_width + 1
        },
        None => live_width + 1,
    };
    if w > min {
        w as u16
    } else {
        min
    }
}

/// How a host's row is shaded.
#[derive(Debug, Clone, Copy, PartialEq, Eq, Structural)]
pub enum RowShade {
    /// The host is offline.
    Offline,
    /// The host was updated in the last few seconds.
    RecentlyUpdated,
    /// Any other host.
    Normal,
}

/// Seconds within which an update counts as recent.
pub const RECENTLY_UPDATED_SECS: u16 = 5;

/// The shade of a row: offline first, then recently updated, else normal.
pub fn row_shade(is_offline: bool, recently_updated: bool) -> (r: RowShade)
    ensures
        r == if is_offline {
            RowShade::Offline
        } else if recently_updated {
            RowShade::RecentlyUpdated
        } else {
            RowShade::Normal
        },
{
    if is_offline {
        RowShade::Offline
    } else if recently_updated {
        RowShade::RecentlyUpdated
    } else {
        RowShade::Normal
    }
}

/// The cursor mark before a line: `▶ ` on the highlighted one, two spaces on
/// the others.
pub open spec fn marked(line: Seq<char>, highlighted: bool) -> Seq<char> {
    (if highlighted {
        "▶ "@
    } else {
        "  "@
    }) + line
}

/// The lines of the cell being picked from: a blank line, each snapshot line
/// with the cursor mark, the `[ copy all ]` option with its mark, a blank line.
pub open spec fn picker_cell_lines(lines: Seq<Seq<char>>, selected: nat) -> Seq<Seq<char>> {
    seq![Seq::<char>::empty()] + Seq::new(lines.len(), |i: int| marked(lines[i], i == selected)) + seq![
        marked("[ copy all ]"@, selected == lines.len()),
        Seq::<char>::empty(),
    ]
}

fn push_marked(out: &mut Vec<String>, line: &str, highlighted: bool)
    ensures
        texts(final(out)@) == texts(old(out)@).push(marked(line@, highlighted)),
{
    let mut s = String::new();
    if highlighted {
        crate::strings::push_str(&mut s, "▶ ");
    } else {
        crate::strings::push_str(&mut s, "  ");
    }
    crate::strings::push_str(&mut s, line);
    let ghost before = out@;
    out.push(s);
    assert(texts(out@) =~= texts(before).push(marked(line@, highlighted)));
}

/// The lines shown in the cell being picked from (see `picker_cell_lines`).
pub fn picker_cell_text(sel: &SubLineSelector) -> (r: Vec<String>)
    requires
        sel.wf(),
    ensures
        texts(r@) == picker_cell_lines(sel.lines_view(), sel.selected_view()),
{
    let mut out: Vec<String> = Vec::new();
    out.push(String::new());
    assert(texts(out@) =~= seq![Seq::<char>::empty()]);
    let n = sel.lines.len();
    let mut i: usize = 0;
    while i < n
        invariant
            i <= n,
            n == sel.lines@.len(),
            sel.wf(),
            texts(out@) == seq![Seq::<char>::empty()] + Seq::new(
                i as nat,
                |k: int| marked(sel.lines_view()[k], k == sel.selected_view()),
            ),
        decreases n - i,
    {
        push_marked(&mut out, sel.lines[i].as_str(), i == sel.selected);
        assert(Seq::new((i + 1) as nat, |k: int| marked(sel.lines_view()[k], k == sel.selected_view()))
            =~= Seq::new(i as nat, |k: int| marked(sel.lines_view()[k], k == sel.selected_view())).push(
            marked(sel.lines_view()[i as int], i == sel.selected_view()),
        ));
        i = i + 1;
    }
    push_marked(&mut out, "[ copy all ]", sel.selected == n);
    let ghost before = out@;
    out.push(String::new());
    assert(texts(out@) =~= texts(before).push(Seq::<char>::empty()));
    assert(texts(out@) =~= picker_cell_lines(sel.lines_view(), sel.selected_view()));
    out
}

/// The lines of a cell that was just copied from one of its lines: a blank
/// line, the cell's lines (trimmed, empty ones dropped), each marked where it
/// is the copied line, and a blank line.
pub open spec fn flashed_cell_lines(content: Seq<char>, copied: Seq<char>) -> Seq<(Seq<char>, bool)> {
    let ls = cell_lines_of(split_lines(content));
    seq![(Seq::<char>::empty(), false)] + Seq::new(ls.len(), |i: int| (ls[i], ls[i] == copied)) + seq![
        (Seq::<char>::empty(), false),
    ]
}

/// The lines of a just-copied cell and which of them to highlight (see
/// `flashed_cell_lines`).
pub fn flashed_cell_text(content: &str, copied_line: &str) -> (r: Vec<(String, bool)>)
    ensures
        r@.map_values(|p: (String, bool)| (p.0@, p.1)) == flashed_cell_lines(content@, copied_line@),
{
    let lines = cell_lines(content);
    let ghost ls = texts(lines@);
    let mut out: Vec<(String, bool)> = Vec::new();
    out.push((String::new(), false));
    let n = lines.len();
    let mut i: usize = 0;
    while i < n
        invariant
            i <= n,
            n == lines@.len(),
            ls == texts(lines@),
            out@.map_values(|p: (String, bool)| (p.0@, p.1)) == seq![(Seq::<char>::empty(), false)] + Seq::new(
                i as nat,
                |k: int| (ls[k], ls[k] == copied_line@),
            ),
        decreases n - i,
    {
        let same = crate::strings::str_eq(lines[i].as_str(), copied_line);
        let ghost before = out@;
        out.push((lines[i].clone(), same));
        assert(out@.map_values(|p: (String, bool)| (p.0@, p.1)) =~= before.map_values(
            |p: (String, bool)| (p.0@, p.1),
        ).push((ls[i as int], ls[i as int] == copied_line@)));
        assert(Seq::new((i + 1) as nat, |k: int| (ls[k], ls[k] == copied_line@)) =~= Seq::new(
            i as nat,
            |k: int| (ls[k], ls[k] == copied_line@),
        ).push((ls[i as int], ls[i as int] == copied_line@)));
        i = i + 1;
    }
    let ghost before = out@;
    out.push((String::new(), false));
    assert(out@.map_values(|p: (String, bool)| (p.0@, p.1)) =~= before.map_values(
        |p: (String, bool)| (p.0@, p.1),
    ).push((Seq::<char>::empty(), false)));
    assert(out@.map_values(|p: (String, bool)| (p.0@, p.1)) =~= flashed_cell_lines(content@, copied_line@));
    out
}

/// The first row whose host has address `ip`.
pub open spec fn first_row_of(rows: Seq<&IpInfo>, ip: IpAddress, k: int) -> bool {
    0 <= k < rows.len() && rows[k].ip == ip && forall|j: int| 0 <= j < k ==> rows[j].ip != ip
}

impl TableNav {
    /// While a line of a cell is being picked, keeps the selection on the
    /// picked host's row, wherever new hosts have moved it; with the host
    /// gone, nothing changes.
    pub fn follow_picked_row(&mut self, rows: &[&IpInfo], sel: &SubLineSelector)
        ensures
            (exists|k: int| first_row_of(rows@, sel.ip, k)) ==> ({
                let k = choose|k: int| first_row_of(rows@, sel.ip, k);
                &&& final(self).selected == Some(k as usize)
                &&& final(self).scroll_position == k
                &&& final(self).selected_column == old(self).selected_column
            }),
            !(exists|k: int| first_row_of(rows@, sel.ip, k)) ==> *final(self) == *old(self),
    {
        let mut k: usize = 0;
        while k < rows.len()
            invariant
                k <= rows@.len(),
                *self == *old(self),
                forall|j: int| 0 <= j < k ==> rows@[j].ip != sel.ip,
            decreases rows@.len() - k,
        {
            if sel.matches_ip(rows[k]) {
                assert(first_row_of(rows@, sel.ip, k as int));
                proof {
                    let c = choose|c: int| first_row_of(rows@, sel.ip, c);
                    if c < k {
                        assert(rows@[c].ip != sel.ip);
                    }
                    if c > k {
                        assert(rows@[k as int].ip != sel.ip);
                    }
                    assert(c == k);
                }
                self.selected = Some(k);
                self.scroll_position = k * ITEM_HEIGHT;
                return;
            }
            k = k + 1;
        }
    }
}

/// The search box's narrowest width.
pub const SEARCH_BOX_WIDTH: u16 = 15;
/// The search box's height: the text row and two borders.
pub const SEARCH_BOX_HEIGHT: u16 = 3;

/// Where the search box goes over the table: as wide as its text plus 3, at
/// least 15, at most the table's width less 1; 3 rows high, at most the
/// table's height less 1; centred horizontally on the first row.
pub fn search_box_rect(content_len: usize, table_width: u16, table_height: u16) -> (r: crate::option_selector::ScreenRect)
    requires
        table_width >= 1,
        table_height >= 1,
        (content_len as u16) + 3 <= u16::MAX,
    ensures
        ({
            let want = if (content_len as u16) + 3 > SEARCH_BOX_WIDTH {
                (content_len as u16) + 3
            } else {
                SEARCH_BOX_WIDTH as int
            };
            let width = if want < table_width - 1 {
                want
            } else {
                table_width - 1
            };
            &&& r.width == width
            &&& r.height == if SEARCH_BOX_HEIGHT < table_height - 1 {
                SEARCH_BOX_HEIGHT as int
            } else {
                table_height - 1
            }
            &&& r.x == (table_width - width) / 2
            &&& r.y == 0
        }),
{
    let text: u16 = (content_len as u16) + 3;
    let want: u16 = if text > SEARCH_BOX_WIDTH {
        text
    } else {
        SEARCH_BOX_WIDTH
    };
    let room: u16 = table_width - 1;
    let width: u16 = if want < room {
        want
    } else {
        room
    };
    let rows: u16 = table_height - 1;
    let height: u16 = if SEARCH_BOX_HEIGHT < rows {
        SEARCH_BOX_HEIGHT
    } else {
        rows
    };
    crate::option_selector::ScreenRect { x: table_width.saturating_sub(width) / 2, y: 0, width, height }
}

/// How long a copied cell flashes, in nanoseconds (200 ms).
pub const COPY_FLASH_NANOS: u32 = 200_000_000;

/// The cell last copied, for the flash that confirms the copy: a whole cell,
/// or one line of it, identified by its text so that the right line flashes
/// even where new lines came in since.
#[derive(Debug)]
pub struct CopiedCell {
    pub ip: IpAddress,
    pub col: usize,
    pub line_text: Option<String>,
    pub time: std::time::Instant,
}

impl CopiedCell {
    /// A whole cell copied now.
    pub fn new(ip: IpAddress, col: usize) -> (r: Self)
        ensures
            r.ip == ip,
            r.col == col,
            r.line_text is None,
    {
        CopiedCell { ip, col, line_text: None, time: crate::clock::instant_now() }
    }

    /// One line of a cell copied now.
    pub fn new_sub_line(ip: IpAddress, col: usize, line_text: String) -> (r: Self)
        ensures
            r.ip == ip,
            r.col == col,
            r.line_text == Some(line_text),
    {
        CopiedCell { ip, col, line_text: Some(line_text), time: crate::clock::instant_now() }
    }

    /// Whether the copy was less than 200 ms ago; the answer depends on the clock.
    pub fn copied_recently(&self) -> bool {
        let (secs, nanos) = crate::clock::elapsed_parts(&self.time);
        crate::clock::span_less(secs, nanos, 0, COPY_FLASH_NANOS)
    }

    /// Whether this is the cell of `info` in column `col`.
    pub fn matches_ip_and_col(&self, info: &IpInfo, col: usize) -> (r: bool)
        ensures
            r == (self.ip == info.ip && self.col == col),
    {
        self.ip == info.ip && self.col == col
    }

    /// The copied line's text, or none where the whole cell was copied.
    pub fn line_text(&self) -> (r: Option<&str>)
        ensures
            match r {
                Some(t) => self.line_text matches Some(l) && t@ == l@,
                None => self.line_text is None,
            },
    {
        match &self.line_text {
            Some(l) => Some(l.as_str()),
            None => None,
        }
    }
}

/// Lines joined by line breaks.
pub fn join_lines(v: &Vec<String>) -> (r: String)
    ensures
        r@ == joined_lines(texts(v@)),
{
    let mut s = String::new();
    let mut i: usize = 0;
    while i < v.len()
        invariant
            i <= v.len(),
            s@ == joined_lines(texts(v@).take(i as int)),
        decreases v.len() - i,
    {
        let ghost t = texts(v@);
        assert(t.take(i + 1).drop_last() =~= t.take(i as int));
        assert(t.take(i + 1).last() == v@[i as int]@);
        if i > 0 {
            s.push('\n');
        }
        push_str(&mut s, v[i].as_str());
        proof {
            if i == 0 {
                assert(t.take(0).len() == 0);
            }
        }
        assert(s@ =~= joined_lines(t.take(i + 1)));
        i = i + 1;
    }
    assert(texts(v@).take(v.len() as int) =~= texts(v@));
    s
}

/// The position of the picked line in the live lines: the cursor, moved up
/// to the last live line where the cell has fewer lines now.
pub open spec fn clamped_line(selected: nat, live_len: nat) -> int {
    if selected < live_len {
        selected as int
    } else {
        live_len - 1
    }
}

/// Confirms the picked line against the cell's live lines (`live`: its
/// current content, trimmed, empty lines dropped): "copy all" copies all the
/// live lines joined by line breaks and flashes the whole cell; otherwise the
/// live line at the cursor, moved up to the last live line where there are
/// fewer now, is copied and flashes. Nothing is copied from a cell that has
/// no live line left.
pub fn sub_line_confirm(sel: &SubLineSelector, live: &Vec<String>) -> (r: Option<(String, CopiedCell)>)
    requires
        sel.wf(),
    ensures
        sel.selected_view() == sel.lines_view().len() ==> (r matches Some(p) && p.0@ == joined_lines(
            texts(live@),
        ) && p.1.ip == sel.ip && p.1.col == sel.col && p.1.line_text is None),
        sel.selected_view() < sel.lines_view().len() && live@.len() == 0 ==> r is None,
        sel.selected_view() < sel.lines_view().len() && live@.len() > 0 ==> (r matches Some(p)
            && p.0@ == live@[clamped_line(sel.selected_view(), live@.len())]@ && p.1.ip == sel.ip
            && p.1.col == sel.col && (p.1.line_text matches Some(t) && t@ == p.0@)),
{
    if sel.is_copy_all() {
        let text = join_lines(live);
        return Some((text, CopiedCell::new(sel.ip, sel.col)));
    }
    if live.len() == 0 {
        return None;
    }
    let k = if sel.selected < live.len() {
        sel.selected
    } else {
        live.len() - 1
    };
    let text = live[k].clone();
    let line = text.clone();
    Some((text, CopiedCell::new_sub_line(sel.ip, sel.col, line)))
}

/// The height of a host's row: the sub-line picker's height where the picker
/// is open on this host, the row's own height otherwise.
pub fn row_height_for(sel: Option<&SubLineSelector>, ip_info: &IpInfo) -> (r: u16)
    requires
        match sel {
            Some(s) => s.lines_view().len() + 3 <= 0xffff,
            None => true,
        },
        ip_info.names.len() < 0xffff,
        service_count(*ip_info) < 0x7fff,
    ensures
        r as nat == match sel {
            Some(s) => if s.ip == ip_info.ip {
                sub_line_height(*s, *ip_info)
            } else {
                row_height(ip_info.names.len() as nat, service_count(*ip_info))
            },
            None => row_height(ip_info.names.len() as nat, service_count(*ip_info)),
        },
{
    match sel {
        Some(s) => if s.matches_ip(ip_info) {
            sub_line_row_height(s, ip_info)
        } else {
            calc_row_height(ip_info)
        },
        None => calc_row_height(ip_info),
    }
}

} // verus!
