//! Editing a config value from the text the user typed.
use vstd::prelude::*;
use crate::error_box::ErrorBox;
use crate::lexical::texts;
use crate::resource_scaling::MAX_IO_THREADS;
use crate::strings::{ascii_lower, dec, lower_seq, push_decimal, push_str, char_ascii_lower};

verus! {

/// A decimal digit.
pub open spec fn is_digit(c: char) -> bool {
    '0' <= c && c <= '9'
}

/// The value of a string of decimal digits.
pub open spec fn digits_value(s: Seq<char>) -> nat
    decreases s.len(),
{
    if s.len() == 0 {
        0
    } else {
        digits_value(s.drop_last()) * 10 + ((s.last() as nat) - ('0' as nat)) as nat
    }
}

/// Every character is a decimal digit.
pub open spec fn all_digits(d: Seq<char>) -> bool {
    forall|i: int| 0 <= i < d.len() ==> is_digit(#[trigger] d[i])
}

/// What `str::parse` gives for an unsigned integer type whose largest value
/// is `max`: an optional `+`, then one or more decimal digits whose value is
/// at most `max`; anything else is refused.
pub open spec fn parse_unsigned(s: Seq<char>, max: nat) -> Option<nat> {
    let d = if s.len() > 0 && s[0] == '+' {
        s.drop_first()
    } else {
        s
    };
    if d.len() > 0 && all_digits(d) && digits_value(d) <= max {
        Some(digits_value(d))
    } else {
        None
    }
}

proof fn lemma_digits_grow(s: Seq<char>, i: int)
    requires
        0 <= i <= s.len(),
        forall|k: int| 0 <= k < s.len() ==> is_digit(#[trigger] s[k]),
    ensures
        digits_value(s.take(i)) <= digits_value(s),
    decreases s.len() - i,
{
    if i < s.len() {
        lemma_digits_grow(s, i + 1);
        assert(s.take(i + 1).drop_last() =~= s.take(i));
    } else {
        assert(s.take(i) =~= s);
    }
}

/// Parses an unsigned decimal number of at most `max`, as `str::parse` does.
pub fn parse_unsigned_max(s: &str, max: u64) -> (r: Option<u64>)
    ensures
        match parse_unsigned(s@, max as nat) {
            Some(v) => r == Some(v as u64),
            None => r is None,
        },
{
    let n = s.unicode_len();
    let start: usize = if n > 0 && s.get_char(0) == '+' {
        1
    } else {
        0
    };
    let ghost d = if s@.len() > 0 && s@[0] == '+' {
        s@.drop_first()
    } else {
        s@
    };
    assert(d =~= s@.skip(start as int));
    if start >= n {
        return None;
    }
    let mut v: u128 = 0;
    let mut i: usize = start;
    while i < n
        invariant
            n == s@.len(),
            start <= i <= n,
            d == s@.skip(start as int),
            d == (if s@.len() > 0 && s@[0] == '+' {
                s@.drop_first()
            } else {
                s@
            }),
            forall|k: int| 0 <= k < i - start ==> is_digit(#[trigger] d[k]),
            v == digits_value(d.take(i - start)),
            v <= max,
        decreases n - i,
    {
        let c = s.get_char(i);
        let ghost j = i - start;
        assert(d[j] == c);
        if !('0' <= c && c <= '9') {
            assert(!is_digit(d[j]));
            assert(j < d.len());
            assert(!all_digits(d));
            return None;
        }
        let digit: u128 = (c as u32 - 48) as u128;
        assert(d.take(j + 1).drop_last() =~= d.take(j));
        v = v * 10 + digit;
        assert(d.take(j + 1).last() == c);
        assert(v == digits_value(d.take(j + 1)));
        if v > max as u128 {
            proof {
                // Every digit read so far; the remaining ones only raise the value.
                if all_digits(d) {
                    lemma_digits_grow(d, j + 1);
                }
            }
            return None;
        }
        i = i + 1;
    }
    assert(d.take(n - start) =~= d);
    Some(v as u64)
}

/// The `u16` a text spells (see `parse_unsigned`).
pub fn parse_u16(s: &str) -> (r: Option<u16>)
    ensures
        match parse_unsigned(s@, 0xffff) {
            Some(v) => r == Some(v as u16),
            None => r is None,
        },
{
    match parse_unsigned_max(s, 0xffff) {
        Some(v) => Some(v as u16),
        None => None,
    }
}

/// The `u32` a text spells (see `parse_unsigned`).
pub fn parse_u32(s: &str) -> (r: Option<u32>)
    ensures
        match parse_unsigned(s@, 0xffff_ffff) {
            Some(v) => r == Some(v as u32),
            None => r is None,
        },
{
    match parse_unsigned_max(s, 0xffff_ffff) {
        Some(v) => Some(v as u32),
        None => None,
    }
}

/// ASCII white space as `u8::is_ascii_whitespace` has it: space, tab, line
/// feed, form feed and carriage return.
pub open spec fn is_ascii_white(c: char) -> bool {
    c == ' ' || c == '\t' || c == '\n' || c == '\x0C' || c == '\r'
}

/// The text without ASCII white space at either end (`str::trim_ascii`).
pub open spec fn trimmed_ascii(s: Seq<char>) -> Seq<char>
    decreases s.len(),
{
    if s.len() == 0 {
        s
    } else if is_ascii_white(s[0]) {
        trimmed_ascii(s.drop_first())
    } else if is_ascii_white(s.last()) {
        trimmed_ascii(s.drop_last())
    } else {
        s
    }
}

fn trim_ascii_range(s: &str, from: usize, to: usize) -> (r: String)
    requires
        from <= to <= s@.len(),
    ensures
        r@ == trimmed_ascii(s@.subrange(from as int, to as int)),
    decreases to - from,
{
    if from == to {
        return String::new();
    }
    let c = s.get_char(from);
    if c == ' ' || c == '\t' || c == '\n' || c == '\x0C' || c == '\r' {
        assert(s@.subrange(from as int, to as int).drop_first() =~= s@.subrange(from + 1, to as int));
        return trim_ascii_range(s, from + 1, to);
    }
    let e = s.get_char(to - 1);
    if e == ' ' || e == '\t' || e == '\n' || e == '\x0C' || e == '\r' {
        assert(s@.subrange(from as int, to as int).drop_last() =~= s@.subrange(from as int, to - 1));
        return trim_ascii_range(s, from, to - 1);
    }
    s.substring_char(from, to).to_owned()
}

/// A text without ASCII white space at either end.
pub fn trim_ascii(s: &str) -> (r: String)
    ensures
        r@ == trimmed_ascii(s@),
{
    let n = s.unicode_len();
    assert(s@.subrange(0, n as int) =~= s@);
    trim_ascii_range(s, 0, n)
}

/// The pieces of a text between commas (`str::split(',')`).
pub open spec fn comma_pieces(s: Seq<char>) -> Seq<Seq<char>>
    decreases s.len(),
{
    if s.len() == 0 {
        seq![Seq::empty()]
    } else {
        let rest = comma_pieces(s.drop_last());
        if s.last() == ',' {
            rest.push(Seq::empty())
        } else {
            rest.update(rest.len() - 1, rest.last().push(s.last()))
        }
    }
}

proof fn lemma_comma_pieces_nonempty(s: Seq<char>)
    ensures
        comma_pieces(s).len() >= 1,
    decreases s.len(),
{
    if s.len() > 0 {
        lemma_comma_pieces_nonempty(s.drop_last());
    }
}

/// The pieces between commas, each without ASCII white space at either end.
pub open spec fn trimmed_pieces(s: Seq<char>) -> Seq<Seq<char>> {
    comma_pieces(s).map_values(|p: Seq<char>| trimmed_ascii(p))
}

/// The pieces of a text between commas, each without ASCII white space at
/// either end.
pub fn split_commas_trimmed(s: &str) -> (r: Vec<String>)
    ensures
        texts(r@) == trimmed_pieces(s@),
{
    let n = s.unicode_len();
    let mut r: Vec<String> = Vec::new();
    let mut start: usize = 0;
    let mut i: usize = 0;
    while i < n
        invariant
            n == s@.len(),
            start <= i <= n,
            ({
                let p = comma_pieces(s@.take(i as int));
                &&& p.last() == s@.subrange(start as int, i as int)
                &&& texts(r@) == p.drop_last().map_values(|q: Seq<char>| trimmed_ascii(q))
            }),
        decreases n - i,
    {
        proof {
            lemma_comma_pieces_nonempty(s@.take(i as int));
            assert(s@.take(i + 1).drop_last() =~= s@.take(i as int));
        }
        let c = s.get_char(i);
        if c == ',' {
            let t = trim_ascii_range(s, start, i);
            let ghost old_r = r@;
            r.push(t);
            proof {
                let p = comma_pieces(s@.take(i as int));
                let p2 = comma_pieces(s@.take(i + 1));
                assert(p2 == p.push(Seq::empty()));
                assert(p2.drop_last() =~= p);
                assert(p.drop_last().push(p.last()) =~= p);
                assert(texts(r@) =~= texts(old_r).push(trimmed_ascii(p.last())));
                assert(p.map_values(|q: Seq<char>| trimmed_ascii(q)) =~= p.drop_last().map_values(
                    |q: Seq<char>| trimmed_ascii(q),
                ).push(trimmed_ascii(p.last())));
            }
            start = i + 1;
            assert(s@.subrange(start as int, i + 1) =~= Seq::<char>::empty());
        } else {
            proof {
                let p = comma_pieces(s@.take(i as int));
                let p2 = comma_pieces(s@.take(i + 1));
                assert(s@.take(i + 1).last() == c);
                assert(p2 == p.update(p.len() - 1, p.last().push(c)));
                assert(p2.drop_last() =~= p.drop_last());
                assert(p2.last() =~= s@.subrange(start as int, i + 1));
            }
        }
        i = i + 1;
    }
    proof {
        lemma_comma_pieces_nonempty(s@.take(n as int));
        assert(s@.take(n as int) =~= s@);
    }
    let t = trim_ascii_range(s, start, n);
    let ghost old_r = r@;
    r.push(t);
    proof {
        let p = comma_pieces(s@);
        assert(p.drop_last().push(p.last()) =~= p);
        assert(texts(r@) =~= texts(old_r).push(trimmed_ascii(p.last())));
        assert(p.map_values(|q: Seq<char>| trimmed_ascii(q)) =~= p.drop_last().map_values(
            |q: Seq<char>| trimmed_ascii(q),
        ).push(trimmed_ascii(p.last())));
    }
    r
}

/// The numbers among the pieces, in order, each kept once.
pub open spec fn number_list(pieces: Seq<Seq<char>>) -> Seq<u16>
    decreases pieces.len(),
{
    if pieces.len() == 0 {
        Seq::empty()
    } else {
        let rest = number_list(pieces.drop_last());
        match parse_unsigned(pieces.last(), 0xffff) {
            Some(v) => if rest.contains(v as u16) {
                rest
            } else {
                rest.push(v as u16)
            },
            None => rest,
        }
    }
}

/// The pieces in order, each kept once.
pub open spec fn unique_texts(pieces: Seq<Seq<char>>) -> Seq<Seq<char>>
    decreases pieces.len(),
{
    if pieces.len() == 0 {
        Seq::empty()
    } else {
        let rest = unique_texts(pieces.drop_last());
        if rest.contains(pieces.last()) {
            rest
        } else {
            rest.push(pieces.last())
        }
    }
}

/// The error text of a pattern the regular expression engine refuses, none
/// for one it accepts.
pub uninterp spec fn regex_error(pattern: Seq<char>) -> Option<Seq<char>>;

/// Checks a regular expression.
///
/// Calls `regex::Regex::new` and returns the `Display` text of its error;
/// both depend on the pattern alone and are named `regex_error`.
#[verifier::external_body]
fn check_regex(pattern: &str) -> (r: Option<String>)
    ensures
        match regex_error(pattern@) {
            Some(e) => r matches Some(s) && s@ == e,
            None => r is None,
        },
{
    match regex::Regex::new(pattern) {
        Ok(_) => None,
        Err(e) => Some(e.to_string()),
    }
}

/// How many I/O threads a scan uses.
#[derive(Debug, Clone, Copy, PartialEq, Eq, Structural)]
pub enum IoThreads {
    /// Chosen from the machine's resources.
    Dynamic,
    /// A fixed count, never zero.
    Fixed(u16),
}

/// An editable config value.
#[derive(Debug)]
pub enum ConfigValue {
    Toggle(bool),
    NumberNonZeroU16(u16),
    /// A thread count of at least `min_threads` and at most `MAX_IO_THREADS`, or dynamic.
    ScanIoThreads { val: IoThreads, min_threads: u16 },
    Numberu32(u32),
    NumberList(Option<Vec<u16>>),
    RegexStringList(Vec<String>),
    StringSelect(String),
}

/// A config value as plain values.
pub enum ValueView {
    Toggle(bool),
    NumberNonZeroU16(u16),
    ScanIoThreads(IoThreads, u16),
    Numberu32(u32),
    NumberList(Option<Seq<u16>>),
    RegexStringList(Seq<Seq<char>>),
    StringSelect(Seq<char>),
}

impl View for ConfigValue {
    type V = ValueView;

    open spec fn view(&self) -> ValueView {
        match self {
            ConfigValue::Toggle(b) => ValueView::Toggle(*b),
            ConfigValue::NumberNonZeroU16(v) => ValueView::NumberNonZeroU16(*v),
            ConfigValue::ScanIoThreads { val, min_threads } => ValueView::ScanIoThreads(*val, *min_threads),
            ConfigValue::Numberu32(v) => ValueView::Numberu32(*v),
            ConfigValue::NumberList(o) => ValueView::NumberList(
                match o {
                    Some(v) => Some(v@),
                    None => None,
                },
            ),
            ConfigValue::RegexStringList(v) => ValueView::RegexStringList(texts(v@)),
            ConfigValue::StringSelect(s) => ValueView::StringSelect(s@),
        }
    }
}

/// The text is `dynamic` in any ASCII case.
pub open spec fn says_dynamic(t: Seq<char>) -> bool {
    lower_seq(t) == "dynamic"@
}

/// The first pattern whose compilation fails, among the first `k`.
pub open spec fn first_bad_pattern(p: Seq<Seq<char>>, k: int) -> Option<int>
    decreases k,
{
    if k <= 0 {
        None
    } else {
        match first_bad_pattern(p, k - 1) {
            Some(i) => Some(i),
            None => if regex_error(p[k - 1]) is Some {
                Some(k - 1)
            } else {
                None
            },
        }
    }
}

/// The value after confirming the typed text `txt` (already trimmed), or the
/// error text: a non-zero `u16`; a thread count (or `dynamic` in any case)
/// within the field's range; a `u32`; a list of `u16` between commas
/// (pieces that are no number are skipped, repeats dropped); a list of
/// regular expressions between commas (repeats dropped, all must compile).
pub open spec fn confirmed_value(v: ValueView, txt: Seq<char>) -> Result<ValueView, Seq<char>> {
    match v {
        ValueView::NumberNonZeroU16(_) => match parse_unsigned(txt, 0xffff) {
            None => Err("Could not parse as u16"@),
            Some(n) => if n == 0 {
                Err("Expected Non-zero u16, got '0'"@)
            } else {
                Ok(ValueView::NumberNonZeroU16(n as u16))
            },
        },
        ValueView::ScanIoThreads(_, min) => if says_dynamic(txt) {
            Ok(ValueView::ScanIoThreads(IoThreads::Dynamic, min))
        } else {
            match parse_unsigned(txt, 0xffff) {
                Some(n) => if n != 0 && min <= n && n <= MAX_IO_THREADS {
                    Ok(ValueView::ScanIoThreads(IoThreads::Fixed(n as u16), min))
                } else {
                    Err(threads_error(min))
                },
                None => Err(threads_error(min)),
            }
        },
        ValueView::Numberu32(_) => match parse_unsigned(txt, 0xffff_ffff) {
            Some(n) => Ok(ValueView::Numberu32(n as u32)),
            None => Err("Could not parse '"@ + txt + "' as u32"@),
        },
        ValueView::NumberList(_) => Ok(
            ValueView::NumberList(
                Some(number_list(trimmed_pieces(txt))),
            ),
        ),
        ValueView::RegexStringList(_) => {
            let pats = unique_texts(trimmed_pieces(txt));
            match first_bad_pattern(pats, pats.len() as int) {
                Some(i) => Err("Invalid Regex pattern '"@ + pats[i] + "'\n"@ + regex_error(pats[i])->0),
                None => Ok(ValueView::RegexStringList(pats)),
            }
        },
        _ => Ok(v),
    }
}

/// The error text for a thread count out of range.
pub open spec fn threads_error(min: u16) -> Seq<char> {
    "Valid values are "@ + dec(min as nat) + "-"@ + dec(MAX_IO_THREADS as nat) + " or 'dynamic'"@
}

fn push_number_once(list: &mut Vec<u16>, n: u16)
    ensures
        final(list)@ == if old(list)@.contains(n) {
            old(list)@
        } else {
            old(list)@.push(n)
        },
{
    let mut i: usize = 0;
    while i < list.len()
        invariant
            i <= list.len(),
            forall|k: int| 0 <= k < i ==> list@[k] != n,
        decreases list.len() - i,
    {
        if list[i] == n {
            return;
        }
        i = i + 1;
    }
    list.push(n);
}

/// Confirms the typed text for a value (see `confirmed_value`).
pub fn confirm_value(item: &ConfigValue, txt: &str) -> (r: Result<ConfigValue, ErrorBox>)
    ensures
        match confirmed_value(item@, txt@) {
            Ok(v) => r matches Ok(c) && c@ == v,
            Err(e) => r matches Err(b) && b.msg@ == e,
        },
{
    proof {
        reveal_strlit("Could not parse as u16");
        reveal_strlit("Expected Non-zero u16, got '0'");
        reveal_strlit("Could not parse '");
        reveal_strlit("' as u32");
        reveal_strlit("dynamic");
        reveal_strlit("Valid values are ");
        reveal_strlit("-");
        reveal_strlit(" or 'dynamic'");
        reveal_strlit("Invalid Regex pattern '");
        reveal_strlit("'\n");
    }
    match item {
        ConfigValue::NumberNonZeroU16(_) => match parse_u16(txt) {
            None => Err(ErrorBox::new("Could not parse as u16")),
            Some(num) => if num == 0 {
                Err(ErrorBox::new("Expected Non-zero u16, got '0'"))
            } else {
                Ok(ConfigValue::NumberNonZeroU16(num))
            },
        },
        ConfigValue::ScanIoThreads { val: _, min_threads } => {
            let min = *min_threads;
            let n = txt.unicode_len();
            let mut dynamic = n == 7;
            let target = "dynamic";
            let mut i: usize = 0;
            while i < n && dynamic
                invariant
                    n == txt@.len(),
                    i <= n,
                    target@ == "dynamic"@,
                    target@.len() == 7,
                    !dynamic ==> (n != 7 || exists|k: int| 0 <= k < i && ascii_lower(txt@[k]) != target@[k]),
                    dynamic ==> n == 7,
                    dynamic ==> forall|k: int| 0 <= k < i ==> ascii_lower(txt@[k]) == target@[k],
                decreases n - i,
            {
                if char_ascii_lower(txt.get_char(i)) != target.get_char(i) {
                    dynamic = false;
                }
                i = i + 1;
            }
            proof {
                if dynamic {
                    assert(lower_seq(txt@) =~= "dynamic"@);
                } else if lower_seq(txt@) == "dynamic"@ {
                    assert(lower_seq(txt@).len() == txt@.len());
                    if n == 7 {
                        let k = choose|k: int| 0 <= k < i && ascii_lower(txt@[k]) != target@[k];
                        assert(lower_seq(txt@)[k] == ascii_lower(txt@[k]));
                    }
                }
            }
            if dynamic {
                return Ok(ConfigValue::ScanIoThreads { val: IoThreads::Dynamic, min_threads: min });
            }
            let ok = match parse_u16(txt) {
                Some(num) => if num != 0 && min <= num && num as usize <= MAX_IO_THREADS {
                    Some(num)
                } else {
                    None
                },
                None => None,
            };
            match ok {
                Some(num) => Ok(ConfigValue::ScanIoThreads { val: IoThreads::Fixed(num), min_threads: min }),
                None => {
                    let mut msg = String::new();
                    push_str(&mut msg, "Valid values are ");
                    push_decimal(&mut msg, min as u64);
                    push_str(&mut msg, "-");
                    push_decimal(&mut msg, MAX_IO_THREADS as u64);
                    push_str(&mut msg, " or 'dynamic'");
                    assert(msg@ =~= threads_error(min));
                    Err(ErrorBox::new(msg.as_str()))
                },
            }
        },
        ConfigValue::Numberu32(_) => match parse_u32(txt) {
            Some(num) => Ok(ConfigValue::Numberu32(num)),
            None => {
                let mut msg = String::new();
                push_str(&mut msg, "Could not parse '");
                push_str(&mut msg, txt);
                push_str(&mut msg, "' as u32");
                assert(msg@ =~= "Could not parse '"@ + txt@ + "' as u32"@);
                Err(ErrorBox::new(msg.as_str()))
            },
        },
        ConfigValue::NumberList(_) => {
            let pieces = split_commas_trimmed(txt);
            let ghost ps = texts(pieces@);
            let mut list: Vec<u16> = Vec::new();
            let mut i: usize = 0;
            while i < pieces.len()
                invariant
                    i <= pieces.len(),
                    ps == texts(pieces@),
                    list@ == number_list(ps.take(i as int)),
                decreases pieces.len() - i,
            {
                assert(ps.take(i + 1).drop_last() =~= ps.take(i as int));
                assert(ps.take(i + 1).last() == pieces@[i as int]@);
                match parse_u16(pieces[i].as_str()) {
                    Some(num) => push_number_once(&mut list, num),
                    None => {},
                }
                i = i + 1;
            }
            assert(ps.take(pieces.len() as int) =~= ps);
            Ok(ConfigValue::NumberList(Some(list)))
        },
        ConfigValue::RegexStringList(_) => {
            let pieces = split_commas_trimmed(txt);
            let ghost ps = texts(pieces@);
            let mut pats: Vec<String> = Vec::new();
            let mut i: usize = 0;
            while i < pieces.len()
                invariant
                    i <= pieces.len(),
                    ps == texts(pieces@),
                    texts(pats@) == unique_texts(ps.take(i as int)),
                decreases pieces.len() - i,
            {
                assert(ps.take(i + 1).drop_last() =~= ps.take(i as int));
                assert(ps.take(i + 1).last() == pieces@[i as int]@);
                if !crate::lexical::texts_contain(&pats, pieces[i].as_str()) {
                    let ghost before = pats@;
                    let c = pieces[i].clone();
                    pats.push(c);
                    assert(texts(pats@) =~= texts(before).push(pieces@[i as int]@));
                }
                i = i + 1;
            }
            assert(ps.take(pieces.len() as int) =~= ps);
            let ghost pv = texts(pats@);
            assert(pv == unique_texts(trimmed_pieces(txt@)));
            let mut k: usize = 0;
            while k < pats.len()
                invariant
                    k <= pats.len(),
                    pv == texts(pats@),
                    pv == unique_texts(trimmed_pieces(txt@)),
                    item@ is RegexStringList,
                    first_bad_pattern(pv, k as int) is None,
                decreases pats.len() - k,
            {
                assert(pv[k as int] == pats@[k as int]@);
                match check_regex(pats[k].as_str()) {
                    Some(e) => {
                        let mut msg = String::new();
                        push_str(&mut msg, "Invalid Regex pattern '");
                        push_str(&mut msg, pats[k].as_str());
                        push_str(&mut msg, "'\n");
                        push_str(&mut msg, e.as_str());
                        assert(first_bad_pattern(pv, k + 1) == Some(k as int));
                        proof {
                            lemma_first_bad_stays(pv, k + 1, pv.len() as int);
                        }
                        assert(msg@ =~= "Invalid Regex pattern '"@ + pv[k as int] + "'\n"@ + regex_error(pv[k as int])->0);
                        return Err(ErrorBox::new(msg.as_str()));
                    },
                    None => {},
                }
                k = k + 1;
            }
            Ok(ConfigValue::RegexStringList(pats))
        },
        ConfigValue::Toggle(b) => Ok(ConfigValue::Toggle(*b)),
        ConfigValue::StringSelect(s) => Ok(ConfigValue::StringSelect(s.clone())),
    }
}

proof fn lemma_first_bad_stays(p: Seq<Seq<char>>, k: int, m: int)
    requires
        0 <= k <= m,
        first_bad_pattern(p, k) is Some,
    ensures
        first_bad_pattern(p, m) == first_bad_pattern(p, k),
    decreases m - k,
{
    if k < m {
        lemma_first_bad_stays(p, k, m - 1);
    }
}

/// The outcome of the confirm action on a config item.
pub open spec fn confirm_action(editor: Option<Seq<char>>, v: ValueView, value_str: Seq<char>) -> (
    Option<Seq<char>>,
    Result<ValueView, Seq<char>>,
) {
    match v {
        ValueView::Toggle(b) => (editor, Ok(ValueView::Toggle(!b))),
        ValueView::StringSelect(_) => (editor, Ok(v)),
        _ => match editor {
            None => (Some(value_str), Ok(v)),
            Some(line) => (editor, confirmed_value(v, trimmed_ascii(line))),
        },
    }
}

/// Confirms the selected config item: a toggle flips; a picked value is left
/// to its picker; any other value first opens the text editor on its current
/// text (`value_str`), and once the editor is open its first line, trimmed,
/// is taken in (see `confirmed_value`), the value staying as it was on an
/// error. `editor` holds the first line of the open editor.
pub fn handle_confirm_action(editor: &mut Option<String>, item: &mut ConfigValue, value_str: &str) -> (r: Result<(), ErrorBox>)
    ensures
        ({
            let (e, out) = confirm_action(
                match *old(editor) {
                    Some(s) => Some(s@),
                    None => None,
                },
                old(item)@,
                value_str@,
            );
            &&& e == match *final(editor) {
                Some(s) => Some(s@),
                None => None,
            }
            &&& match out {
                Ok(v) => r is Ok && final(item)@ == v,
                Err(m) => r matches Err(b) && b.msg@ == m && final(item)@ == old(item)@,
            }
        }),
{
    match item {
        ConfigValue::Toggle(b) => {
            *b = !*b;
            return Ok(());
        },
        ConfigValue::StringSelect(_) => {
            return Ok(());
        },
        _ => {},
    }
    let txt = match editor {
        Some(line) => trim_ascii(line.as_str()),
        None => {
            *editor = Some(value_str.to_owned());
            return Ok(());
        },
    };
    match confirm_value(item, txt.as_str()) {
        Ok(v) => {
            *item = v;
            Ok(())
        },
        Err(e) => Err(e),
    }
}

/// What a key does on a tab of the config window.
#[derive(Debug, Clone, Copy, PartialEq, Eq, Structural)]
pub enum TabInput {
    /// Moves the open option picker up.
    SelectorUp,
    /// Moves the open option picker down.
    SelectorDown,
    /// Keeps the picked option and closes the picker.
    SelectorConfirm,
    /// Restores the option the picker opened on and closes it.
    SelectorCancel,
    /// Acts on the selected item: opens its picker or editor, or applies it.
    Select,
    /// The previous item.
    Up,
    /// The next item.
    Down,
    /// Closes the text editor.
    CloseEditor,
    /// Closes the config window.
    CloseWindow,
    /// The key goes to the text editor.
    EditText,
    /// Nothing.
    Nothing,
}

/// What a key bound to `action` (none for an unbound key) does on a config
/// tab: an open option picker takes up, down, select and close and ignores
/// the rest; otherwise select acts on the item, up and down move while no
/// editor is open, close closes the editor or else the window, and any other
/// key goes to an open editor.
pub open spec fn tab_input(selector_open: bool, editor_open: bool, action: Option<crate::tui_model::Action>) -> TabInput {
    if selector_open {
        match action {
            Some(crate::tui_model::Action::NavigateUp) => TabInput::SelectorUp,
            Some(crate::tui_model::Action::NavigateDown) => TabInput::SelectorDown,
            Some(crate::tui_model::Action::NavigateSelect) => TabInput::SelectorConfirm,
            Some(crate::tui_model::Action::Close) => TabInput::SelectorCancel,
            _ => TabInput::Nothing,
        }
    } else {
        match action {
            Some(crate::tui_model::Action::NavigateSelect) => TabInput::Select,
            Some(crate::tui_model::Action::NavigateUp) if !editor_open => TabInput::Up,
            Some(crate::tui_model::Action::NavigateDown) if !editor_open => TabInput::Down,
            Some(crate::tui_model::Action::Close) => if editor_open {
                TabInput::CloseEditor
            } else {
                TabInput::CloseWindow
            },
            _ => if editor_open {
                TabInput::EditText
            } else {
                TabInput::Nothing
            },
        }
    }
}

/// What a key does on a config tab (see `tab_input`).
pub fn config_tab_input(selector_open: bool, editor_open: bool, action: Option<crate::tui_model::Action>) -> (r: TabInput)
    ensures
        r == tab_input(selector_open, editor_open, action),
{
    if selector_open {
        return match action {
            Some(crate::tui_model::Action::NavigateUp) => TabInput::SelectorUp,
            Some(crate::tui_model::Action::NavigateDown) => TabInput::SelectorDown,
            Some(crate::tui_model::Action::NavigateSelect) => TabInput::SelectorConfirm,
            Some(crate::tui_model::Action::Close) => TabInput::SelectorCancel,
            _ => TabInput::Nothing,
        };
    }
    match action {
        Some(crate::tui_model::Action::NavigateSelect) => TabInput::Select,
        Some(crate::tui_model::Action::NavigateUp) if !editor_open => TabInput::Up,
        Some(crate::tui_model::Action::NavigateDown) if !editor_open => TabInput::Down,
        Some(crate::tui_model::Action::Close) => if editor_open {
            TabInput::CloseEditor
        } else {
            TabInput::CloseWindow
        },
        _ => if editor_open {
            TabInput::EditText
        } else {
            TabInput::Nothing
        },
    }
}

} // verus!
