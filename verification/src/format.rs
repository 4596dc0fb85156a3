//! Short texts for spans of time.
use vstd::prelude::*;
use crate::strings::{dec, push_decimal, push_str};
use crate::lexical::{copy_texts, texts};

verus! {

/// The seconds of a span, written with one decimal as `{:.1}` writes the
/// span's seconds as a 32-bit float.
pub uninterp spec fn seconds_one_decimal_text(secs: u64, nanos: u32) -> Seq<char>;

/// The seconds of a span with one decimal.
///
/// Builds `Duration::new(secs, nanos)` and formats `Duration::as_secs_f32`
/// with `{:.1}`; the text is named `seconds_one_decimal_text` and depends on
/// the span alone.
#[verifier::external_body]
fn seconds_one_decimal(secs: u64, nanos: u32) -> (r: String)
    requires
        nanos < 1_000_000_000,
    ensures
        r@ == seconds_one_decimal_text(secs, nanos),
{
    format!("{:.1}", std::time::Duration::new(secs, nanos).as_secs_f32())
}

/// A measured or estimated span: `2h 3m` from an hour on, `1m 40s` from a
/// minute on, `4.2s` from a second on, `420ms` below.
pub open spec fn duration_text(secs: u64, nanos: u32) -> Seq<char> {
    if secs >= 3600 {
        dec((secs / 3600) as nat) + "h "@ + dec(((secs % 3600) / 60) as nat) + "m"@
    } else if secs >= 60 {
        dec((secs / 60) as nat) + "m "@ + dec((secs % 60) as nat) + "s"@
    } else if secs >= 1 {
        seconds_one_decimal_text(secs, nanos) + "s"@
    } else {
        dec((nanos / 1_000_000) as nat) + "ms"@
    }
}

/// How long ago something happened, in one unit: `2h`, `3m` or `12s`.
pub open spec fn age_text(secs: u64) -> Seq<char> {
    if secs >= 3600 {
        dec((secs / 3600) as nat) + "h"@
    } else if secs >= 60 {
        dec((secs / 60) as nat) + "m"@
    } else {
        dec(secs as nat) + "s"@
    }
}

/// Formats the span of `secs` seconds and `nanos` nanoseconds (see `duration_text`).
pub fn format_duration(secs: u64, nanos: u32) -> (r: String)
    requires
        nanos < 1_000_000_000,
    ensures
        r@ == duration_text(secs, nanos),
{
    let mut s = String::new();
    if secs >= 3600 {
        push_decimal(&mut s, secs / 3600);
        push_str(&mut s, "h ");
        push_decimal(&mut s, (secs % 3600) / 60);
        push_str(&mut s, "m");
    } else if secs >= 60 {
        push_decimal(&mut s, secs / 60);
        push_str(&mut s, "m ");
        push_decimal(&mut s, secs % 60);
        push_str(&mut s, "s");
    } else if secs >= 1 {
        s = seconds_one_decimal(secs, nanos);
        push_str(&mut s, "s");
    } else {
        push_decimal(&mut s, (nanos / 1_000_000) as u64);
        push_str(&mut s, "ms");
    }
    assert(s@ =~= duration_text(secs, nanos));
    s
}

/// Formats how long ago something happened (see `age_text`).
pub fn format_age(secs: u64) -> (r: String)
    ensures
        r@ == age_text(secs),
{
    let mut s = String::new();
    if secs >= 3600 {
        push_decimal(&mut s, secs / 3600);
        push_str(&mut s, "h");
    } else if secs >= 60 {
        push_decimal(&mut s, secs / 60);
        push_str(&mut s, "m");
    } else {
        push_decimal(&mut s, secs);
        push_str(&mut s, "s");
    }
    assert(s@ =~= age_text(secs));
    s
}

/// The first text lines of a host's detail pop-up: each of its names, then
/// how long ago it was updated, as `Updated 12s ago`. The lines that follow
/// in the pop-up (round-trip times, how the host was reached, its status and
/// open ports) are not built here.
pub open spec fn host_popup_text(names: Seq<Seq<char>>, age_secs: u64) -> Seq<Seq<char>> {
    names.push("Updated "@ + age_text(age_secs) + " ago"@)
}

/// The name and age lines of a host's detail pop-up (see `host_popup_text`).
pub fn host_popup_lines(names: &Vec<String>, age_secs: u64) -> (r: Vec<String>)
    ensures
        texts(r@) == host_popup_text(texts(names@), age_secs),
{
    let mut r = copy_texts(names);
    let mut line = String::new();
    push_str(&mut line, "Updated ");
    let age = format_age(age_secs);
    push_str(&mut line, age.as_str());
    push_str(&mut line, " ago");
    let ghost before = r@;
    r.push(line);
    assert(texts(r@) =~= texts(before).push(line@));
    r
}

} // verus!
