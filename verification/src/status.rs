use vstd::prelude::*;

use crate::text::{push_signed_decimal, signed_decimal};

verus! {

/// The line for one live watcher.
pub open spec fn monitoring_line(name: Seq<char>, pid: i32) -> Seq<char> {
    "monitoring: "@ + name + " (watcher pid "@ + signed_decimal(pid as int) + ")"@
}

/// The lines for the live watchers among `(sanitised pane id, pid, alive)`
/// entries, in order.
pub open spec fn live_lines(entries: Seq<(String, i32, bool)>) -> Seq<Seq<char>>
    decreases entries.len(),
{
    if entries.len() == 0 {
        Seq::empty()
    } else {
        let rest = live_lines(entries.drop_last());
        let e = entries.last();
        if e.2 {
            rest.push(monitoring_line(e.0@, e.1))
        } else {
            rest
        }
    }
}

/// What `status` prints: a line per live watcher, or a single line saying
/// that no pane is monitored.
pub open spec fn status_text(entries: Seq<(String, i32, bool)>) -> Seq<Seq<char>> {
    if live_lines(entries).len() == 0 {
        seq!["no panes monitored"@]
    } else {
        live_lines(entries)
    }
}

/// The names whose watcher is dead (their pidfiles are stale), in order.
pub open spec fn stale_names(entries: Seq<(String, i32, bool)>) -> Seq<Seq<char>>
    decreases entries.len(),
{
    if entries.len() == 0 {
        Seq::empty()
    } else {
        let rest = stale_names(entries.drop_last());
        let e = entries.last();
        if e.2 {
            rest
        } else {
            rest.push(e.0@)
        }
    }
}

/// The texts of a list of strings.
pub open spec fn texts(v: Seq<String>) -> Seq<Seq<char>> {
    v.map_values(|s: String| s@)
}

/// The status report over the recorded watchers, each with whether its pid is
/// alive: the lines to print, and the names whose stale pidfiles to remove.
pub fn status_report(entries: &Vec<(String, i32, bool)>) -> (r: (Vec<String>, Vec<String>))
    ensures
        texts(r.0@) == status_text(entries@),
        texts(r.1@) == stale_names(entries@),
{
    let mut lines: Vec<String> = Vec::new();
    let mut stale: Vec<String> = Vec::new();
    let mut i: usize = 0;
    while i < entries.len()
        invariant
            i <= entries@.len(),
            texts(lines@) == live_lines(entries@.take(i as int)),
            texts(stale@) == stale_names(entries@.take(i as int)),
        decreases entries@.len() - i,
    {
        let e = &entries[i];
        assert(entries@.take(i + 1).drop_last() =~= entries@.take(i as int));
        assert(entries@.take(i + 1).last() == entries@[i as int]);
        if e.2 {
            let mut line = String::from_str("monitoring: ");
            line.append(e.0.as_str());
            line.append(" (watcher pid ");
            push_signed_decimal(&mut line, e.1);
            line.append(")");
            lines.push(line);
            assert(texts(lines@) =~= live_lines(entries@.take(i + 1)));
            assert(texts(stale@) =~= stale_names(entries@.take(i + 1)));
        } else {
            stale.push(String::from_str(e.0.as_str()));
            assert(texts(lines@) =~= live_lines(entries@.take(i + 1)));
            assert(texts(stale@) =~= stale_names(entries@.take(i + 1)));
        }
        i = i + 1;
    }
    assert(entries@.take(entries@.len() as int) =~= entries@);
    if lines.len() == 0 {
        lines.push(String::from_str("no panes monitored"));
        assert(texts(lines@) =~= status_text(entries@));
    }
    (lines, stale)
}

} // verus!
