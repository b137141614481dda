//! The mathematical model of a logger's buffers and of a flush.
use vstd::prelude::*;

verus! {

/// The buffers as a sequence of (key, lines) pairs, in the order in which the
/// keys were first logged.
pub type Entries = Seq<(Seq<char>, Seq<Seq<char>>)>;

/// No key occurs twice.
pub open spec fn keys_unique(e: Entries) -> bool {
    forall|i: int, j: int| 0 <= i < j < e.len() ==> e[i].0 != e[j].0
}

/// `key` has a buffer.
pub open spec fn has_key(e: Entries, key: Seq<char>) -> bool {
    exists|i: int| 0 <= i < e.len() && e[i].0 == key
}

/// The buffered line for a message: the message followed by a newline.
pub open spec fn line_of(msg: Seq<char>) -> Seq<char> {
    msg + seq!['\n']
}

/// The lines buffered under `key`, empty where it has no buffer.
pub open spec fn lines_for(e: Entries, key: Seq<char>) -> Seq<Seq<char>>
    decreases e.len(),
{
    if e.len() == 0 {
        seq![]
    } else if e.last().0 == key {
        e.last().1
    } else {
        lines_for(e.drop_last(), key)
    }
}

/// `e` with `line` appended to the buffer of `key`, which is created at the
/// end when `key` has none yet.
pub open spec fn append_line(e: Entries, key: Seq<char>, line: Seq<char>) -> Entries {
    if has_key(e, key) {
        let i = choose|i: int| 0 <= i < e.len() && e[i].0 == key;
        e.update(i, (key, e[i].1.push(line)))
    } else {
        e.push((key, seq![line]))
    }
}

/// The lines of a sequence, one after the other: the text of a file.
pub open spec fn joined(lines: Seq<Seq<char>>) -> Seq<char>
    decreases lines.len(),
{
    if lines.len() == 0 {
        seq![]
    } else {
        joined(lines.drop_last()) + lines.last()
    }
}

/// The suffix of every log file's name.
pub open spec fn file_suffix() -> Seq<char> {
    seq!['.', 'l', 'o', 'g', '.', 't', 'x', 't']
}

/// The name of the file that holds the lines of `key`.
pub open spec fn file_name(key: Seq<char>) -> Seq<char> {
    key + file_suffix()
}

/// The files that a flush of `e` writes, as (name, text) pairs: one per key,
/// in the order of `e`.
pub open spec fn flush_files(e: Entries) -> Seq<(Seq<char>, Seq<char>)> {
    e.map_values(|p: (Seq<char>, Seq<Seq<char>>)| (file_name(p.0), joined(p.1)))
}

/// The root of the conventional log directories.
pub open spec fn log_root() -> Seq<char> {
    seq!['/', 'v', 'a', 'r', '/', 'l', 'o', 'g', '/']
}

/// The conventional log directory of an application.
pub open spec fn default_location(app_name: Seq<char>) -> Seq<char> {
    log_root() + app_name
}

/// The buffers after logging each (key, message) of `events`, in order,
/// starting from `e`.
pub open spec fn replay(e: Entries, events: Seq<(Seq<char>, Seq<char>)>) -> Entries
    decreases events.len(),
{
    if events.len() == 0 {
        e
    } else {
        append_line(replay(e, events.drop_last()), events.last().0, line_of(events.last().1))
    }
}

/// Some event of `events` is logged under `key`.
pub open spec fn logged(events: Seq<(Seq<char>, Seq<char>)>, key: Seq<char>) -> bool {
    exists|i: int| 0 <= i < events.len() && events[i].0 == key
}

/// The lines of the events logged under `key`, in the order of `events`.
pub open spec fn lines_logged(events: Seq<(Seq<char>, Seq<char>)>, key: Seq<char>) -> Seq<Seq<char>>
    decreases events.len(),
{
    if events.len() == 0 {
        seq![]
    } else if events.last().0 == key {
        lines_logged(events.drop_last(), key).push(line_of(events.last().1))
    } else {
        lines_logged(events.drop_last(), key)
    }
}

/// The events that log each message of `msgs`, in order, under `key`.
pub open spec fn events_for(key: Seq<char>, msgs: Seq<Seq<char>>) -> Seq<(Seq<char>, Seq<char>)> {
    msgs.map_values(|m: Seq<char>| (key, m))
}

} // verus!
