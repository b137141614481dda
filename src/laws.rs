//! What holds of logging and flushing, over the model of `model`.
use vstd::prelude::*;

use crate::model::{
    append_line, events_for, file_name, file_suffix, flush_files, has_key, joined, keys_unique,
    line_of, lines_for, lines_logged, logged, replay, Entries,
};

verus! {

/// With unique keys, the lines of a key are those of its one entry, and none
/// where it has no entry.
proof fn lemma_lines_for(e: Entries, k: Seq<char>)
    requires
        keys_unique(e),
    ensures
        forall|i: int| 0 <= i < e.len() && e[i].0 == k ==> lines_for(e, k) == e[i].1,
        !has_key(e, k) ==> lines_for(e, k) == Seq::<Seq<char>>::empty(),
    decreases e.len(),
{
    if e.len() > 0 {
        let d = e.drop_last();
        assert(keys_unique(d));
        lemma_lines_for(d, k);
        if e.last().0 != k {
            assert forall|i: int| 0 <= i < e.len() && e[i].0 == k implies lines_for(e, k)
                == e[i].1 by {
                assert(d[i] == e[i]);
            }
            if !has_key(e, k) {
                assert(!has_key(d, k)) by {
                    if has_key(d, k) {
                        let j = choose|j: int| 0 <= j < d.len() && d[j].0 == k;
                        assert(e[j] == d[j]);
                    }
                }
            }
        } else {
            assert(has_key(e, k));
        }
    }
}

/// Appending a line keeps keys unique, adds the line to its own key alone,
/// and gives its key a buffer.
proof fn lemma_append_line(e: Entries, k: Seq<char>, l: Seq<char>, k2: Seq<char>)
    requires
        keys_unique(e),
    ensures
        keys_unique(append_line(e, k, l)),
        lines_for(append_line(e, k, l), k2) == if k2 == k {
            lines_for(e, k).push(l)
        } else {
            lines_for(e, k2)
        },
        has_key(append_line(e, k, l), k2) == (has_key(e, k2) || k2 == k),
{
    let a = append_line(e, k, l);
    lemma_lines_for(e, k);
    lemma_lines_for(e, k2);
    if has_key(e, k) {
        let i = choose|i: int| 0 <= i < e.len() && e[i].0 == k;
        assert(forall|j: int| 0 <= j < e.len() ==> a[j].0 == e[j].0);
        assert(keys_unique(a));
        lemma_lines_for(a, k2);
        assert(a[i].0 == k);
        if has_key(e, k2) {
            let j = choose|j: int| 0 <= j < e.len() && e[j].0 == k2;
            assert(a[j].0 == k2);
        }
        if has_key(a, k2) {
            let j = choose|j: int| 0 <= j < a.len() && a[j].0 == k2;
            assert(e[j].0 == k2);
        }
    } else {
        assert(a.drop_last() =~= e);
        assert(keys_unique(a));
        assert(a.last().0 == k);
        if has_key(e, k2) {
            let j = choose|j: int| 0 <= j < e.len() && e[j].0 == k2;
            assert(a[j].0 == k2);
        }
        if has_key(a, k2) && k2 != k {
            let j = choose|j: int| 0 <= j < a.len() && a[j].0 == k2;
            assert(e[j].0 == k2);
        }
    }
}

/// Logging a run of events from unique keys keeps them unique, adds to each
/// key's lines the lines logged under it, in order, and gives a buffer to
/// each key logged.
proof fn lemma_replay(e: Entries, events: Seq<(Seq<char>, Seq<char>)>, k: Seq<char>)
    requires
        keys_unique(e),
    ensures
        keys_unique(replay(e, events)),
        lines_for(replay(e, events), k) == lines_for(e, k) + lines_logged(events, k),
        has_key(replay(e, events), k) == (has_key(e, k) || logged(events, k)),
    decreases events.len(),
{
    if events.len() == 0 {
        assert(lines_for(e, k) + lines_logged(events, k) =~= lines_for(e, k));
        assert(!logged(events, k));
    } else {
        let d = events.drop_last();
        let ev = events.last();
        lemma_replay(e, d, k);
        lemma_append_line(replay(e, d), ev.0, line_of(ev.1), k);
        assert((lines_for(e, k) + lines_logged(d, k)).push(line_of(ev.1)) =~= lines_for(e, k)
            + lines_logged(d, k).push(line_of(ev.1)));
        if logged(d, k) {
            let j = choose|j: int| 0 <= j < d.len() && d[j].0 == k;
            assert(events[j].0 == k);
        }
        if logged(events, k) && ev.0 != k {
            let j = choose|j: int| 0 <= j < events.len() && events[j].0 == k;
            assert(d[j].0 == k);
        }
        if ev.0 == k {
            assert(events[events.len() - 1].0 == k);
        }
    }
}

/// Two keys with the same file name are the same key.
proof fn lemma_file_name_injective(k1: Seq<char>, k2: Seq<char>)
    requires
        file_name(k1) == file_name(k2),
    ensures
        k1 == k2,
{
    assert(file_name(k1).len() == k1.len() + file_suffix().len());
    assert(k1 =~= file_name(k1).subrange(0, k1.len() as int));
    assert(k2 =~= file_name(k2).subrange(0, k2.len() as int));
}

/// With unique keys, a flush writes files of distinct names, and the file of
/// a key, if any, holds that key's lines.
proof fn lemma_flush_files(e: Entries, k: Seq<char>)
    requires
        keys_unique(e),
    ensures
        forall|i: int, j: int|
            0 <= i < j < flush_files(e).len() ==> flush_files(e)[i].0 != flush_files(e)[j].0,
        has_key(e, k) ==> exists|i: int|
            0 <= i < flush_files(e).len() && flush_files(e)[i] == (
            file_name(k),
            joined(lines_for(e, k)),
        ),
        !has_key(e, k) ==> forall|i: int|
            0 <= i < flush_files(e).len() ==> flush_files(e)[i].0 != file_name(k),
{
    let f = flush_files(e);
    lemma_lines_for(e, k);
    assert forall|i: int, j: int| 0 <= i < j < f.len() implies f[i].0 != f[j].0 by {
        if f[i].0 == f[j].0 {
            lemma_file_name_injective(e[i].0, e[j].0);
        }
    }
    if has_key(e, k) {
        let i = choose|i: int| 0 <= i < e.len() && e[i].0 == k;
        assert(f[i] == (file_name(k), joined(lines_for(e, k))));
    } else {
        assert forall|i: int| 0 <= i < f.len() implies f[i].0 != file_name(k) by {
            if f[i].0 == file_name(k) {
                lemma_file_name_injective(e[i].0, k);
            }
        }
    }
}

/// Logging messages `m1`, ..., `mN` under one key and then flushing writes a
/// single file, named after the key, whose text is `m1\n`, ..., `mN\n` in
/// that order.
pub proof fn law_single_key_file(key: Seq<char>, msgs: Seq<Seq<char>>)
    requires
        msgs.len() > 0,
    ensures
        flush_files(replay(Seq::empty(), events_for(key, msgs))) == seq![
            (file_name(key), joined(msgs.map_values(|m: Seq<char>| line_of(m)))),
        ],
{
    lemma_single_key_buffer(key, msgs);
    let e = replay(Seq::empty(), events_for(key, msgs));
    assert(flush_files(e) =~= seq![
        (file_name(key), joined(msgs.map_values(|m: Seq<char>| line_of(m)))),
    ]);
}

/// Messages logged under one key fill a single buffer, in order.
proof fn lemma_single_key_buffer(key: Seq<char>, msgs: Seq<Seq<char>>)
    requires
        msgs.len() > 0,
    ensures
        replay(Seq::empty(), events_for(key, msgs)) == seq![
            (key, msgs.map_values(|m: Seq<char>| line_of(m))),
        ],
    decreases msgs.len(),
{
    let evs = events_for(key, msgs);
    let d = msgs.drop_last();
    assert(evs.drop_last() =~= events_for(key, d));
    let prev = replay(Seq::<(Seq<char>, Seq<Seq<char>>)>::empty(), evs.drop_last());
    if msgs.len() == 1 {
        assert(prev == Seq::<(Seq<char>, Seq<Seq<char>>)>::empty());
        assert(!has_key(prev, key));
        assert(msgs.map_values(|m: Seq<char>| line_of(m)) =~= seq![line_of(msgs.last())]);
        assert(replay(Seq::empty(), evs) =~= seq![
            (key, msgs.map_values(|m: Seq<char>| line_of(m))),
        ]);
    } else {
        lemma_single_key_buffer(key, d);
        assert(prev[0].0 == key);
        assert(has_key(prev, key));
        let i = choose|i: int| 0 <= i < prev.len() && prev[i].0 == key;
        assert(i == 0);
        assert(d.map_values(|m: Seq<char>| line_of(m)).push(line_of(msgs.last())) =~= msgs.map_values(
            |m: Seq<char>| line_of(m),
        ));
        assert(replay(Seq::empty(), evs) =~= seq![
            (key, msgs.map_values(|m: Seq<char>| line_of(m))),
        ]);
    }
}

/// Whatever keys are logged, interleaved or not, a flush writes one file per
/// key logged, with distinct names, each holding only the lines logged under
/// its own key in the order they were logged, and no file for a key that was
/// not logged.
pub proof fn law_flush_separates_keys(events: Seq<(Seq<char>, Seq<char>)>, key: Seq<char>)
    ensures
        ({
            let f = flush_files(replay(Seq::empty(), events));
            &&& forall|i: int, j: int| 0 <= i < j < f.len() ==> f[i].0 != f[j].0
            &&& logged(events, key) ==> exists|i: int|
                0 <= i < f.len() && f[i] == (file_name(key), joined(lines_logged(events, key)))
            &&& !logged(events, key) ==> forall|i: int| 0 <= i < f.len() ==> f[i].0 != file_name(key)
        }),
{
    let empty = Seq::<(Seq<char>, Seq<Seq<char>>)>::empty();
    lemma_replay(empty, events, key);
    assert(lines_for(empty, key) + lines_logged(events, key) =~= lines_logged(events, key));
    assert(!has_key(empty, key));
    lemma_flush_files(replay(empty, events), key);
}

/// A flush leaves the buffers empty, so after a flush of any buffers `e` the
/// next flush holds only the lines logged since: the file of each key holds
/// exactly the lines logged under it after the first flush, and nothing of
/// `e`.  Without the flush between, the lines of `e` would come first.
pub proof fn law_flush_forgets(e: Entries, events: Seq<(Seq<char>, Seq<char>)>, key: Seq<char>)
    requires
        keys_unique(e),
    ensures
        lines_for(replay(Seq::empty(), events), key) == lines_logged(events, key),
        lines_for(replay(e, events), key) == lines_for(e, key) + lines_logged(events, key),
{
    let empty = Seq::<(Seq<char>, Seq<Seq<char>>)>::empty();
    lemma_replay(empty, events, key);
    lemma_replay(e, events, key);
    assert(lines_for(empty, key) + lines_logged(events, key) =~= lines_logged(events, key));
}

/// A flush with nothing buffered writes no file.
pub proof fn law_flush_of_nothing()
    ensures
        flush_files(Seq::empty()).len() == 0,
{
}

/// Of two flushes in a row, the first writes a file for each buffered key
/// and the second, which finds the buffers emptied, writes none.
pub proof fn law_back_to_back_flushes(e: Entries)
    ensures
        flush_files(e).len() == e.len(),
        forall|i: int| 0 <= i < e.len() ==> flush_files(e)[i] == (file_name(e[i].0), joined(e[i].1)),
        flush_files(Seq::empty()).len() == 0,
{
}

} // verus!
