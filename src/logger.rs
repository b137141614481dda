//! The logger: buffers of lines keyed by category, and the flush that drains them.
use vstd::prelude::*;
use vstd::string::StringExecFns;

use crate::clock::{is_stamp, local_time_formatted, STAMP_FORMAT};
use crate::model::{
    append_line, default_location, file_name, file_suffix, log_root, flush_files, has_key, joined, keys_unique, line_of,
    Entries,
};

verus! {

/// The lines buffered under one key, oldest first.
pub struct KeyBuffer {
    pub key: String,
    pub lines: Vec<String>,
}

impl View for KeyBuffer {
    type V = (Seq<char>, Seq<Seq<char>>);

    open spec fn view(&self) -> Self::V {
        (self.key@, self.lines@.map_values(|l: String| l@))
    }
}

/// One file of a flush: its name inside the flush directory and its full text.
pub struct LogFile {
    pub name: String,
    pub contents: String,
}

impl View for LogFile {
    type V = (Seq<char>, Seq<char>);

    open spec fn view(&self) -> Self::V {
        (self.name@, self.contents@)
    }
}

/// What a flush writes: a directory named by the time of the flush, inside
/// the logger's save location, holding one file per key.
pub struct Flush {
    pub directory: String,
    pub files: Vec<LogFile>,
}

impl View for Flush {
    type V = (Seq<char>, Seq<(Seq<char>, Seq<char>)>);

    open spec fn view(&self) -> Self::V {
        (self.directory@, self.files@.map_values(|f: LogFile| f@))
    }
}

/// A save location and the lines buffered under each key, keys in the order
/// in which they were first logged.
pub struct Logger {
    save_location: String,
    buffers: Vec<KeyBuffer>,
}

impl View for Logger {
    type V = Entries;

    closed spec fn view(&self) -> Entries {
        self.buffers@.map_values(|b: KeyBuffer| b@)
    }
}

impl Logger {
    /// The directory under which flushes are written.
    pub closed spec fn location(&self) -> Seq<char> {
        self.save_location@
    }

    /// Every key has a single buffer.
    pub open spec fn wf(&self) -> bool {
        keys_unique(self@)
    }

    /// Appends `line`, which already ends with its newline, to the buffer of
    /// `key`, creating that buffer when `key` is new.
    pub fn log_internal(&mut self, key: String, line: String)
        requires
            old(self).wf(),
        ensures
            final(self).wf(),
            final(self)@ == append_line(old(self)@, key@, line@),
            final(self).location() == old(self).location(),
    {
        let n = self.buffers.len();
        let mut i: usize = 0;
        while i < n
            invariant
                n == self.buffers.len(),
                i <= n,
                *self == *old(self),
                keys_unique(self@),
                forall|j: int| 0 <= j < i ==> self@[j].0 != key@,
            decreases n - i,
        {
            if self.buffers[i].key == key {
                let ghost e = self@;
                let ghost old_lines = self.buffers@[i as int].lines@;
                assert(e[i as int] == self.buffers@[i as int]@);
                self.buffers[i].lines.push(line);
                proof {
                    assert(self.buffers@[i as int].lines@ == old_lines.push(line));
                    assert(self.buffers@[i as int].lines@.map_values(|l: String| l@) =~= e[i as int].1.push(
                        line@,
                    ));
                    assert(has_key(e, key@));
                    let c = choose|c: int| 0 <= c < e.len() && e[c].0 == key@;
                    assert(c == i as int);
                    assert(self@ =~= e.update(i as int, (key@, e[i as int].1.push(line@))));
                    assert(keys_unique(self@)) by {
                        assert forall|a: int, b: int| 0 <= a < b < self@.len() implies self@[a].0
                            != self@[b].0 by {
                            assert(self@[a].0 == e[a].0 && self@[b].0 == e[b].0);
                        }
                    }
                }
                return;
            }
            i = i + 1;
        }
        let ghost e = self@;
        let mut lines: Vec<String> = Vec::new();
        lines.push(line);
        self.buffers.push(KeyBuffer { key, lines });
        proof {
            assert(self.buffers@.last().lines@.map_values(|l: String| l@) =~= seq![line@]);
            assert(!has_key(e, key@));
            assert(self@ =~= e.push((key@, seq![line@])));
        }
    }

    /// A logger that writes under `save_location`, with nothing buffered.
    pub fn new(save_location: &str) -> (r: Logger)
        ensures
            r.wf(),
            r@ == Seq::<(Seq<char>, Seq<Seq<char>>)>::empty(),
            r.location() == save_location@,
    {
        let r = Logger { save_location: String::from_str(save_location), buffers: Vec::new() };
        assert(r@ =~= Seq::<(Seq<char>, Seq<Seq<char>>)>::empty());
        r
    }

    /// A logger that writes under the conventional log directory of
    /// `app_name`, `/var/log/<app_name>`, with nothing buffered.
    pub fn new_default_location(app_name: &str) -> (r: Logger)
        ensures
            r.wf(),
            r@ == Seq::<(Seq<char>, Seq<Seq<char>>)>::empty(),
            r.location() == default_location(app_name@),
    {
        let location = String::from_str("/var/log/").concat(app_name);
        proof {
            reveal_strlit("/var/log/");
            assert("/var/log/"@ =~= log_root());
        }
        Logger::new(location.as_str())
    }

    /// The directory under which flushes are written.
    pub fn save_location(&self) -> (r: &str)
        ensures
            r@ == self.location(),
    {
        self.save_location.as_str()
    }

    /// Whether no line is buffered.
    pub fn is_empty(&self) -> (r: bool)
        ensures
            r == (self@.len() == 0),
    {
        self.buffers.len() == 0
    }

    /// Buffers `message`, followed by a newline, under `key`.
    pub fn log(&mut self, key: &str, message: &str)
        requires
            old(self).wf(),
        ensures
            final(self).wf(),
            final(self)@ == append_line(old(self)@, key@, line_of(message@)),
            final(self).location() == old(self).location(),
    {
        let line = String::from_str(message).concat("\n");
        proof {
            reveal_strlit("\n");
            assert(line@ =~= line_of(message@));
        }
        self.log_internal(String::from_str(key), line);
    }

    /// Empties the buffers into a flush whose directory is named `stamp`:
    /// one file per key, in the order the keys were first logged, named
    /// `<key>.log.txt` and holding the key's lines in the order they were
    /// logged.
    pub fn save_logs_internal(&mut self, stamp: String) -> (r: Flush)
        requires
            old(self).wf(),
        ensures
            final(self).wf(),
            final(self)@ == Seq::<(Seq<char>, Seq<Seq<char>>)>::empty(),
            final(self).location() == old(self).location(),
            r@ == (stamp@, flush_files(old(self)@)),
    {
        let ghost e = self@;
        let mut buffers: Vec<KeyBuffer> = Vec::new();
        std::mem::swap(&mut buffers, &mut self.buffers);
        assert(self@ =~= Seq::<(Seq<char>, Seq<Seq<char>>)>::empty());
        let mut files: Vec<LogFile> = Vec::new();
        let n = buffers.len();
        let mut i: usize = 0;
        while i < n
            invariant
                n == buffers.len(),
                i <= n,
                e == buffers@.map_values(|b: KeyBuffer| b@),
                files@.len() == i,
                files@.map_values(|f: LogFile| f@) =~= flush_files(e).take(i as int),
            decreases n - i,
        {
            let b = &buffers[i];
            let name = b.key.clone().concat(".log.txt");
            let contents = join_lines(&b.lines);
            proof {
                reveal_strlit(".log.txt");
                assert(".log.txt"@ =~= file_suffix());
                assert(e[i as int] == b@);
                assert(flush_files(e)[i as int] == (name@, contents@));
            }
            let ghost prev = files@;
            files.push(LogFile { name, contents });
            proof {
                assert forall|j: int| 0 <= j < i + 1 implies #[trigger] files@[j]@ == flush_files(
                    e,
                )[j] by {
                    if j < i {
                        assert(files@[j] == prev[j]);
                        assert(prev.map_values(|f: LogFile| f@)[j] == flush_files(e).take(
                            i as int,
                        )[j]);
                    }
                }
            }
            i = i + 1;
            assert(files@.map_values(|f: LogFile| f@) =~= flush_files(e).take(i as int));
        }
        assert(flush_files(e).take(n as int) =~= flush_files(e));
        Flush { directory: stamp, files }
    }

    /// Empties the buffers into a flush whose directory is named by the
    /// current local time (`YYYY.MM.DD HH-MM-SS`, the year with a sign and
    /// more digits outside 0 to 9999).
    pub fn save_logs(&mut self) -> (r: Flush)
        requires
            old(self).wf(),
        ensures
            final(self).wf(),
            final(self)@ == Seq::<(Seq<char>, Seq<Seq<char>>)>::empty(),
            final(self).location() == old(self).location(),
            is_stamp(r@.0),
            r@.1 == flush_files(old(self)@),
    {
        let stamp = local_time_formatted(STAMP_FORMAT);
        self.save_logs_internal(stamp)
    }
}

/// The text of a file holding `lines`: the lines one after the other.
pub fn join_lines(lines: &Vec<String>) -> (r: String)
    ensures
        r@ == joined(lines@.map_values(|l: String| l@)),
{
    let ghost ls = lines@.map_values(|l: String| l@);
    let mut r = String::new();
    let mut i: usize = 0;
    while i < lines.len()
        invariant
            i <= lines.len(),
            ls == lines@.map_values(|l: String| l@),
            r@ == joined(ls.take(i as int)),
        decreases lines.len() - i,
    {
        r.append(lines[i].as_str());
        proof {
            assert(ls.take(i + 1).drop_last() =~= ls.take(i as int));
        }
        i = i + 1;
    }
    assert(ls.take(lines.len() as int) =~= ls);
    r
}

} // verus!
