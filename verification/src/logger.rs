use vstd::prelude::*;
use crate::clock::{Timestamp, spec_line, format_line};
use crate::fs_model::FsModel;
use crate::level::{
    LogLevel, should_log, spec_level_of, spec_debug_name, spec_info_name, spec_warning_name,
    spec_error_name,
};
use crate::rotate::{rotate, spec_rotate, spec_rotation_due};
use crate::text::{spec_backup_path, lemma_bpath_ne_base};

verus! {

/// A logger: configuration fixed at construction, no other state. Each write
/// is a self-contained transition on the filesystem, here the filesystem
/// model.
pub struct Logger {
    pub name: String,
    pub path: String,
    pub max_bytes: u64,
    pub backup_count: usize,
    pub show_output: bool,
    pub level: LogLevel,
}

/// Whether a message carrying the textual level passes a logger whose
/// minimum severity is `min`: its severity (unknown names counting as INFO)
/// must rank at least as high.
pub open spec fn spec_passes(level_str: Seq<char>, min: LogLevel) -> bool {
    spec_level_of(level_str).rank() >= min.rank()
}

/// The filesystem after an accepted write: rotation first if the active file
/// has reached the byte threshold, then the formatted line appended to the
/// active file as UTF-8, which the append creates when absent.
pub open spec fn spec_fs_after_write(
    m: Map<Seq<char>, Seq<u8>>,
    path: Seq<char>,
    max: u64,
    count: nat,
    line: Seq<char>,
) -> Map<Seq<char>, Seq<u8>> {
    let base = if spec_rotation_due(m, path, max) {
        spec_rotate(m, path, count)
    } else {
        m
    };
    let prev = if base.contains_key(path) {
        base[path]
    } else {
        Seq::<u8>::empty()
    };
    base.insert(path, prev + vstd::utf8::encode_utf8(line))
}

/// What one write with a known timestamp does: the filesystem steps as
/// `spec_fs_after_write` with the formatted line, which is echoed exactly
/// when the logger mirrors to standard output.
pub open spec fn spec_write_effect(
    l: Logger,
    pre: Map<Seq<char>, Seq<u8>>,
    post: Map<Seq<char>, Seq<u8>>,
    echo: Option<String>,
    level_str: Seq<char>,
    msg: Seq<char>,
    ts: Timestamp,
) -> bool {
    let line = spec_line(ts, level_str, l.name@, msg);
    &&& post == spec_fs_after_write(pre, l.path@, l.max_bytes, l.backup_count as nat, line)
    &&& (match echo {
        Some(e) => l.show_output && e@ == line,
        None => !l.show_output,
    })
}

/// The full contract of a write made at some current, well-formed instant: a
/// suppressed message changes nothing and echoes nothing; an accepted one
/// has the effect of `spec_write_effect` for the instant the clock gave.
pub open spec fn spec_write_post(
    l: Logger,
    pre: Map<Seq<char>, Seq<u8>>,
    post: Map<Seq<char>, Seq<u8>>,
    echo: Option<String>,
    level_str: Seq<char>,
    msg: Seq<char>,
) -> bool {
    &&& (!spec_passes(level_str, l.level) ==> post == pre && echo is None)
    &&& (spec_passes(level_str, l.level) ==> exists|ts: Timestamp|
        #[trigger] ts.wf() && spec_write_effect(l, pre, post, echo, level_str, msg, ts))
}

/// While the active file is absent or under the threshold, a write rotates
/// nothing: every path but the active file is exactly as it was.
pub proof fn lemma_write_below_threshold(
    m: Map<Seq<char>, Seq<u8>>,
    path: Seq<char>,
    max: u64,
    count: nat,
    line: Seq<char>,
    k: Seq<char>,
)
    requires
        !spec_rotation_due(m, path, max),
        k != path,
    ensures
        spec_fs_after_write(m, path, max, count, line).contains_key(k) == m.contains_key(k),
        m.contains_key(k) ==> spec_fs_after_write(m, path, max, count, line)[k] == m[k],
{
}

/// In particular, writes below the threshold never create a backup: however
/// often they repeat, no backup slot appears that was not already there.
pub proof fn lemma_write_creates_no_backup(
    m: Map<Seq<char>, Seq<u8>>,
    path: Seq<char>,
    max: u64,
    count: nat,
    line: Seq<char>,
    i: nat,
)
    requires
        !spec_rotation_due(m, path, max),
        !m.contains_key(spec_backup_path(path, i)),
    ensures
        !spec_fs_after_write(m, path, max, count, line).contains_key(spec_backup_path(path, i)),
{
    lemma_bpath_ne_base(path, i);
    lemma_write_below_threshold(m, path, max, count, line, spec_backup_path(path, i));
}

impl Logger {
    /// Build a logger; the textual minimum level is parsed as `from_str`
    /// does, so an unknown name configures INFO.
    pub fn new(
        name: String,
        path: String,
        max_bytes: u64,
        backup_count: usize,
        show_output: bool,
        level: String,
    ) -> (l: Logger)
        ensures
            l.name == name,
            l.path == path,
            l.max_bytes == max_bytes,
            l.backup_count == backup_count,
            l.show_output == show_output,
            l.level == spec_level_of(level@),
    {
        let level_enum = LogLevel::from_str(level.as_str());
        Logger { name, path, max_bytes, backup_count, show_output, level: level_enum }
    }

    /// One write at a given instant: filter, rotate if due, append the
    /// formatted line, and hand back the line to echo when mirroring is on.
    pub fn write_at(&self, fs: &mut FsModel, ts: &Timestamp, level_str: &str, msg: &str) -> (echo:
        Option<String>)
        requires
            old(fs).wf(),
        ensures
            final(fs).wf(),
            !spec_passes(level_str@, self.level) ==> final(fs)@ == old(fs)@ && echo is None,
            spec_passes(level_str@, self.level) ==> spec_write_effect(
                *self,
                old(fs)@,
                final(fs)@,
                echo,
                level_str@,
                msg@,
                *ts,
            ),
    {
        let msg_level = LogLevel::from_str(level_str);
        if !should_log(msg_level, self.level) {
            return None;
        }
        rotate(fs, self.path.as_str(), self.max_bytes, self.backup_count);
        let line = format_line(ts, level_str, self.name.as_str(), msg);
        fs.append_to(self.path.as_str(), line.as_str());
        proof {
            lemma_bpath_ne_base(self.path@, 1);
            assert(fs@ == spec_fs_after_write(
                old(fs)@,
                self.path@,
                self.max_bytes,
                self.backup_count as nat,
                line@,
            ));
        }
        if self.show_output {
            Some(line)
        } else {
            None
        }
    }

    /// One write at the current local time.
    pub fn write(&self, fs: &mut FsModel, level_str: &str, msg: &str) -> (echo: Option<String>)
        requires
            old(fs).wf(),
        ensures
            final(fs).wf(),
            spec_write_post(*self, old(fs)@, final(fs)@, echo, level_str@, msg@),
    {
        let ts = Timestamp::now();
        let echo = self.write_at(fs, &ts, level_str, msg);
        proof {
            if spec_passes(level_str@, self.level) {
                assert(ts.wf() && spec_write_effect(
                    *self,
                    old(fs)@,
                    fs@,
                    echo,
                    level_str@,
                    msg@,
                    ts,
                ));
            }
        }
        echo
    }

    /// Write at severity DEBUG.
    pub fn debug(&self, fs: &mut FsModel, msg: &str) -> (echo: Option<String>)
        requires
            old(fs).wf(),
        ensures
            final(fs).wf(),
            spec_write_post(*self, old(fs)@, final(fs)@, echo, spec_debug_name(), msg@),
    {
        proof {
            reveal_strlit("DEBUG");
            assert("DEBUG"@ =~= spec_debug_name());
        }
        self.write(fs, "DEBUG", msg)
    }

    /// Write at severity INFO.
    pub fn info(&self, fs: &mut FsModel, msg: &str) -> (echo: Option<String>)
        requires
            old(fs).wf(),
        ensures
            final(fs).wf(),
            spec_write_post(*self, old(fs)@, final(fs)@, echo, spec_info_name(), msg@),
    {
        proof {
            reveal_strlit("INFO");
            assert("INFO"@ =~= spec_info_name());
        }
        self.write(fs, "INFO", msg)
    }

    /// Write at severity WARNING.
    pub fn warning(&self, fs: &mut FsModel, msg: &str) -> (echo: Option<String>)
        requires
            old(fs).wf(),
        ensures
            final(fs).wf(),
            spec_write_post(*self, old(fs)@, final(fs)@, echo, spec_warning_name(), msg@),
    {
        proof {
            reveal_strlit("WARNING");
            assert("WARNING"@ =~= spec_warning_name());
        }
        self.write(fs, "WARNING", msg)
    }

    /// Write at severity ERROR.
    pub fn error(&self, fs: &mut FsModel, msg: &str) -> (echo: Option<String>)
        requires
            old(fs).wf(),
        ensures
            final(fs).wf(),
            spec_write_post(*self, old(fs)@, final(fs)@, echo, spec_error_name(), msg@),
    {
        proof {
            reveal_strlit("ERROR");
            assert("ERROR"@ =~= spec_error_name());
        }
        self.write(fs, "ERROR", msg)
    }
}

} // verus!
