//! The rotation and size bookkeeping of the main log. The file handle,
//! the writes, the clock and the random rotation tag live outside; they
//! hand in the measured sizes, the current time and the tag, and carry
//! out the rotation this module decides.

use vstd::prelude::*;
use vstd::string::StrSliceExecFns;
use vstd::string::StringExecFns;

use crate::error::Error;
use crate::text::spec_dec;
use crate::text::u64_to_dec;

verus! {

/// The data that is held by the Log object; the open file itself stays
/// with the caller.
#[derive(Debug)]
pub struct LogParams {
    pub file_path: String,
    pub cur_size: u64,
    pub max_size: u64,
    pub init_age_millis: u128,
    pub max_age_millis: u128,
    pub file_header: String,
    pub show_timestamp: bool,
    pub show_stdout: bool,
}

/// The main logging object.
#[derive(Debug)]
pub struct Log {
    pub data: Option<LogParams>,
}

/// The tracked size after one line of `line_len` bytes: the line, its
/// newline, and the 23 bytes of a timestamp prefix when one is shown;
/// the count saturates rather than overflowing.
pub open spec fn spec_grown_size(p: LogParams, line_len: u64) -> int {
    let grown = p.cur_size + line_len + 1 + (if p.show_timestamp {
        23int
    } else {
        0int
    });
    if grown > u64::MAX {
        u64::MAX as int
    } else {
        grown
    }
}

/// Whether a line logged at `now` rotates the file first: the tracked
/// size reaches the rotation size, or the file's age passes the
/// rotation age.
pub open spec fn spec_rotates(p: LogParams, line_len: u64, now: u128) -> bool {
    ||| spec_grown_size(p, line_len) >= p.max_size
    ||| (p.init_age_millis < now && now - p.init_age_millis > p.max_age_millis)
}

/// The byte length of the header string.
pub open spec fn spec_header_bytes(p: LogParams) -> int {
    (vstd::utf8::encode_utf8(p.file_header@).len() as usize) as int
}

/// The size tracked after a rotation: the header and its newline,
/// saturating.
pub open spec fn spec_header_size(p: LogParams) -> int {
    if spec_header_bytes(p) > u64::MAX - 1 {
        u64::MAX as int
    } else {
        spec_header_bytes(p) + 1
    }
}

/// How one logged line advances the bookkeeping: grow the size, and on
/// rotation restart the size at the header and the age at `now`.
pub open spec fn spec_log_step(pre: LogParams, post: LogParams, line_len: u64, now: u128, rotate:
    bool) -> bool {
    &&& rotate == spec_rotates(pre, line_len, now)
    &&& rotate ==> post.cur_size == spec_header_size(pre) && post.init_age_millis == now
    &&& !rotate ==> post.cur_size == spec_grown_size(pre, line_len) && post.init_age_millis
        == pre.init_age_millis
    &&& post.file_path == pre.file_path
    &&& post.max_size == pre.max_size
    &&& post.max_age_millis == pre.max_age_millis
    &&& post.file_header == pre.file_header
    &&& post.show_timestamp == pre.show_timestamp
    &&& post.show_stdout == pre.show_stdout
}

impl LogParams {
    /// The bookkeeping of one logged line of `line_len` bytes at time
    /// `now`: returns whether the caller must rotate the file before
    /// writing, as `spec_log_step` describes.
    pub fn log(&mut self, line_len: u64, now: u128) -> (rotate: bool)
        ensures
            spec_log_step(*old(self), *final(self), line_len, now, rotate),
    {
        let extra: u64 = if self.show_timestamp {
            24
        } else {
            1
        };
        let grown = if line_len > u64::MAX - extra {
            u64::MAX
        } else if self.cur_size > u64::MAX - (line_len + extra) {
            u64::MAX
        } else {
            self.cur_size + line_len + extra
        };
        self.cur_size = grown;
        let aged = self.init_age_millis < now && now - self.init_age_millis > self.max_age_millis;
        if grown >= self.max_size || aged {
            let header_len = self.file_header.as_str().len();
            self.cur_size = if header_len as u64 > u64::MAX - 1 {
                u64::MAX
            } else {
                header_len as u64 + 1
            };
            self.init_age_millis = now;
            true
        } else {
            false
        }
    }
}

impl Log {
    /// Assemble a logger over a freshly opened file of `cur_size`
    /// bytes at time `now`. A zero size means the file is new: the
    /// header is to be written, and is what the tracked size counts.
    /// Returns the Log and whether the caller must write the header.
    pub fn new(
        file_path: String,
        max_size: u64,
        max_age_millis: u128,
        show_timestamp: bool,
        file_header: String,
        cur_size: u64,
        now: u128,
    ) -> (r: (Log, bool))
        ensures
            r.1 == (cur_size == 0),
            r.0.data matches Some(p) && p.file_path == file_path && p.max_size == max_size
                && p.max_age_millis == max_age_millis && p.show_timestamp == show_timestamp
                && p.file_header == file_header && p.init_age_millis == now && p.show_stdout
                == true && p.cur_size == (if cur_size == 0 {
                spec_header_size(
                    LogParams {
                        file_path: file_path,
                        cur_size: cur_size,
                        max_size: max_size,
                        init_age_millis: now,
                        max_age_millis: max_age_millis,
                        file_header: file_header,
                        show_timestamp: show_timestamp,
                        show_stdout: true,
                    },
                )
            } else {
                cur_size as int
            }),
    {
        let write_header = cur_size == 0;
        let tracked_size = if write_header {
            let header_len = file_header.as_str().len();
            if header_len as u64 > u64::MAX - 1 {
                u64::MAX
            } else {
                header_len as u64 + 1
            }
        } else {
            cur_size
        };
        let params = LogParams {
            file_path,
            cur_size: tracked_size,
            max_size,
            init_age_millis: now,
            max_age_millis,
            file_header,
            show_timestamp,
            show_stdout: true,
        };
        (Log { data: Some(params) }, write_header)
    }

    /// Entry point for logging: the bookkeeping of one line, delegated
    /// to the held parameters.
    pub fn log(&mut self, line_len: u64, now: u128) -> (rotate: bool)
        requires
            old(self).data is Some,
        ensures
            final(self).data matches Some(q) && old(self).data matches Some(p) && spec_log_step(
                p,
                q,
                line_len,
                now,
                rotate,
            ),
    {
        let params = self.data.as_mut().unwrap();
        params.log(line_len, now)
    }

    /// Update the show_timestamp parameter for this logger.
    pub fn update_show_timestamp(&mut self, show: bool) -> (r: Result<(), Error>)
        requires
            old(self).data is Some,
        ensures
            r is Ok,
            final(self).data matches Some(q) && old(self).data matches Some(p) && q == (LogParams {
                show_timestamp: show,
                ..p
            }),
    {
        let params = self.data.as_mut().unwrap();
        params.show_timestamp = show;
        Ok(())
    }

    /// Update the show_stdout parameter for this logger.
    pub fn update_show_stdout(&mut self, show: bool) -> (r: Result<(), Error>)
        requires
            old(self).data is Some,
        ensures
            r is Ok,
            final(self).data matches Some(q) && old(self).data matches Some(p) && q == (LogParams {
                show_stdout: show,
                ..p
            }),
    {
        let params = self.data.as_mut().unwrap();
        params.show_stdout = show;
        Ok(())
    }
}

/// The last position of a dot in a path, or a negative value when the
/// path has none.
pub open spec fn last_dot_index(p: Seq<char>) -> int
    decreases p.len(),
{
    if p.len() == 0 {
        -1
    } else if p.last() == '.' {
        p.len() - 1
    } else {
        last_dot_index(p.drop_last())
    }
}

/// The stem of a path: everything before its last dot, or the whole
/// path when it has none.
pub open spec fn spec_stem(p: Seq<char>) -> Seq<char> {
    if last_dot_index(p) < 0 {
        p
    } else {
        p.take(last_dot_index(p))
    }
}

/// A dot-free suffix does not move the last dot.
proof fn lemma_last_dot_take(p: Seq<char>, i: int)
    requires
        0 <= i <= p.len(),
        forall|j: int| i <= j < p.len() ==> p[j] != '.',
    ensures
        last_dot_index(p) == last_dot_index(p.take(i)),
    decreases p.len() - i,
{
    if i == p.len() {
        assert(p.take(i) =~= p);
    } else {
        lemma_last_dot_take(p, i + 1);
        assert(p.take(i + 1).drop_last() =~= p.take(i));
        assert(p.take(i + 1).last() == p[i]);
    }
}

/// The name the log file is renamed to when it rotates: the stem of
/// its path, the rotation timestamp string, an underscore, a random
/// tag, and the `.log` suffix.
pub fn rotated_file_path(file_path: &str, rotation_string: &str, tag: u64) -> (r: String)
    ensures
        r@ == spec_stem(file_path@) + rotation_string@ + "_"@ + spec_dec(tag as int) + ".log"@,
{
    let n = file_path.unicode_len();
    let mut i: usize = n;
    while i > 0
        invariant
            0 <= i <= n,
            n == file_path@.len(),
            forall|j: int| i <= j < n ==> file_path@[j] != '.',
        decreases i,
    {
        if file_path.get_char(i - 1) == '.' {
            proof {
                lemma_last_dot_take(file_path@, i as int);
                assert(file_path@.take(i as int).last() == file_path@[i - 1]);
                assert(last_dot_index(file_path@) == i - 1);
            }
            let mut r = file_path.substring_char(0, i - 1).to_owned();
            r.append(rotation_string);
            r.append("_");
            let t = u64_to_dec(tag);
            r.append(t.as_str());
            r.append(".log");
            proof {
                assert(file_path@.subrange(0, i - 1) =~= spec_stem(file_path@));
            }
            return r;
        }
        i -= 1;
    }
    proof {
        lemma_last_dot_take(file_path@, 0);
        assert(file_path@.take(0) =~= Seq::<char>::empty());
        assert(last_dot_index(file_path@) == -1);
    }
    let mut r = file_path.to_owned();
    r.append(rotation_string);
    r.append("_");
    let t = u64_to_dec(tag);
    r.append(t.as_str());
    r.append(".log");
    r
}

} // verus!
