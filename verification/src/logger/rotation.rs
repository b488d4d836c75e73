//! Rotation of a log file by size.

use vstd::prelude::*;
use crate::text::{push_char, push_str};

verus! {

/// The size at which a log file is rotated: 100 MiB.
pub const MAX_LOG_SIZE: u64 = 104_857_600;

/// A log file that is rotated once it has reached a size: its path, the
/// size at which it is rotated, and the bytes written to it so far.
#[derive(Debug)]
pub struct SizeLimitedAppender {
    path: String,
    max_size: u64,
    current_size: u64,
}

/// `size` grown by `written`, or the largest size there is where that does
/// not fit.
pub open spec fn grown(size: u64, written: usize) -> u64 {
    if size + written <= u64::MAX {
        (size + written) as u64
    } else {
        u64::MAX
    }
}

impl SizeLimitedAppender {
    /// The path of the log file.
    pub closed spec fn spec_path(&self) -> Seq<char> {
        self.path@
    }

    /// The size at which the file is rotated.
    pub closed spec fn spec_max_size(&self) -> u64 {
        self.max_size
    }

    /// The bytes written to the file so far.
    pub closed spec fn spec_current_size(&self) -> u64 {
        self.current_size
    }

    /// An appender for the file at `path`. `file_size` is the size of the
    /// file as it stands, where that could be found out; the appender
    /// starts from it, or from nothing.
    pub fn new(path: String, max_size: u64, file_size: Option<u64>) -> (appender: Self)
        ensures
            appender.spec_path() == path@,
            appender.spec_max_size() == max_size,
            appender.spec_current_size() == (match file_size {
                Some(size) => size,
                None => 0,
            }),
    {
        let current_size = match file_size {
            Some(size) => size,
            None => 0,
        };
        SizeLimitedAppender { path, max_size, current_size }
    }

    /// The path of the log file.
    pub fn path(&self) -> (path: &str)
        ensures
            path@ == self.spec_path(),
    {
        self.path.as_str()
    }

    /// Whether the file is to be rotated before the next write: it has
    /// reached the size.
    pub fn rotation_due(&self) -> (due: bool)
        ensures
            due == (self.spec_current_size() >= self.spec_max_size()),
    {
        self.current_size >= self.max_size
    }

    /// Takes note that the file has been moved away, and gives the path it
    /// is moved to: the path of the log file, a dot and the time stamp. The
    /// new file starts empty.
    pub fn rotate_file(&mut self, timestamp: &str) -> (rotated_path: String)
        ensures
            rotated_path@ == old(self).spec_path() + seq!['.'] + timestamp@,
            final(self).spec_path() == old(self).spec_path(),
            final(self).spec_max_size() == old(self).spec_max_size(),
            final(self).spec_current_size() == 0,
    {
        let mut rotated_path = self.path.clone();
        push_char(&mut rotated_path, '.');
        push_str(&mut rotated_path, timestamp);
        self.current_size = 0;
        rotated_path
    }

    /// Takes note that `bytes_written` bytes were appended to the file.
    pub fn write(&mut self, bytes_written: usize)
        ensures
            final(self).spec_path() == old(self).spec_path(),
            final(self).spec_max_size() == old(self).spec_max_size(),
            final(self).spec_current_size() == grown(old(self).spec_current_size(), bytes_written),
    {
        let written = bytes_written as u64;
        if written > u64::MAX - self.current_size {
            self.current_size = u64::MAX;
        } else {
            self.current_size = self.current_size + written;
        }
    }
}

} // verus!
