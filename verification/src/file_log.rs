//! Log files of a service or of an instance: when a write makes the file
//! overflow, and the names of rotated and archived files.  Writing, renaming
//! and removing files is left to the caller.

use vstd::prelude::*;

use crate::config::LogOverflowStrategy;
use crate::text::{concat3, dec_digits, decimal, decimal_wide};

verus! {

/// `path.<index>`: the rotated file of rank `index`.
pub open spec fn rotate_path_spec(path: Seq<char>, index: nat) -> Seq<char> {
    path + "."@ + dec_digits(index)
}

/// The name of the rotated log file of rank `index`.
pub fn rotate_path(path: &str, index: usize) -> (r: String)
    ensures
        r@ == rotate_path_spec(path@, index as nat),
{
    let digits = decimal(index as u64);
    concat3(path, ".", digits.as_str())
}

/// `n` in decimal with leading zeros up to three digits, as `{:03}`.
pub open spec fn three_digits(n: nat) -> Seq<char> {
    if n < 10 {
        "00"@ + dec_digits(n)
    } else if n < 100 {
        "0"@ + dec_digits(n)
    } else {
        dec_digits(n)
    }
}

/// `path.<millis>.<sequence>`: the archived file of a log, named by the time
/// it was archived and its sequence number.
pub open spec fn archive_path_spec(path: Seq<char>, millis: nat, sequence: nat) -> Seq<char> {
    path + "."@ + dec_digits(millis) + "."@ + three_digits(sequence)
}

/// The name of the archived log file made at `millis` milliseconds since
/// the epoch, with sequence number `sequence`.
pub fn archive_path_at(path: &str, millis: u128, sequence: u64) -> (r: String)
    ensures
        r@ == archive_path_spec(path@, millis as nat, sequence as nat),
{
    let stamp = decimal_wide(millis);
    let mut out = concat3(path, ".", stamp.as_str());
    out.append(".");
    if sequence < 10 {
        out.append("00");
    } else if sequence < 100 {
        out.append("0");
    }
    let digits = decimal(sequence);
    out.append(digits.as_str());
    out
}

/// The current time in milliseconds since the Unix epoch, from the system
/// clock; nothing when the clock reads earlier than the epoch.  Nothing is
/// stated of the value: it is the time.
#[verifier::external_body]
fn unix_millis_now() -> (r: Option<u128>) {
    match std::time::SystemTime::now().duration_since(std::time::UNIX_EPOCH) {
        Ok(d) => Some(d.as_millis()),
        Err(_) => None,
    }
}

/// The name of the archived log file made now with sequence number
/// `sequence`; nothing when the clock reads earlier than the epoch.  Which
/// of the two comes is the clock's answer, not stated here.
pub fn archive_path(path: &str, sequence: u64) -> (r: Option<String>)
    ensures
        r matches Some(p) ==> exists|millis: nat| p@ == archive_path_spec(path@, millis, sequence as nat),
{
    match unix_millis_now() {
        Some(millis) => Some(archive_path_at(path, millis, sequence)),
        None => None,
    }
}

/// The renames that rotate a log file kept with `count` older files: each
/// older file moves one rank up, from the oldest kept rank down, then the
/// file itself becomes rank 1.  The file of rank `count` is removed first.
#[derive(Debug)]
pub struct RotationPlan {
    pub remove: String,
    pub renames: Vec<(String, String)>,
}

/// Rename `k` of the rotation of `path` with `count` ranks.
pub open spec fn rotation_rename(path: Seq<char>, count: nat, k: int) -> (Seq<char>, Seq<char>) {
    if k < count - 1 {
        (rotate_path_spec(path, (count - 1 - k) as nat), rotate_path_spec(path, (count - k) as nat))
    } else {
        (path, rotate_path_spec(path, 1))
    }
}

/// The rotation of log file `file` that keeps `count` older files.
pub fn rotation_plan(file: &str, count: usize) -> (r: RotationPlan)
    requires
        count >= 1,
    ensures
        r.remove@ == rotate_path_spec(file@, count as nat),
        r.renames@.len() == count,
        forall|k: int|
            0 <= k < count ==> ((#[trigger] r.renames@[k]).0@, r.renames@[k].1@) == rotation_rename(
                file@,
                count as nat,
                k,
            ),
{
    let remove = rotate_path(file, count);
    let mut renames: Vec<(String, String)> = Vec::new();
    let mut index: usize = count - 1;
    while index >= 1
        invariant
            1 <= count,
            index < count,
            renames@.len() == count - 1 - index,
            forall|k: int|
                0 <= k < renames@.len() ==> ((#[trigger] renames@[k]).0@, renames@[k].1@)
                    == rotation_rename(file@, count as nat, k),
        decreases index,
    {
        let source = rotate_path(file, index);
        let target = rotate_path(file, index + 1);
        renames.push((source, target));
        index = index - 1;
    }
    renames.push((file.to_owned(), rotate_path(file, 1)));
    RotationPlan { remove, renames }
}

/// What a log sink knows between writes: its size limit and overflow
/// handling, the size of the open file, and the last archive number used.
#[derive(Debug, Clone, Copy)]
pub struct FileLogState {
    pub max_file_bytes: Option<u64>,
    pub overflow_strategy: Option<LogOverflowStrategy>,
    pub current_size: u64,
    pub archive_sequence: u64,
}

/// `a.saturating_add(b)` on 64 bits.
pub open spec fn sat_add64(a: u64, b: u64) -> u64 {
    if a + b > u64::MAX {
        u64::MAX
    } else {
        (a + b) as u64
    }
}

/// Whether writing `payload_size` more bytes overflows the file: a limit is
/// set, the file is not empty, and the new size would pass the limit.
pub open spec fn overflows(state: FileLogState, payload_size: u64) -> bool {
    state.max_file_bytes matches Some(max) && state.current_size > 0 && sat_add64(
        state.current_size,
        payload_size,
    ) > max
}

impl FileLogState {
    /// A sink that opened a file of `size` bytes.
    pub fn opened(
        max_file_bytes: Option<u64>,
        overflow_strategy: Option<LogOverflowStrategy>,
        size: u64,
    ) -> (r: Self)
        ensures
            r.max_file_bytes == max_file_bytes,
            r.overflow_strategy == overflow_strategy,
            r.current_size == size,
            r.archive_sequence == 0,
    {
        FileLogState { max_file_bytes, overflow_strategy, current_size: size, archive_sequence: 0 }
    }

    /// Whether the file must overflow before a write of `payload_size`
    /// bytes.
    pub fn must_overflow(&self, payload_size: u64) -> (r: bool)
        ensures
            r == overflows(*self, payload_size),
    {
        match self.max_file_bytes {
            Some(max) => self.current_size > 0 && self.current_size.saturating_add(payload_size) > max,
            None => false,
        }
    }

    /// After a write of `payload_size` bytes.
    pub fn wrote(&mut self, payload_size: u64)
        ensures
            final(self).current_size == sat_add64(old(self).current_size, payload_size),
            final(self).max_file_bytes == old(self).max_file_bytes,
            final(self).overflow_strategy == old(self).overflow_strategy,
            final(self).archive_sequence == old(self).archive_sequence,
    {
        self.current_size = self.current_size.saturating_add(payload_size);
    }

    /// After the file was reopened with `size` bytes.
    pub fn reopened(&mut self, size: u64)
        ensures
            final(self).current_size == size,
            final(self).max_file_bytes == old(self).max_file_bytes,
            final(self).overflow_strategy == old(self).overflow_strategy,
            final(self).archive_sequence == old(self).archive_sequence,
    {
        self.current_size = size;
    }

    /// The sequence number of the next archive, now the last one used.
    pub fn next_archive_sequence(&mut self) -> (r: u64)
        ensures
            r == sat_add64(old(self).archive_sequence, 1),
            final(self).archive_sequence == r,
            final(self).current_size == old(self).current_size,
            final(self).max_file_bytes == old(self).max_file_bytes,
            final(self).overflow_strategy == old(self).overflow_strategy,
    {
        self.archive_sequence = self.archive_sequence.saturating_add(1);
        self.archive_sequence
    }
}

} // verus!
