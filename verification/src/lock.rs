//! The lock that keeps one launcher window at a time: what the lock file
//! says of the process that holds it.

use vstd::prelude::*;
use crate::text::{chars_of, decimal, lemma_decimal_reads_back, parse_u64, parsed_u64, string_of, trim_chars, trim_ws};

verus! {

/// The name of the lock file in the runtime directory.
pub fn lock_file_name() -> (r: &'static str)
    ensures
        r@ == "centerpiece.lock"@,
{
    "centerpiece.lock"
}

/// The process id that a lock file holds: its text without white space at
/// the ends, read as a 32-bit number (`str::parse::<u32>`).
pub open spec fn lock_pid(contents: Seq<char>) -> Option<u32> {
    match parsed_u64(trim_ws(contents)) {
        Some(n) => if n <= u32::MAX {
            Some(n as u32)
        } else {
            None
        },
        None => None,
    }
}

/// The lock file holds the process id written in decimal, and reading it
/// gives that process id back.
pub proof fn lemma_lock_pid_reads_back(pid: u32)
    ensures
        lock_pid(decimal(pid as nat)) == Some(pid),
{
    lemma_decimal_reads_back(pid as u64);
}

/// Reads the process id from the text of a lock file.
pub fn read_pid(contents: &str) -> (r: Option<u32>)
    ensures
        r == lock_pid(contents@),
{
    let cs = chars_of(contents);
    let trimmed = trim_chars(&cs);
    let text = string_of(&trimmed);
    match parse_u64(text.as_str()) {
        Some(n) => if n <= 4294967295u64 {
            Some(n as u32)
        } else {
            None
        },
        None => None,
    }
}

} // verus!
