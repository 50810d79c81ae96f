//! Cleaning caches and unused packages: what each cleanup reports, and the
//! record kept of it.
use vstd::prelude::*;
use crate::db::CacheEntry;
use crate::records::{new_record_id, timestamp_now};
use crate::system::ExecResult;
use crate::text::{chars_of, decimal_chars, decimal_string, format3, owned};

pub mod cache;

verus! {

/// What a cleanup reports.
pub struct CleanupResult {
    pub path: String,
    pub description: String,
    pub bytes_freed: u64,
    pub success: bool,
    pub message: String,
}

/// The space a cleanup freed: the size before less the size after, or 0
/// where the size did not shrink.
pub open spec fn freed(before: u64, after: u64) -> u64 {
    if before >= after {
        (before - after) as u64
    } else {
        0
    }
}

/// A cleanup that worked.
pub open spec fn cleaned(r: CleanupResult, path: Seq<char>, description: Seq<char>, bytes: u64, message: Seq<char>) -> bool {
    &&& r.success
    &&& r.path@ == path
    &&& r.description@ == description
    &&& r.bytes_freed == bytes
    &&& r.message@ == message
}

/// A cleanup that failed.
pub open spec fn not_cleaned(r: CleanupResult, path: Seq<char>, description: Seq<char>, message: Seq<char>) -> bool {
    &&& !r.success
    &&& r.path@ == path
    &&& r.description@ == description
    &&& r.bytes_freed == 0
    &&& r.message@ == message
}

/// The message of a cleanup that freed `bytes`.
pub open spec fn freed_message(prefix: Seq<char>, bytes: u64) -> Seq<char> {
    prefix + decimal_string(bytes as nat) + " bytes"@
}

/// Cleaning the caches this tool knows of.  Emptying directories and running
/// the package tools happen outside this library; these functions say what
/// each cleanup reports given how that went.
pub struct CleanupManager;

fn report(success: bool, path: String, description: &str, bytes_freed: u64, message: String) -> (r: CleanupResult)
    ensures
        r.success == success,
        r.path == path,
        r.description@ == description@,
        r.bytes_freed == bytes_freed,
        r.message == message,
{
    CleanupResult { path, description: owned(description), bytes_freed, success, message }
}

fn freed_text(prefix: &str, bytes: u64) -> (r: String)
    ensures
        r@ == freed_message(prefix@, bytes),
{
    format3(prefix, &decimal_chars(bytes), " bytes")
}

fn saturating_freed(before: u64, after: u64) -> (r: u64)
    ensures
        r == freed(before, after),
{
    before.saturating_sub(after)
}

impl CleanupManager {
    /// What emptying the user cache at `path` reports, given its size before
    /// and, where emptying worked, its size after.
    pub fn clean_user_cache(path: String, size_before: u64, emptied: Result<u64, String>) -> (r: CleanupResult)
        ensures
            match emptied {
                Ok(after) => cleaned(
                    r,
                    path@,
                    "User cache (~/.cache)"@,
                    freed(size_before, after),
                    freed_message("Cleaned ~/.cache: freed "@, freed(size_before, after)),
                ),
                Err(e) => not_cleaned(r, path@, "User cache (~/.cache)"@, "Failed to clean ~/.cache: "@ + e@),
            },
    {
        proof {
            reveal_strlit("");
        }
        match emptied {
            Ok(after) => {
                let bytes = saturating_freed(size_before, after);
                report(true, path, "User cache (~/.cache)", bytes, freed_text("Cleaned ~/.cache: freed ", bytes))
            },
            Err(e) => {
                let m = format3("Failed to clean ~/.cache: ", &chars_of(e.as_str()), "");
                report(false, path, "User cache (~/.cache)", 0, m)
            },
        }
    }

    /// The directory of downloaded package files.
    pub fn apt_cache_path() -> (r: String)
        ensures
            r@ == "/var/cache/apt/archives"@,
    {
        owned("/var/cache/apt/archives")
    }

    /// The privileged command that empties the package cache.
    pub fn apt_clean_script() -> (r: String)
        ensures
            r@ == "apt-get clean 2>&1"@,
    {
        owned("apt-get clean 2>&1")
    }

    /// The privileged command that removes packages nothing needs any more.
    pub fn autoremove_script() -> (r: String)
        ensures
            r@ == "apt-get autoremove --purge -y 2>&1"@,
    {
        owned("apt-get autoremove --purge -y 2>&1")
    }

    /// What emptying the package cache reports, given its size before, how
    /// running the clean command went, and its size after (measured where the
    /// command succeeded).
    pub fn clean_apt_cache(size_before: u64, outcome: Result<ExecResult, String>, size_after: u64) -> (r: CleanupResult)
        ensures
            match outcome {
                Ok(exec) => if exec.success {
                    cleaned(
                        r,
                        "/var/cache/apt/archives"@,
                        "APT package cache"@,
                        freed(size_before, size_after),
                        freed_message("Cleaned APT cache: freed "@, freed(size_before, size_after)),
                    )
                } else {
                    not_cleaned(r, "/var/cache/apt/archives"@, "APT package cache"@, "Failed to clean APT cache: "@ + exec.stderr@)
                },
                Err(e) => not_cleaned(
                    r,
                    "/var/cache/apt/archives"@,
                    "APT package cache"@,
                    "Failed to execute apt-get clean: "@ + e@,
                ),
            },
    {
        proof {
            reveal_strlit("");
        }
        let path = Self::apt_cache_path();
        match outcome {
            Ok(exec) => if exec.success {
                let bytes = saturating_freed(size_before, size_after);
                report(true, path, "APT package cache", bytes, freed_text("Cleaned APT cache: freed ", bytes))
            } else {
                let m = format3("Failed to clean APT cache: ", &chars_of(exec.stderr.as_str()), "");
                report(false, path, "APT package cache", 0, m)
            },
            Err(e) => {
                let m = format3("Failed to execute apt-get clean: ", &chars_of(e.as_str()), "");
                report(false, path, "APT package cache", 0, m)
            },
        }
    }

    /// What removing unused packages reports, given how running the removal
    /// command went.
    pub fn clean_orphan_packages(outcome: Result<ExecResult, String>) -> (r: CleanupResult)
        ensures
            match outcome {
                Ok(exec) => if exec.success {
                    cleaned(r, "orphan-packages"@, "Orphaned packages (autoremove)"@, 0, "Removed orphaned packages"@)
                } else {
                    not_cleaned(
                        r,
                        "orphan-packages"@,
                        "Orphaned packages (autoremove)"@,
                        "Failed to remove orphans: "@ + exec.stderr@,
                    )
                },
                Err(e) => not_cleaned(
                    r,
                    "orphan-packages"@,
                    "Orphaned packages (autoremove)"@,
                    "Failed to execute autoremove: "@ + e@,
                ),
            },
    {
        proof {
            reveal_strlit("");
        }
        let path = owned("orphan-packages");
        match outcome {
            Ok(exec) => if exec.success {
                report(true, path, "Orphaned packages (autoremove)", 0, owned("Removed orphaned packages"))
            } else {
                let m = format3("Failed to remove orphans: ", &chars_of(exec.stderr.as_str()), "");
                report(false, path, "Orphaned packages (autoremove)", 0, m)
            },
            Err(e) => {
                let m = format3("Failed to execute autoremove: ", &chars_of(e.as_str()), "");
                report(false, path, "Orphaned packages (autoremove)", 0, m)
            },
        }
    }

    /// What emptying the thumbnail cache at `path` reports, given its size
    /// before and, where emptying worked, its size after.
    pub fn clean_thumbnails(path: String, size_before: u64, emptied: Result<u64, String>) -> (r: CleanupResult)
        ensures
            match emptied {
                Ok(after) => cleaned(
                    r,
                    path@,
                    "Thumbnail cache"@,
                    freed(size_before, after),
                    freed_message("Cleaned thumbnails: freed "@, freed(size_before, after)),
                ),
                Err(e) => not_cleaned(r, path@, "Thumbnail cache"@, "Failed to clean thumbnails: "@ + e@),
            },
    {
        proof {
            reveal_strlit("");
        }
        match emptied {
            Ok(after) => {
                let bytes = saturating_freed(size_before, after);
                report(true, path, "Thumbnail cache", bytes, freed_text("Cleaned thumbnails: freed ", bytes))
            },
            Err(e) => {
                let m = format3("Failed to clean thumbnails: ", &chars_of(e.as_str()), "");
                report(false, path, "Thumbnail cache", 0, m)
            },
        }
    }

    /// The record kept of a cleanup: a fresh id, its path, description and
    /// freed bytes, and the time.
    pub fn record_cleanup(path: &str, description: &str, bytes_freed: u64) -> (r: CacheEntry)
        ensures
            r.id@.len() == 36,
            r.path@ == path@,
            r.description@ == description@,
            r.size_bytes == bytes_freed as i64,
            r.cleaned_at is Some,
    {
        CacheEntry {
            id: new_record_id(),
            path: owned(path),
            description: owned(description),
            size_bytes: bytes_freed as i64,
            cleaned_at: Some(timestamp_now()),
        }
    }
}

} // verus!
