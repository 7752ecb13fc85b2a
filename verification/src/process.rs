//! The organising pipeline's decisions: which of several identical files
//! is kept, where a file goes, how a taken destination is avoided, which
//! directories are skipped, and what becomes of each file.

use vstd::prelude::*;
use std::collections::HashMap;
use crate::config::{
    file_type_of, folder_name_spec, is_supported_ext, ClassificationRule, Config, ConfigView, FileType, MonthFormat,
    ProcessingMode,
};
use crate::path::{
    components, components_chars, extension, extension_str, file_name, file_name_str, file_stem, file_stem_str,
    is_absolute, is_absolute_str, join_path, keep_components, path_join, path_starts_with, path_starts_with_str, with_file_name,
    with_file_name_str,
};
use crate::rename::{
    build_unified_filename, is_standard_name, push_str, regex_is_match, regex_match, standard_name, unified_path,
};
use crate::text::{chars_of, decimal, opt_chars, owned, push_decimal, push_decimal_padded, string_of, zero_pad};
use crate::text::{contains_ignore_ascii_case, join, join_chars, split_on};
use crate::time::{is_after, timestamp_after, ExtractedTime, TimeSource, Timestamp};

verus! {

// ---------------------------------------------------------------------------
// Outcomes and counts
// ---------------------------------------------------------------------------

/// What happened to one file.
#[derive(Debug, Clone, Copy, PartialEq, Eq, Structural)]
pub enum ProcessingStatus {
    /// Organised into the output directory.
    Success,
    /// Skipped: already processed, or already present in the output.
    Skipped,
    /// Skipped as a duplicate of a file kept under a cleaner name.
    Duplicate,
    /// Processing failed.
    Failed,
    /// Dry run: would have been organised.
    DryRun,
    /// Not started because the run was cancelled.
    Cancelled,
}

/// Counts of an organising run.
#[derive(Debug, Clone, Copy, PartialEq, Eq, Structural)]
pub struct ProcessingStats {
    pub total_files: usize,
    pub processed: usize,
    pub skipped: usize,
    pub duplicates: usize,
    pub failed: usize,
}

/// `n` plus `k`, wrapping as an atomic counter does.
pub open spec fn wrapping_sum(n: usize, k: usize) -> usize {
    if n + k > usize::MAX {
        (n + k - usize::MAX - 1) as usize
    } else {
        (n + k) as usize
    }
}

fn wrapping_sum_exec(n: usize, k: usize) -> (r: usize)
    ensures
        r == wrapping_sum(n, k),
{
    if n > usize::MAX - k {
        k - (usize::MAX - n) - 1
    } else {
        n + k
    }
}

/// The counts after one more file with `status`: organised and dry-run
/// files count as processed, cancelled ones not at all.
pub open spec fn processing_stats_after(s: ProcessingStats, status: ProcessingStatus) -> ProcessingStats {
    match status {
        ProcessingStatus::Success | ProcessingStatus::DryRun => ProcessingStats { processed: wrapping_sum(s.processed, 1), ..s },
        ProcessingStatus::Skipped => ProcessingStats { skipped: wrapping_sum(s.skipped, 1), ..s },
        ProcessingStatus::Duplicate => ProcessingStats { duplicates: wrapping_sum(s.duplicates, 1), ..s },
        ProcessingStatus::Failed => ProcessingStats { failed: wrapping_sum(s.failed, 1), ..s },
        ProcessingStatus::Cancelled => s,
    }
}

/// The summary line of a run's counts.
pub open spec fn processing_summary_text(s: ProcessingStats) -> Seq<char> {
    "Total: "@ + crate::text::decimal(s.total_files as nat) + ", Processed: "@
        + crate::text::decimal(s.processed as nat) + ", Skipped: "@ + crate::text::decimal(s.skipped as nat)
        + ", Duplicates: "@ + crate::text::decimal(s.duplicates as nat) + ", Failed: "@
        + crate::text::decimal(s.failed as nat)
}

impl ProcessingStats {
    /// All counts zero.
    pub fn new() -> (r: ProcessingStats)
        ensures
            r == (ProcessingStats { total_files: 0, processed: 0, skipped: 0, duplicates: 0, failed: 0 }),
    {
        ProcessingStats { total_files: 0, processed: 0, skipped: 0, duplicates: 0, failed: 0 }
    }

    /// Counts one more file with `status` (see [`processing_stats_after`]).
    pub fn record(&mut self, status: ProcessingStatus)
        ensures
            *final(self) == processing_stats_after(*old(self), status),
    {
        match status {
            ProcessingStatus::Success | ProcessingStatus::DryRun => {
                self.processed = wrapping_sum_exec(self.processed, 1);
            },
            ProcessingStatus::Skipped => {
                self.skipped = wrapping_sum_exec(self.skipped, 1);
            },
            ProcessingStatus::Duplicate => {
                self.duplicates = wrapping_sum_exec(self.duplicates, 1);
            },
            ProcessingStatus::Failed => {
                self.failed = wrapping_sum_exec(self.failed, 1);
            },
            ProcessingStatus::Cancelled => {},
        }
    }

    /// Counts `n` files skipped at once (those older than the watermark).
    pub fn add_skipped(&mut self, n: usize)
        ensures
            *final(self) == (ProcessingStats { skipped: wrapping_sum(old(self).skipped, n), ..*old(self) }),
    {
        self.skipped = wrapping_sum_exec(self.skipped, n);
    }

    /// The summary line (see [`processing_summary_text`]).
    pub fn summary(&self) -> (r: String)
        ensures
            r@ == processing_summary_text(*self),
    {
        let mut v: Vec<char> = Vec::new();
        crate::rename::push_str(&mut v, "Total: ");
        crate::text::push_decimal(&mut v, self.total_files as u64);
        crate::rename::push_str(&mut v, ", Processed: ");
        crate::text::push_decimal(&mut v, self.processed as u64);
        crate::rename::push_str(&mut v, ", Skipped: ");
        crate::text::push_decimal(&mut v, self.skipped as u64);
        crate::rename::push_str(&mut v, ", Duplicates: ");
        crate::text::push_decimal(&mut v, self.duplicates as u64);
        crate::rename::push_str(&mut v, ", Failed: ");
        crate::text::push_decimal(&mut v, self.failed as u64);
        assert(v@ =~= processing_summary_text(*self));
        crate::text::string_of(&v)
    }
}

// ---------------------------------------------------------------------------
// Which copy of a file is kept
// ---------------------------------------------------------------------------

/// The number of bytes of `c` in UTF-8.
pub open spec fn utf8_width(c: char) -> nat {
    if (c as u32) < 0x80 {
        1
    } else if (c as u32) < 0x800 {
        2
    } else if (c as u32) < 0x10000 {
        3
    } else {
        4
    }
}

/// The length of `s` in UTF-8 bytes (`str::len`).
pub open spec fn utf8_len(s: Seq<char>) -> nat
    decreases s.len(),
{
    if s.len() == 0 {
        0
    } else {
        utf8_len(s.drop_last()) + utf8_width(s.last())
    }
}

proof fn lemma_utf8_len_bound(s: Seq<char>)
    ensures
        s.len() <= utf8_len(s) <= 4 * s.len(),
    decreases s.len(),
{
    if s.len() > 0 {
        lemma_utf8_len_bound(s.drop_last());
    }
}

/// The length of a string in UTF-8 bytes (see [`utf8_len`]).
pub fn utf8_length(s: &str) -> (r: u64)
    requires
        4 * s@.len() <= u64::MAX,
    ensures
        r as nat == utf8_len(s@),
{
    let v = chars_of(s);
    let mut total: u64 = 0;
    let mut i: usize = 0;
    while i < v.len()
        invariant
            v@ == s@,
            4 * s@.len() <= u64::MAX,
            i <= v@.len(),
            total as nat == utf8_len(v@.take(i as int)),
        decreases v@.len() - i,
    {
        proof {
            assert(v@.take(i + 1).drop_last() =~= v@.take(i as int));
            lemma_utf8_len_bound(v@.take(i as int));
        }
        let u = v[i] as u32;
        let w: u64 = if u < 0x80 {
            1
        } else if u < 0x800 {
            2
        } else if u < 0x10000 {
            3
        } else {
            4
        };
        total = total + w;
        i = i + 1;
    }
    assert(v@.take(v@.len() as int) =~= v@);
    total
}

/// The patterns that mark a file name as a copy.
pub open spec fn copy_patterns() -> Seq<Seq<char>> {
    seq![
        " - 副本"@,
        "_\\d+$"@,
        " \\d+$"@,
        "\\(\\d+\\)$"@,
        "(?i)[- _]copy"@,
        "(?i)[- _]копия"@,
    ]
}

/// How many of the copy patterns from position `i` on match `stem`; a
/// pattern that does not compile does not match.
pub open spec fn copy_matches_from(stem: Seq<char>, i: int) -> nat
    decreases copy_patterns().len() - i,
{
    if i < 0 || i >= copy_patterns().len() {
        0
    } else {
        (if regex_match(copy_patterns()[i], stem) == Some(true) { 1nat } else { 0nat }) + copy_matches_from(stem, i + 1)
    }
}

/// The priority of a file name, lower is cleaner: the stem's length in
/// bytes plus 1000 for each copy pattern it matches; the largest value for
/// a path without a stem.
pub open spec fn priority_score(p: Seq<char>) -> nat {
    match file_stem(p) {
        Some(stem) => utf8_len(stem) + 1000 * copy_matches_from(stem, 0),
        None => u32::MAX as nat,
    }
}

/// A path whose score fits in 32 bits: its stem's byte length leaves room
/// for every copy penalty.
pub open spec fn score_in_range(p: Seq<char>) -> bool {
    match file_stem(p) {
        Some(stem) => utf8_len(stem) + 6000 <= u32::MAX,
        None => true,
    }
}

proof fn lemma_utf8_len_prefix(s: Seq<char>, i: int)
    requires
        0 <= i <= s.len(),
    ensures
        utf8_len(s.take(i)) <= utf8_len(s),
    decreases s.len() - i,
{
    if i < s.len() {
        lemma_utf8_len_prefix(s, i + 1);
        assert(s.take(i + 1).drop_last() =~= s.take(i));
    } else {
        assert(s.take(i) =~= s);
    }
}

/// Whether a path's priority score fits in 32 bits (see
/// [`score_in_range`]); the stem is measured only as far as needed.
pub fn score_fits(path: &str) -> (r: bool)
    ensures
        r == score_in_range(path@),
{
    let stem = match file_stem_str(path) {
        Some(s) => s,
        None => return true,
    };
    let v = chars_of(stem.as_str());
    let bound: u64 = 0xFFFF_FFFF - 6000;
    let mut total: u64 = 0;
    let mut i: usize = 0;
    while i < v.len()
        invariant
            v@ == stem@,
            file_stem(path@) == Some(stem@),
            bound == 0xFFFF_FFFF - 6000,
            i <= v@.len(),
            total as nat == utf8_len(v@.take(i as int)),
            total <= bound,
        decreases v@.len() - i,
    {
        proof {
            assert(v@.take(i + 1).drop_last() =~= v@.take(i as int));
        }
        let u = v[i] as u32;
        let w: u64 = if u < 0x80 {
            1
        } else if u < 0x800 {
            2
        } else if u < 0x10000 {
            3
        } else {
            4
        };
        total = total + w;
        i = i + 1;
        assert(total as nat == utf8_len(v@.take(i as int)));
        if total > bound {
            proof {
                lemma_utf8_len_prefix(v@, i as int);
            }
            return false;
        }
    }
    assert(v@.take(v@.len() as int) =~= v@);
    true
}

proof fn lemma_copy_matches_bound(stem: Seq<char>, i: int)
    requires
        0 <= i <= 6,
    ensures
        copy_matches_from(stem, i) <= 6 - i,
    decreases 6 - i,
{
    if i < 6 {
        lemma_copy_matches_bound(stem, i + 1);
    }
}

/// The priority score of a file name (see [`priority_score`]).
pub fn filename_priority_score(path: &str) -> (r: u32)
    requires
        score_in_range(path@),
    ensures
        r as nat == priority_score(path@),
{
    let stem = match file_stem_str(path) {
        Some(s) => s,
        None => return u32::MAX,
    };
    let ghost st = stem@;
    proof {
        lemma_utf8_len_bound(st);
    }
    let len = utf8_length(stem.as_str()) as u32;
    let patterns = vec![
        " - 副本",
        "_\\d+$",
        " \\d+$",
        "\\(\\d+\\)$",
        "(?i)[- _]copy",
        "(?i)[- _]копия",
    ];
    let mut penalty: u32 = 0;
    let mut i: usize = 6;
    proof {
        assert(copy_matches_from(st, 6) == 0);
    }
    while i > 0
        invariant
            i <= 6,
            patterns@.len() == 6,
            forall|k: int| 0 <= k < 6 ==> #[trigger] patterns@[k]@ == copy_patterns()[k],
            penalty as nat == 1000 * copy_matches_from(st, i as int),
            copy_matches_from(st, i as int) <= 6 - i,
            stem@ == st,
        decreases i,
    {
        i = i - 1;
        proof {
            lemma_copy_matches_bound(st, i as int + 1);
        }
        match regex_is_match(patterns[i], stem.as_str()) {
            Some(true) => {
                penalty = penalty + 1000;
            },
            _ => {},
        }
    }
    proof {
        lemma_copy_matches_bound(st, 0);
    }
    len + penalty
}

/// Entry `i` wins over entry `j`: a lower score, or the same score and
/// not later in the list.
pub open spec fn beats(paths: Seq<Seq<char>>, i: int, j: int) -> bool {
    ||| priority_score(paths[i]) < priority_score(paths[j])
    ||| (priority_score(paths[i]) == priority_score(paths[j]) && i <= j)
}

/// Entry `b` is the one kept of the files sharing its content hash: it
/// wins over every entry with the same hash.
pub open spec fn best_of_group(paths: Seq<Seq<char>>, hashes: Seq<Option<u64>>, b: int) -> bool {
    &&& 0 <= b < hashes.len()
    &&& hashes[b] is Some
    &&& forall|j: int| 0 <= j < hashes.len() && #[trigger] hashes[j] == hashes[b] ==> beats(paths, b, j)
}

/// Entry `i` is processed: it has no hash, or it is (or has the path of)
/// the kept entry of its hash group. Every other entry is a duplicate.
pub open spec fn kept_file(paths: Seq<Seq<char>>, hashes: Seq<Option<u64>>, i: int) -> bool {
    ||| hashes[i] is None
    ||| exists|b: int| #[trigger] best_of_group(paths, hashes, b) && hashes[b] == hashes[i] && paths[b] == paths[i]
}

/// Within a hash group at most one entry is kept as the best.
pub proof fn lemma_best_of_group_unique(paths: Seq<Seq<char>>, hashes: Seq<Option<u64>>, a: int, b: int)
    requires
        best_of_group(paths, hashes, a),
        best_of_group(paths, hashes, b),
        hashes[a] == hashes[b],
    ensures
        a == b,
{
    assert(beats(paths, a, b));
    assert(beats(paths, b, a));
}

/// The best entry with hash `h` among the first `n`: the lowest score, the
/// earliest of equal scores.
pub open spec fn best_upto(paths: Seq<Seq<char>>, hashes: Seq<Option<u64>>, h: u64, n: int) -> Option<int>
    decreases n,
{
    if n <= 0 || n > hashes.len() {
        None
    } else {
        let prev = best_upto(paths, hashes, h, n - 1);
        if hashes[n - 1] == Some(h) && (match prev {
            None => true,
            Some(p) => priority_score(paths[n - 1]) < priority_score(paths[p]),
        }) {
            Some(n - 1)
        } else {
            prev
        }
    }
}

proof fn lemma_best_upto(paths: Seq<Seq<char>>, hashes: Seq<Option<u64>>, h: u64, n: int)
    requires
        0 <= n <= hashes.len(),
    ensures
        best_upto(paths, hashes, h, n) matches Some(b) ==> {
            &&& 0 <= b < n
            &&& hashes[b] == Some(h)
            &&& forall|j: int| 0 <= j < n && #[trigger] hashes[j] == Some(h) ==> beats(paths, b, j)
        },
        (exists|j: int| 0 <= j < n && #[trigger] hashes[j] == Some(h)) ==> best_upto(paths, hashes, h, n) is Some,
    decreases n,
{
    if n > 0 {
        lemma_best_upto(paths, hashes, h, n - 1);
        if exists|j: int| 0 <= j < n && #[trigger] hashes[j] == Some(h) {
            let j = choose|j: int| 0 <= j < n && #[trigger] hashes[j] == Some(h);
            if j < n - 1 {
                assert(exists|q: int| 0 <= q < n - 1 && #[trigger] hashes[q] == Some(h));
            }
        }
    }
}

/// Every hash group keeps exactly one best entry, and an entry of the
/// group is processed exactly when it has that entry's path.
pub proof fn lemma_each_group_keeps_one(paths: Seq<Seq<char>>, hashes: Seq<Option<u64>>, i: int)
    requires
        paths.len() == hashes.len(),
        0 <= i < hashes.len(),
        hashes[i] is Some,
    ensures
        exists|b: int| #[trigger] best_of_group(paths, hashes, b) && hashes[b] == hashes[i],
        forall|b: int, c: int|
            #[trigger] best_of_group(paths, hashes, b) && #[trigger] best_of_group(paths, hashes, c) && hashes[b]
                == hashes[i] && hashes[c] == hashes[i] ==> b == c,
        forall|b: int| #[trigger] best_of_group(paths, hashes, b) && hashes[b] == hashes[i] ==> kept_file(paths, hashes, b)
            && (kept_file(paths, hashes, i) <==> paths[i] == paths[b]),
{
    let h = hashes[i]->0;
    lemma_best_upto(paths, hashes, h, hashes.len() as int);
    let b = best_upto(paths, hashes, h, hashes.len() as int)->0;
    assert(best_of_group(paths, hashes, b));
    assert forall|x: int, c: int|
        #[trigger] best_of_group(paths, hashes, x) && #[trigger] best_of_group(paths, hashes, c) && hashes[x]
            == hashes[i] && hashes[c] == hashes[i] implies x == c by {
        lemma_best_of_group_unique(paths, hashes, x, c);
    }
    assert forall|x: int| #[trigger] best_of_group(paths, hashes, x) && hashes[x] == hashes[i] implies kept_file(paths, hashes, x)
        && (kept_file(paths, hashes, i) <==> paths[i] == paths[x]) by {
        if kept_file(paths, hashes, i) {
            let y = choose|y: int| #[trigger] best_of_group(paths, hashes, y) && hashes[y] == hashes[i] && paths[y] == paths[i];
            lemma_best_of_group_unique(paths, hashes, x, y);
        }
    }
}

/// Decides which files are processed and which are duplicates (see
/// [`kept_file`]): `hashes[i]` is the content hash of `paths[i]`, `None`
/// when none was computed.
pub fn select_files_to_process(paths: &Vec<String>, hashes: &Vec<Option<u64>>) -> (keep: Vec<bool>)
    requires
        paths@.len() == hashes@.len(),
        forall|i: int| 0 <= i < paths@.len() ==> score_in_range(#[trigger] paths@[i]@),
    ensures
        keep@.len() == paths@.len(),
        forall|i: int| 0 <= i < keep@.len() ==> #[trigger] keep@[i] == kept_file(crate::text::string_seqs(paths@), hashes@, i),
{
    let ghost ps = crate::text::string_seqs(paths@);
    let n = paths.len();
    let mut scores: Vec<u32> = Vec::new();
    let mut k: usize = 0;
    while k < n
        invariant
            n == paths@.len(),
            ps == crate::text::string_seqs(paths@),
            forall|i: int| 0 <= i < paths@.len() ==> score_in_range(#[trigger] paths@[i]@),
            k <= n,
            scores@.len() == k,
            forall|i: int| 0 <= i < k ==> #[trigger] scores@[i] as nat == priority_score(ps[i]),
        decreases n - k,
    {
        assert(ps[k as int] == paths@[k as int]@);
        scores.push(filename_priority_score(paths[k].as_str()));
        k = k + 1;
    }
    let mut best: HashMap<u64, usize> = HashMap::new();
    let mut i: usize = 0;
    while i < n
        invariant
            n == paths@.len(),
            n == hashes@.len(),
            ps == crate::text::string_seqs(paths@),
            scores@.len() == n,
            forall|q: int| 0 <= q < n ==> #[trigger] scores@[q] as nat == priority_score(ps[q]),
            i <= n,
            forall|h: u64| #[trigger] best@.contains_key(h) ==> {
                let b = best@[h] as int;
                &&& 0 <= b < i
                &&& hashes@[b] == Some(h)
                &&& forall|j: int| 0 <= j < i && #[trigger] hashes@[j] == Some(h) ==> beats(ps, b, j)
            },
            forall|j: int| 0 <= j < i && #[trigger] hashes@[j] is Some ==> best@.contains_key(hashes@[j]->0),
        decreases n - i,
    {
        match hashes[i] {
            Some(h) => {
                let current = best.get(&h);
                match current {
                    Some(b) => {
                        let b: usize = *b;
                        if scores[i] < scores[b] {
                            best.insert(h, i);
                        }
                    },
                    None => {
                        best.insert(h, i);
                    },
                }
            },
            None => {},
        }
        i = i + 1;
    }
    let mut keep: Vec<bool> = Vec::new();
    let mut m: usize = 0;
    while m < n
        invariant
            n == paths@.len(),
            n == hashes@.len(),
            ps == crate::text::string_seqs(paths@),
            forall|h: u64| #[trigger] best@.contains_key(h) ==> {
                let b = best@[h] as int;
                &&& 0 <= b < n
                &&& hashes@[b] == Some(h)
                &&& forall|j: int| 0 <= j < n && #[trigger] hashes@[j] == Some(h) ==> beats(ps, b, j)
            },
            forall|j: int| 0 <= j < n && #[trigger] hashes@[j] is Some ==> best@.contains_key(hashes@[j]->0),
            m <= n,
            keep@.len() == m,
            forall|q: int| 0 <= q < m ==> #[trigger] keep@[q] == kept_file(ps, hashes@, q),
        decreases n - m,
    {
        let flag = match hashes[m] {
            None => true,
            Some(h) => {
                let b: usize = match best.get(&h) {
                    Some(b) => *b,
                    None => {
                        assert(false);
                        0
                    },
                };
                let same = crate::text::str_eq(paths[b].as_str(), paths[m].as_str());
                proof {
                    assert(best_of_group(ps, hashes@, b as int));
                    assert(ps[b as int] == paths@[b as int]@);
                    assert(ps[m as int] == paths@[m as int]@);
                    if !same {
                        assert forall|c: int| #[trigger] best_of_group(ps, hashes@, c) && hashes@[c] == hashes@[m as int]
                            implies ps[c] != ps[m as int] by {
                            lemma_best_of_group_unique(ps, hashes@, c, b as int);
                        }
                    }
                }
                same
            },
        };
        keep.push(flag);
        m = m + 1;
    }
    keep
}

// ---------------------------------------------------------------------------
// Destinations
// ---------------------------------------------------------------------------

/// The outcome for one file.
#[derive(Debug)]
pub struct FileResult {
    pub source: String,
    /// Where the file went, or the kept file it duplicates.
    pub destination: Option<String>,
    pub time_info: Option<ExtractedTime>,
    pub status: ProcessingStatus,
    pub error: Option<String>,
}

/// A year as `{}` prints it.
pub open spec fn year_text(y: i32) -> Seq<char> {
    if y < 0 {
        "-"@ + decimal((-y) as nat)
    } else {
        decimal(y as nat)
    }
}

/// A month as `{:02}` prints it.
pub open spec fn month_text(m: u32) -> Seq<char> {
    zero_pad(decimal(m as nat), 2)
}

fn push_year(v: &mut Vec<char>, y: i32)
    ensures
        final(v)@ == old(v)@ + year_text(y),
{
    if y < 0 {
        v.push('-');
        let a: i64 = -(y as i64);
        push_decimal(v, a as u64);
        proof {
            reveal_strlit("-");
        }
        assert(final(v)@ =~= old(v)@ + year_text(y)) by {
            assert(old(v)@ + year_text(y) =~= old(v)@.push('-') + decimal((-y) as nat));
        }
    } else {
        push_decimal(v, y as u64);
    }
}
/// With unified names, a file timed from its metadata (EXIF or a video's
/// own metadata) that is not a preserved standard name takes the file name
/// of its unified path, prefixed `VID` for a video; a file timed from its
/// name or the file system, or any file when names are not unified, keeps
/// its own name.
pub proof fn lemma_unified_destination_names(p: Seq<char>, t: ExtractedTime, c: ConfigView, content: Seq<u8>)
    ensures
        c.unify_filenames && !(c.preserve_standard_names && standard_name(p)) && (t.source == TimeSource::Exif
            || t.source == TimeSource::VideoMetadata) && unified_path(p, t, c, content) is Some && file_name(
            unified_path(p, t, c, content)->0,
        ) is Some ==> dest_file_name(p, t, c, content) == file_name(unified_path(p, t, c, content)->0)->0,
        contains_ignore_ascii_case(c.video_extensions, crate::time::ext_or_empty(p)) ==> crate::rename::name_prefix(
            p,
            c,
            content,
        ) == "VID"@,
        (!c.unify_filenames || t.source == TimeSource::Filename || t.source == TimeSource::FileSystem)
            && file_name(p) is Some ==> dest_file_name(p, t, c, content) == file_name(p)->0,
{
}


/// The file name a source keeps in the output: its own name, unless names
/// are unified, the file has no standard name to preserve, and its time
/// came from metadata; then the file name of its unified path.
pub open spec fn dest_file_name(p: Seq<char>, t: ExtractedTime, c: ConfigView, content: Seq<u8>) -> Seq<char> {
    let own_name = match file_name(p) {
        Some(n) => n,
        None => p,
    };
    if !c.unify_filenames {
        own_name
    } else if c.preserve_standard_names && standard_name(p) {
        own_name
    } else {
        match t.source {
            TimeSource::Exif | TimeSource::VideoMetadata => match unified_path(p, t, c, content) {
                Some(u) => match file_name(u) {
                    Some(n) => n,
                    None => own_name,
                },
                None => own_name,
            },
            TimeSource::Filename | TimeSource::FileSystem => own_name,
        }
    }
}

/// The file name a source gets in the output (see [`dest_file_name`]).
pub fn destination_file_name(source: &str, time_info: &ExtractedTime, config: &Config, content: &[u8]) -> (r: String)
    ensures
        r@ == dest_file_name(source@, *time_info, config@, content@),
{
    let own_name = match file_name_str(source) {
        Some(n) => n,
        None => owned(source),
    };
    if !config.unify_filenames {
        return own_name;
    }
    if config.preserve_standard_names && is_standard_name(source) {
        return own_name;
    }
    match time_info.source {
        TimeSource::Exif | TimeSource::VideoMetadata => match build_unified_filename(source, time_info, config, content) {
            Some(u) => match file_name_str(u.as_str()) {
                Some(n) => n,
                None => own_name,
            },
            None => own_name,
        },
        TimeSource::Filename | TimeSource::FileSystem => own_name,
    }
}

/// Whether a result goes into the unmodified-files list (only when names
/// are unified): failures do; organised or dry-run files do when their
/// time came from the file name or the file system, unless their standard
/// name is preserved; nothing else does.
pub open spec fn listed_as_unmodified(r: FileResult, c: ConfigView) -> bool {
    if !c.unify_filenames {
        false
    } else if r.status == ProcessingStatus::Failed {
        true
    } else if r.status != ProcessingStatus::Success && r.status != ProcessingStatus::DryRun {
        false
    } else if c.preserve_standard_names && standard_name(r.source@) {
        false
    } else {
        match r.time_info {
            Some(t) => t.source == TimeSource::Filename || t.source == TimeSource::FileSystem,
            None => false,
        }
    }
}

/// Whether a result goes into the unmodified-files list (see
/// [`listed_as_unmodified`]).
pub fn should_list_as_unmodified(result: &FileResult, config: &Config) -> (r: bool)
    ensures
        r == listed_as_unmodified(*result, config@),
{
    if !config.unify_filenames {
        return false;
    }
    if result.status == ProcessingStatus::Failed {
        return true;
    }
    if result.status != ProcessingStatus::Success && result.status != ProcessingStatus::DryRun {
        return false;
    }
    if config.preserve_standard_names && is_standard_name(result.source.as_str()) {
        return false;
    }
    match result.time_info {
        Some(t) => t.source == TimeSource::Filename || t.source == TimeSource::FileSystem,
        None => false,
    }
}

/// The folders a time adds under the output directory.
pub open spec fn time_folders(t: Timestamp, c: ConfigView) -> Seq<Seq<char>> {
    match c.classification {
        ClassificationRule::Unclassified => Seq::empty(),
        ClassificationRule::Year => seq![year_text(t.year)],
        ClassificationRule::YearMonth => match c.month_format {
            MonthFormat::Nested => seq![year_text(t.year), month_text(t.month)],
            MonthFormat::Combined => seq![year_text(t.year) + "-"@ + month_text(t.month)],
        },
    }
}

/// The folders a file's kind adds after the time folders, when files are
/// classified by type: RAW files go under `Photos/Raw`.
pub open spec fn type_folders(p: Seq<char>, c: ConfigView) -> Seq<Seq<char>> {
    if !c.classify_by_type {
        Seq::empty()
    } else {
        match extension(p) {
            None => Seq::empty(),
            Some(e) => match file_type_of(c, e) {
                None => Seq::empty(),
                Some(FileType::Photos) => seq![folder_name_spec(FileType::Photos)],
                Some(FileType::Raw) => seq![folder_name_spec(FileType::Photos), folder_name_spec(FileType::Raw)],
                Some(FileType::Videos) => seq![folder_name_spec(FileType::Videos)],
            },
        }
    }
}

/// `base` with each of `parts` joined on in turn.
pub open spec fn join_all(base: Seq<char>, parts: Seq<Seq<char>>) -> Seq<char>
    decreases parts.len(),
{
    if parts.len() == 0 {
        base
    } else {
        path_join(join_all(base, parts.drop_last()), parts.last())
    }
}

fn join_all_exec(base: &str, parts: &Vec<String>) -> (r: String)
    ensures
        r@ == join_all(base@, crate::text::string_seqs(parts@)),
{
    let ghost ps = crate::text::string_seqs(parts@);
    let mut cur = owned(base);
    let mut i: usize = 0;
    while i < parts.len()
        invariant
            i <= parts@.len(),
            ps == crate::text::string_seqs(parts@),
            cur@ == join_all(base@, ps.take(i as int)),
        decreases parts@.len() - i,
    {
        assert(ps.take(i + 1).drop_last() =~= ps.take(i as int));
        assert(ps.take(i + 1).last() == parts@[i as int]@);
        cur = join_path(cur.as_str(), parts[i].as_str());
        i = i + 1;
    }
    assert(ps.take(parts@.len() as int) =~= ps);
    cur
}

/// Why no destination could be built.
#[derive(Debug, Clone, Copy, PartialEq, Eq, Structural)]
pub enum DestinationError {
    /// The source path has no file name.
    InvalidSourceFilename,
}

/// The destination of a file before conflicts are considered: the output
/// directory, the time folders, the type folders, then the file name
/// ([`dest_file_name`] when names are unified, else the source's own file
/// name, refused when it has none).
pub open spec fn base_destination(p: Seq<char>, t: ExtractedTime, c: ConfigView, content: Seq<u8>) -> Option<Seq<char>> {
    let name = if c.unify_filenames {
        Some(dest_file_name(p, t, c, content))
    } else {
        file_name(p)
    };
    match name {
        None => None,
        Some(n) => Some(join_all(c.output_dir, time_folders(t.timestamp, c) + type_folders(p, c) + seq![n])),
    }
}

fn time_folders_exec(t: &Timestamp, config: &Config) -> (r: Vec<String>)
    ensures
        crate::text::string_seqs(r@) == time_folders(*t, config@),
{
    let mut year: Vec<char> = Vec::new();
    push_year(&mut year, t.year);
    assert(year@ =~= year_text(t.year));
    let mut month: Vec<char> = Vec::new();
    push_decimal_padded(&mut month, t.month as u64, 2);
    assert(month@ =~= month_text(t.month));
    let mut r: Vec<String> = Vec::new();
    match config.classification {
        ClassificationRule::Unclassified => {},
        ClassificationRule::Year => {
            r.push(string_of(&year));
        },
        ClassificationRule::YearMonth => match config.month_format {
            MonthFormat::Nested => {
                r.push(string_of(&year));
                r.push(string_of(&month));
            },
            MonthFormat::Combined => {
                let mut both = year;
                both.push('-');
                crate::text::extend_chars(&mut both, &month);
                proof {
                    reveal_strlit("-");
                }
                assert(both@ =~= year_text(t.year) + "-"@ + month_text(t.month));
                r.push(string_of(&both));
            },
        },
    }
    assert(crate::text::string_seqs(r@) =~= time_folders(*t, config@));
    r
}

fn type_folders_exec(source: &str, config: &Config) -> (r: Vec<String>)
    ensures
        crate::text::string_seqs(r@) == type_folders(source@, config@),
{
    let mut r: Vec<String> = Vec::new();
    if config.classify_by_type {
        if let Some(ext) = extension_str(source) {
            match config.get_file_type(ext.as_str()) {
                None => {},
                Some(FileType::Photos) => {
                    r.push(owned(FileType::Photos.folder_name()));
                },
                Some(FileType::Raw) => {
                    r.push(owned(FileType::Photos.folder_name()));
                    r.push(owned(FileType::Raw.folder_name()));
                },
                Some(FileType::Videos) => {
                    r.push(owned(FileType::Videos.folder_name()));
                },
            }
        }
    }
    assert(crate::text::string_seqs(r@) =~= type_folders(source@, config@));
    r
}

/// Builds the destination of a file before conflicts are considered (see
/// [`base_destination`]).
pub fn build_base_destination_path(
    source: &str,
    time_info: &ExtractedTime,
    config: &Config,
    content: &[u8],
) -> (r: Result<String, DestinationError>)
    ensures
        match r {
            Ok(d) => base_destination(source@, *time_info, config@, content@) == Some(d@),
            Err(e) => base_destination(source@, *time_info, config@, content@) is None
                && e == DestinationError::InvalidSourceFilename,
        },
{
    let name = if config.unify_filenames {
        destination_file_name(source, time_info, config, content)
    } else {
        match file_name_str(source) {
            Some(n) => n,
            None => return Err(DestinationError::InvalidSourceFilename),
        }
    };
    let mut parts = time_folders_exec(&time_info.timestamp, config);
    let types = type_folders_exec(source, config);
    let ghost before = crate::text::string_seqs(parts@);
    let mut i: usize = 0;
    while i < types.len()
        invariant
            i <= types@.len(),
            crate::text::string_seqs(parts@) == before + crate::text::string_seqs(types@).take(i as int),
        decreases types@.len() - i,
    {
        let ghost prev = parts@;
        parts.push(owned(types[i].as_str()));
        assert(crate::text::string_seqs(parts@) =~= crate::text::string_seqs(prev).push(types@[i as int]@));
        assert(crate::text::string_seqs(types@).take(i + 1) =~= crate::text::string_seqs(types@).take(i as int).push(types@[i as int]@));
        assert(crate::text::string_seqs(parts@) =~= before + crate::text::string_seqs(types@).take(i + 1));
        i = i + 1;
    }
    assert(crate::text::string_seqs(types@).take(types@.len() as int) =~= crate::text::string_seqs(types@));
    let ghost mid = crate::text::string_seqs(parts@);
    parts.push(name);
    assert(crate::text::string_seqs(parts@) =~= mid.push(name@));
    let d = join_all_exec(config.output_dir.as_str(), &parts);
    assert(time_folders(time_info.timestamp, config@) + type_folders(source@, config@) + seq![name@] =~= crate::text::string_seqs(parts@));
    Ok(d)
}

// ---------------------------------------------------------------------------
// Avoiding taken destinations
// ---------------------------------------------------------------------------

/// The path tried at round `i` to avoid a taken destination: the path
/// itself first, then `stem_i.ext` in the same directory; none from round
/// one on when the path has no stem.
pub open spec fn conflict_candidate(p: Seq<char>, i: nat) -> Option<Seq<char>> {
    if i == 0 {
        Some(p)
    } else {
        match file_stem(p) {
            None => None,
            Some(stem) => {
                let ext = match extension(p) {
                    Some(e) => "."@ + e,
                    None => Seq::empty(),
                };
                Some(with_file_name(p, stem + "_"@ + decimal(i) + ext))
            },
        }
    }
}

/// The number of rounds tried before giving up.
pub open spec fn conflict_rounds() -> nat {
    10000
}

/// A path reported as existing by the probe.
pub open spec fn reported_existing<F: Fn(&str) -> bool>(probe: F, c: Seq<char>) -> bool {
    exists|s: &str| s@ == c && #[trigger] call_ensures(probe, (s,), true)
}

/// A path the probe reported as absent.
pub open spec fn reported_absent<F: Fn(&str) -> bool>(probe: F, c: Seq<char>) -> bool {
    exists|s: &str| s@ == c && #[trigger] call_ensures(probe, (s,), false)
}

/// A candidate is taken when this run already claimed it or the probe
/// reported it as existing.
pub open spec fn candidate_taken<F: Fn(&str) -> bool>(probe: F, occupied: Seq<Seq<char>>, c: Seq<char>) -> bool {
    occupied.contains(c) || reported_existing(probe, c)
}

/// Why no free destination was found.
#[derive(Debug, Clone, Copy, PartialEq, Eq, Structural)]
pub enum ConflictError {
    /// The path is taken and has no file stem to number.
    InvalidFilename,
    /// Every numbered candidate is taken.
    Exhausted,
}

/// The message of a conflict that could not be resolved.
pub open spec fn conflict_text(e: ConflictError) -> Seq<char> {
    match e {
        ConflictError::InvalidFilename => "Invalid filename"@,
        ConflictError::Exhausted => "Could not resolve filename conflict"@,
    }
}

/// The message of a conflict that could not be resolved (see
/// [`conflict_text`]).
pub fn conflict_message(e: ConflictError) -> (r: String)
    ensures
        r@ == conflict_text(e),
{
    match e {
        ConflictError::InvalidFilename => owned("Invalid filename"),
        ConflictError::Exhausted => owned("Could not resolve filename conflict"),
    }
}

fn strings_contain(list: &Vec<String>, p: &str) -> (r: bool)
    ensures
        r == crate::text::string_seqs(list@).contains(p@),
{
    let mut i: usize = 0;
    while i < list.len()
        invariant
            i <= list@.len(),
            forall|j: int| 0 <= j < i ==> list@[j]@ != p@,
        decreases list@.len() - i,
    {
        if crate::text::str_eq(list[i].as_str(), p) {
            assert(crate::text::string_seqs(list@)[i as int] == p@);
            return true;
        }
        i = i + 1;
    }
    assert forall|j: int| 0 <= j < crate::text::string_seqs(list@).len() implies crate::text::string_seqs(list@)[j] != p@ by {
        assert(crate::text::string_seqs(list@)[j] == list@[j]@);
    }
    false
}

/// Finds a free destination for `path` (see [`conflict_candidate`]):
/// the first candidate that `probe` reports as absent and that is not in
/// `occupied`, the paths this run already claimed.
pub fn resolve_filename_conflict_with<F: Fn(&str) -> bool>(
    path: &str,
    occupied: &Vec<String>,
    probe: F,
) -> (r: Result<String, ConflictError>)
    requires
        forall|s: &str| call_requires(probe, (s,)),
    ensures
        match r {
            Ok(p) => exists|i: nat| {
                &&& i < conflict_rounds()
                &&& conflict_candidate(path@, i) == Some(p@)
                &&& !crate::text::string_seqs(occupied@).contains(p@)
                &&& reported_absent(probe, p@)
                &&& forall|j: nat| j < i ==> (#[trigger] conflict_candidate(path@, j) matches Some(c)
                    && candidate_taken(probe, crate::text::string_seqs(occupied@), c))
            },
            Err(ConflictError::InvalidFilename) => file_stem(path@) is None
                && candidate_taken(probe, crate::text::string_seqs(occupied@), path@),
            Err(ConflictError::Exhausted) => file_stem(path@) is Some && forall|j: nat| j < conflict_rounds() ==> (
                #[trigger] conflict_candidate(path@, j) matches Some(c)
                && candidate_taken(probe, crate::text::string_seqs(occupied@), c)),
        },
{
    let ghost occ = crate::text::string_seqs(occupied@);
    let on_disk = probe(path);
    if !on_disk && !strings_contain(occupied, path) {
        proof {
            assert(conflict_candidate(path@, 0) == Some(path@));
            assert(call_ensures(probe, (path,), false));
            assert(reported_absent(probe, path@));
            assert forall|j: nat| j < 0nat implies (#[trigger] conflict_candidate(path@, j) matches Some(c)
                && candidate_taken(probe, occ, c)) by {}
        }
        return Ok(owned(path));
    }
    proof {
        if on_disk {
            assert(call_ensures(probe, (path,), true));
            assert(reported_existing(probe, path@));
        }
        assert(candidate_taken(probe, occ, path@));
    }
    let stem = match file_stem_str(path) {
        None => return Err(ConflictError::InvalidFilename),
        Some(s) => s,
    };
    let mut ext: Vec<char> = Vec::new();
    match extension_str(path) {
        Some(e) => {
            ext.push('.');
            push_str(&mut ext, e.as_str());
        },
        None => {},
    }
    proof {
        reveal_strlit(".");
        reveal_strlit("_");
        assert(ext@ == match extension(path@) {
            Some(e) => "."@ + e,
            None => Seq::<char>::empty(),
        });
    }
    let mut i: u64 = 1;
    while i < 10000
        invariant
            1 <= i <= 10000,
            occ == crate::text::string_seqs(occupied@),
            forall|s: &str| call_requires(probe, (s,)),
            file_stem(path@) == Some(stem@),
            ext@ == match extension(path@) {
                Some(e) => "."@ + e,
                None => Seq::<char>::empty(),
            },
            forall|j: nat| j < i ==> (#[trigger] conflict_candidate(path@, j) matches Some(c)
                && candidate_taken(probe, occ, c)),
        decreases 10000 - i,
    {
        let mut name = chars_of(stem.as_str());
        name.push('_');
        push_decimal(&mut name, i);
        crate::text::extend_chars(&mut name, &ext);
        let name_s = string_of(&name);
        let candidate = with_file_name_str(path, name_s.as_str());
        proof {
            reveal_strlit("_");
            assert(name@ =~= stem@ + "_"@ + decimal(i as nat) + ext@);
            assert(conflict_candidate(path@, i as nat) == Some(candidate@));
        }
        let cs: &str = candidate.as_str();
        let taken_on_disk = probe(cs);
        if !taken_on_disk && !strings_contain(occupied, cs) {
            proof {
                assert(call_ensures(probe, (cs,), false));
                assert(reported_absent(probe, candidate@));
            }
            return Ok(candidate);
        }
        proof {
            if taken_on_disk {
                assert(call_ensures(probe, (cs,), true));
                assert(reported_existing(probe, candidate@));
            }
            assert forall|j: nat| j < i + 1 implies (#[trigger] conflict_candidate(path@, j) matches Some(c)
                && candidate_taken(probe, occ, c)) by {
                if j == i as nat {
                }
            }
        }
        i = i + 1;
    }
    Err(ConflictError::Exhausted)
}

/// Finds a free destination for `path` when no other path of this run is
/// claimed (see [`resolve_filename_conflict_with`]).
pub fn resolve_filename_conflict<F: Fn(&str) -> bool>(path: &str, probe: F) -> (r: Result<String, ConflictError>)
    requires
        forall|s: &str| call_requires(probe, (s,)),
    ensures
        match r {
            Ok(p) => exists|i: nat| {
                &&& i < conflict_rounds()
                &&& conflict_candidate(path@, i) == Some(p@)
                &&& reported_absent(probe, p@)
                &&& forall|j: nat| j < i ==> (#[trigger] conflict_candidate(path@, j) matches Some(c)
                    && reported_existing(probe, c))
            },
            Err(ConflictError::InvalidFilename) => file_stem(path@) is None && reported_existing(probe, path@),
            Err(ConflictError::Exhausted) => file_stem(path@) is Some && forall|j: nat| j < conflict_rounds() ==> (
                #[trigger] conflict_candidate(path@, j) matches Some(c) && reported_existing(probe, c)),
        },
{
    let none: Vec<String> = Vec::new();
    proof {
        assert(crate::text::string_seqs(none@) =~= Seq::<Seq<char>>::empty());
    }
    resolve_filename_conflict_with(path, &none, probe)
}

/// The character content of a reservation.
pub open spec fn reservation_view(x: Result<String, ConflictError>) -> Result<Seq<char>, ConflictError> {
    match x {
        Ok(d) => Ok(d@),
        Err(e) => Err(e),
    }
}

/// The destinations claimed by a sequence of reservations, in order.
pub open spec fn claimed(rs: Seq<Result<String, ConflictError>>) -> Seq<Seq<char>>
    decreases rs.len(),
{
    if rs.len() == 0 {
        Seq::empty()
    } else {
        match rs.last() {
            Ok(d) => claimed(rs.drop_last()).push(d@),
            Err(_) => claimed(rs.drop_last()),
        }
    }
}

/// The reservation of base destination `p` when the destinations in
/// `taken` are claimed: its first candidate not yet claimed; no stem and
/// `p` claimed, or every candidate claimed, is an error.
pub open spec fn first_unclaimed(p: Seq<char>, taken: Seq<Seq<char>>, r: Result<Seq<char>, ConflictError>) -> bool {
    match r {
        Ok(d) => exists|k: nat| {
            &&& k < conflict_rounds()
            &&& conflict_candidate(p, k) == Some(d)
            &&& !taken.contains(d)
            &&& forall|j: nat| j < k ==> (#[trigger] conflict_candidate(p, j) matches Some(c) && taken.contains(c))
        },
        Err(ConflictError::InvalidFilename) => file_stem(p) is None && taken.contains(p),
        Err(ConflictError::Exhausted) => file_stem(p) is Some && forall|j: nat| j < conflict_rounds() ==> (
            #[trigger] conflict_candidate(p, j) matches Some(c) && taken.contains(c)),
    }
}

/// Decides the destinations of a run's files before anything is written:
/// in order, each file takes the first candidate of its base destination
/// that no earlier file of the run has claimed (see [`first_unclaimed`]),
/// so no two files of the run can overwrite each other.
pub fn reserve_destinations(bases: &Vec<String>) -> (r: Vec<Result<String, ConflictError>>)
    ensures
        r@.len() == bases@.len(),
        forall|i: int| 0 <= i < r@.len() ==> first_unclaimed(bases@[i]@, claimed(r@.take(i)), reservation_view(#[trigger] r@[i])),
        forall|i: int, j: int| 0 <= i < j < r@.len() && (#[trigger] r@[i]) is Ok && (#[trigger] r@[j]) is Ok
            ==> r@[i]->Ok_0@ != r@[j]->Ok_0@,
{
    let mut r: Vec<Result<String, ConflictError>> = Vec::new();
    let mut occupied: Vec<String> = Vec::new();
    let mut i: usize = 0;
    proof {
        assert(r@.take(0) =~= Seq::<Result<String, ConflictError>>::empty());
        assert(crate::text::string_seqs(occupied@) =~= Seq::<Seq<char>>::empty());
    }
    while i < bases.len()
        invariant
            i <= bases@.len(),
            r@.len() == i,
            crate::text::string_seqs(occupied@) == claimed(r@),
            forall|q: int| 0 <= q < i ==> first_unclaimed(bases@[q]@, claimed(r@.take(q)), reservation_view(#[trigger] r@[q])),
        decreases bases@.len() - i,
    {
        let ghost before = r@;
        let nothing_exists = |_p: &str| -> (b: bool)
            ensures
                !b,
            { false };
        let res = resolve_filename_conflict_with(bases[i].as_str(), &occupied, nothing_exists);
        proof {
            assert(before.take(i as int) =~= before);
            assert forall|c: Seq<char>| !(#[trigger] reported_existing(nothing_exists, c)) by {}
        }
        match &res {
            Ok(d) => {
                occupied.push(owned(d.as_str()));
            },
            Err(_) => {},
        }
        r.push(res);
        proof {
            assert(r@.drop_last() =~= before);
            assert(r@.take(i as int) =~= before);
            assert forall|q: int| 0 <= q < i + 1 implies first_unclaimed(bases@[q]@, claimed(r@.take(q)),
                reservation_view(#[trigger] r@[q])) by {
                if q < i {
                    assert(r@.take(q) =~= before.take(q));
                    assert(r@[q] == before[q]);
                }
            }
        }
        i = i + 1;
    }
    proof {
        lemma_reservations_distinct(bases@, r@);
    }
    r
}

proof fn lemma_claimed_contains(rs: Seq<Result<String, ConflictError>>, q: int)
    requires
        0 <= q < rs.len(),
        rs[q] is Ok,
    ensures
        claimed(rs).contains(rs[q]->Ok_0@),
    decreases rs.len(),
{
    if q < rs.len() - 1 {
        lemma_claimed_contains(rs.drop_last(), q);
        let c = claimed(rs.drop_last());
        let k = choose|k: int| 0 <= k < c.len() && c[k] == rs[q]->Ok_0@;
        match rs.last() {
            Ok(d) => assert(claimed(rs)[k] == c[k]),
            Err(_) => {},
        }
    } else {
        match rs.last() {
            Ok(d) => assert(claimed(rs)[claimed(rs).len() - 1] == d@),
            Err(_) => {},
        }
    }
}

proof fn lemma_reservations_distinct(bases: Seq<String>, r: Seq<Result<String, ConflictError>>)
    requires
        r.len() == bases.len(),
        forall|i: int| 0 <= i < r.len() ==> first_unclaimed(bases[i]@, claimed(r.take(i)), reservation_view(#[trigger] r[i])),
    ensures
        forall|i: int, j: int| 0 <= i < j < r.len() && (#[trigger] r[i]) is Ok && (#[trigger] r[j]) is Ok
            ==> r[i]->Ok_0@ != r[j]->Ok_0@,
{
    assert forall|i: int, j: int| 0 <= i < j < r.len() && (#[trigger] r[i]) is Ok && (#[trigger] r[j]) is Ok
        implies r[i]->Ok_0@ != r[j]->Ok_0@ by {
        lemma_claimed_contains(r.take(j), i);
        assert(r.take(j)[i] == r[i]);
        assert(first_unclaimed(bases[j]@, claimed(r.take(j)), reservation_view(r[j])));
    }
}

// ---------------------------------------------------------------------------
// Excluded directories
// ---------------------------------------------------------------------------

/// `p` lies in an excluded directory: under an absolute exclusion, or
/// with a component equal to the final name of a relative one.
pub open spec fn excluded(p: Seq<char>, excludes: Seq<Seq<char>>) -> bool {
    exists|k: int| 0 <= k < excludes.len() && #[trigger] excluded_by(p, excludes[k])
}

/// `p` is excluded by one entry of the list.
pub open spec fn excluded_by(p: Seq<char>, ex: Seq<char>) -> bool {
    if is_absolute(ex) {
        path_starts_with(p, ex)
    } else {
        match file_name(ex) {
            Some(n) => components(p).contains(n),
            None => false,
        }
    }
}

/// An excluded directory takes its whole subtree with it: whatever lies
/// below an excluded path is excluded too.
pub proof fn lemma_exclusion_covers_subtree(p: Seq<char>, child: Seq<char>, excludes: Seq<Seq<char>>)
    requires
        excluded(p, excludes),
        !is_absolute(child),
    ensures
        excluded(path_join(p, child), excludes),
{
    let k = choose|k: int| 0 <= k < excludes.len() && #[trigger] excluded_by(p, excludes[k]);
    let ex = excludes[k];
    crate::path::lemma_components_join(p, child);
    if is_absolute(ex) {
        crate::path::lemma_starts_with_join(p, child, ex);
    } else {
        let n = file_name(ex)->0;
        let i = choose|i: int| 0 <= i < components(p).len() && components(p)[i] == n;
        if p.len() == 0 {
            let one = seq![Seq::<char>::empty()];
            assert(split_on(p, '/') =~= one);
            assert(one.drop_last() =~= Seq::<Seq<char>>::empty());
            assert(keep_components(Seq::<Seq<char>>::empty()) =~= Seq::<Seq<char>>::empty());
            assert(components(p) =~= Seq::<Seq<char>>::empty());
        }
        let rest = keep_components(split_on(child, '/'));
        assert((components(p) + rest)[i] == n);
    }
    assert(excluded_by(path_join(p, child), excludes[k]));
}

fn has_component(p: &str, name: &str) -> (r: bool)
    ensures
        r == components(p@).contains(name@),
{
    let v = chars_of(p);
    let n = chars_of(name);
    let comps = components_chars(&v);
    let mut i: usize = 0;
    while i < comps.len()
        invariant
            v@ == p@,
            n@ == name@,
            comps@.len() == components(p@).len(),
            forall|q: int| 0 <= q < comps@.len() ==> (#[trigger] comps@[q])@ == components(p@)[q],
            i <= comps@.len(),
            forall|q: int| 0 <= q < i ==> components(p@)[q] != name@,
        decreases comps@.len() - i,
    {
        if crate::text::chars_eq(&comps[i], &n) {
            assert(components(p@)[i as int] == name@);
            return true;
        }
        i = i + 1;
    }
    false
}

/// Whether a path lies in an excluded directory (see [`excluded`]).
pub fn is_excluded_dir(path: &str, config: &Config) -> (r: bool)
    ensures
        r == excluded(path@, config@.exclude_dirs),
{
    let ghost ex = config@.exclude_dirs;
    let mut k: usize = 0;
    while k < config.exclude_dirs.len()
        invariant
            k <= config.exclude_dirs@.len(),
            ex == config@.exclude_dirs,
            ex == crate::text::string_seqs(config.exclude_dirs@),
            forall|q: int| 0 <= q < k ==> !#[trigger] excluded_by(path@, ex[q]),
        decreases config.exclude_dirs@.len() - k,
    {
        let e = config.exclude_dirs[k].as_str();
        assert(ex[k as int] == e@);
        let hit = if is_absolute_str(e) {
            path_starts_with_str(path, e)
        } else {
            match file_name_str(e) {
                Some(n) => has_component(path, n.as_str()),
                None => false,
            }
        };
        assert(hit == excluded_by(path@, ex[k as int]));
        if hit {
            return true;
        }
        k = k + 1;
    }
    false
}

// ---------------------------------------------------------------------------
// What becomes of one file
// ---------------------------------------------------------------------------

/// What is known so far of one file being organised. The first fields
/// are known up front; each `Option` is filled in when the step that
/// observes it has been carried out.
#[derive(Debug)]
pub struct FileFacts {
    pub source: String,
    /// The content hash computed while looking for duplicates.
    pub content_hash: Option<u64>,
    /// Whether that hash is among the hashes of the files already in the
    /// output (looked up in supplement mode).
    pub in_target: bool,
    /// Whether the incremental state says the file was already processed
    /// unchanged.
    pub already_processed: Option<bool>,
    /// The capture time, or why it could not be read.
    pub time: Option<Result<ExtractedTime, String>>,
    /// The destination the incremental state records for this content.
    pub state_duplicate: Option<Option<String>>,
    /// A destination decided for this file in advance (see
    /// [`reserve_destinations`]); it stands in for the base destination.
    pub reserved_dest: Option<String>,
    /// Whether the base destination exists.
    pub dest_exists: Option<bool>,
    /// The content hash of the existing base destination.
    pub dest_hash: Option<Option<u64>>,
    /// A free destination, or why none was found.
    pub free_dest: Option<Result<String, String>>,
    /// What copying, moving or linking the file gave.
    pub operation: Option<Result<(), String>>,
}

/// The content of [`FileFacts`].
pub struct FileFactsView {
    pub source: Seq<char>,
    pub content_hash: Option<u64>,
    pub in_target: bool,
    pub already_processed: Option<bool>,
    pub time: Option<Result<ExtractedTime, Seq<char>>>,
    pub state_duplicate: Option<Option<Seq<char>>>,
    pub reserved_dest: Option<Seq<char>>,
    pub dest_exists: Option<bool>,
    pub dest_hash: Option<Option<u64>>,
    pub free_dest: Option<Result<Seq<char>, Seq<char>>>,
    pub operation: Option<Result<(), Seq<char>>>,
}

impl View for FileFacts {
    type V = FileFactsView;

    open spec fn view(&self) -> FileFactsView {
        FileFactsView {
            source: self.source@,
            content_hash: self.content_hash,
            in_target: self.in_target,
            already_processed: self.already_processed,
            time: match self.time {
                Some(Ok(t)) => Some(Ok(t)),
                Some(Err(e)) => Some(Err(e@)),
                None => None,
            },
            state_duplicate: match self.state_duplicate {
                Some(o) => Some(opt_chars(o)),
                None => None,
            },
            reserved_dest: opt_chars(self.reserved_dest),
            dest_exists: self.dest_exists,
            dest_hash: self.dest_hash,
            free_dest: match self.free_dest {
                Some(Ok(p)) => Some(Ok(p@)),
                Some(Err(e)) => Some(Err(e@)),
                None => None,
            },
            operation: match self.operation {
                Some(Ok(())) => Some(Ok(())),
                Some(Err(e)) => Some(Err(e@)),
                None => None,
            },
        }
    }
}

/// The content of a [`FileResult`].
pub struct FileResultView {
    pub source: Seq<char>,
    pub destination: Option<Seq<char>>,
    pub time_info: Option<ExtractedTime>,
    pub status: ProcessingStatus,
    pub error: Option<Seq<char>>,
}

impl View for FileResult {
    type V = FileResultView;

    open spec fn view(&self) -> FileResultView {
        FileResultView {
            source: self.source@,
            destination: opt_chars(self.destination),
            time_info: self.time_info,
            status: self.status,
            error: opt_chars(self.error),
        }
    }
}

/// The next step for one file.
#[derive(Debug)]
pub enum FileStep {
    /// Ask the incremental state whether the file was processed already.
    CheckProcessed,
    /// Read the file's capture time.
    ExtractTime,
    /// Ask the incremental state for a file with this content hash.
    LookUpStateDuplicate(u64),
    /// Check whether this destination exists.
    CheckDestination(String),
    /// Hash the file at this destination.
    HashDestination(String),
    /// Find a free destination near this one.
    FindFreeDestination(String),
    /// Copy, move or link the file to this destination.
    Perform(String),
    /// The file is settled. `record` says whether its destination is kept
    /// for reporting duplicates and recorded in the incremental state.
    Done { result: FileResult, record: bool },
}

/// The content of a [`FileStep`].
pub enum FileStepView {
    CheckProcessed,
    ExtractTime,
    LookUpStateDuplicate(u64),
    CheckDestination(Seq<char>),
    HashDestination(Seq<char>),
    FindFreeDestination(Seq<char>),
    Perform(Seq<char>),
    Done { result: FileResultView, record: bool },
}

impl View for FileStep {
    type V = FileStepView;

    open spec fn view(&self) -> FileStepView {
        match self {
            FileStep::CheckProcessed => FileStepView::CheckProcessed,
            FileStep::ExtractTime => FileStepView::ExtractTime,
            FileStep::LookUpStateDuplicate(h) => FileStepView::LookUpStateDuplicate(*h),
            FileStep::CheckDestination(p) => FileStepView::CheckDestination(p@),
            FileStep::HashDestination(p) => FileStepView::HashDestination(p@),
            FileStep::FindFreeDestination(p) => FileStepView::FindFreeDestination(p@),
            FileStep::Perform(p) => FileStepView::Perform(p@),
            FileStep::Done { result, record } => FileStepView::Done { result: result@, record: *record },
        }
    }
}

/// A settled file.
pub open spec fn settled(
    source: Seq<char>,
    status: ProcessingStatus,
    destination: Option<Seq<char>>,
    time_info: Option<ExtractedTime>,
    error: Option<Seq<char>>,
    record: bool,
) -> FileStepView {
    FileStepView::Done {
        result: FileResultView { source, destination, time_info, status, error },
        record,
    }
}

/// The message of a destination that cannot be built.
pub open spec fn invalid_source_message() -> Seq<char> {
    "Invalid source filename"@
}

/// The steps after the destination `dest` is chosen: a dry run settles
/// it as such; otherwise the file operation is carried out and settles it
/// as organised or failed.
pub open spec fn after_destination(f: FileFactsView, dry_run: bool, t: ExtractedTime, dest: Seq<char>) -> FileStepView {
    if dry_run {
        settled(f.source, ProcessingStatus::DryRun, Some(dest), Some(t), None, true)
    } else {
        match f.operation {
            None => FileStepView::Perform(dest),
            Some(Err(e)) => settled(f.source, ProcessingStatus::Failed, Some(dest), Some(t), Some(e), false),
            Some(Ok(())) => settled(f.source, ProcessingStatus::Success, Some(dest), Some(t), None, true),
        }
    }
}

/// The steps when the base destination is taken and the file must not
/// overwrite it: a free destination is looked for.
pub open spec fn after_conflict(f: FileFactsView, dry_run: bool, t: ExtractedTime, base: Seq<char>) -> FileStepView {
    match f.free_dest {
        None => FileStepView::FindFreeDestination(base),
        Some(Err(e)) => settled(f.source, ProcessingStatus::Failed, None, Some(t), Some(e), false),
        Some(Ok(p)) => after_destination(f, dry_run, t, p),
    }
}

/// What becomes of a file when its base destination exists: in full mode
/// an identical file there counts as organised and a different one is
/// overwritten; in the other modes an identical file means the file is
/// skipped and a different one means a free destination is found. When
/// either hash is missing the contents count as different.
pub open spec fn when_destination_exists(f: FileFactsView, c: ConfigView, t: ExtractedTime, base: Seq<char>) -> FileStepView {
    let full = c.processing_mode == ProcessingMode::Full;
    match f.content_hash {
        Some(sh) => match f.dest_hash {
            None => FileStepView::HashDestination(base),
            Some(Some(dh)) => if sh == dh {
                if full {
                    settled(f.source, ProcessingStatus::Success, Some(base), Some(t), None, false)
                } else {
                    settled(f.source, ProcessingStatus::Skipped, Some(base), Some(t), None, false)
                }
            } else if full {
                after_destination(f, c.dry_run, t, base)
            } else {
                after_conflict(f, c.dry_run, t, base)
            },
            Some(None) => if full {
                after_destination(f, c.dry_run, t, base)
            } else {
                after_conflict(f, c.dry_run, t, base)
            },
        },
        None => if full {
            after_destination(f, c.dry_run, t, base)
        } else {
            after_conflict(f, c.dry_run, t, base)
        },
    }
}

/// The next step for a file, given what is known of it: in supplement
/// mode content already in the output is skipped; in incremental mode a
/// file processed unchanged before is skipped; a file without a capture
/// time fails; in incremental mode content the state already knows is a
/// duplicate of the recorded destination; then the base destination is
/// taken (the reserved one, else the one built for the file) and, when it
/// exists, handled by [`when_destination_exists`].
pub open spec fn next_file_step(c: ConfigView, content: Seq<u8>, f: FileFactsView) -> FileStepView {
    let incremental = c.processing_mode == ProcessingMode::Incremental;
    if c.processing_mode == ProcessingMode::Supplement && f.content_hash is Some && f.in_target {
        settled(f.source, ProcessingStatus::Skipped, None, None, None, false)
    } else if incremental && f.already_processed is None {
        FileStepView::CheckProcessed
    } else if incremental && f.already_processed == Some(true) {
        settled(f.source, ProcessingStatus::Skipped, None, None, None, false)
    } else {
        match f.time {
            None => FileStepView::ExtractTime,
            Some(Err(e)) => settled(f.source, ProcessingStatus::Failed, None, None, Some(e), false),
            Some(Ok(t)) => {
                if incremental && f.content_hash is Some && f.state_duplicate is None {
                    FileStepView::LookUpStateDuplicate(f.content_hash->0)
                } else if incremental && f.content_hash is Some && f.state_duplicate matches Some(Some(existing)) {
                    settled(f.source, ProcessingStatus::Duplicate, Some(f.state_duplicate->0->0), Some(t), None, false)
                } else {
                    match (match f.reserved_dest {
                        Some(d) => Some(d),
                        None => base_destination(f.source, t, c, content),
                    }) {
                        None => settled(f.source, ProcessingStatus::Failed, None, Some(t), Some(invalid_source_message()), false),
                        Some(base) => match f.dest_exists {
                            None => FileStepView::CheckDestination(base),
                            Some(false) => after_destination(f, c.dry_run, t, base),
                            Some(true) => when_destination_exists(f, c, t, base),
                        },
                    }
                }
            },
        }
    }
}

/// In incremental mode, content that an earlier run already organised is
/// a duplicate: once the file is known not to be processed unchanged, has
/// a capture time, and the state's lookup of its content hash found a
/// recorded destination `d`, the file settles as a duplicate of `d`
/// without being organised again or recorded.
pub proof fn lemma_incremental_known_content_is_duplicate(
    c: ConfigView,
    content: Seq<u8>,
    f: FileFactsView,
    t: ExtractedTime,
    d: Seq<char>,
)
    requires
        c.processing_mode == ProcessingMode::Incremental,
        f.already_processed == Some(false),
        f.content_hash is Some,
        f.time == Some(Ok::<ExtractedTime, Seq<char>>(t)),
        f.state_duplicate == Some(Some(d)),
    ensures
        next_file_step(c, content, f) == (FileStepView::Done {
            result: FileResultView {
                source: f.source,
                destination: Some(d),
                time_info: Some(t),
                status: ProcessingStatus::Duplicate,
                error: None,
            },
            record: false,
        }),
{
}

/// Each step asks for a fact that is not yet known, so filling it in
/// makes progress; a settled file keeps its source, organised, dry-run and
/// duplicate results name a destination, and failed ones an error.
pub proof fn lemma_steps_ask_for_unknowns(c: ConfigView, content: Seq<u8>, f: FileFactsView)
    ensures
        next_file_step(c, content, f) is CheckProcessed ==> f.already_processed is None,
        next_file_step(c, content, f) is ExtractTime ==> f.time is None,
        next_file_step(c, content, f) is LookUpStateDuplicate ==> f.state_duplicate is None,
        next_file_step(c, content, f) is CheckDestination ==> f.dest_exists is None,
        next_file_step(c, content, f) is HashDestination ==> f.dest_hash is None,
        next_file_step(c, content, f) is FindFreeDestination ==> f.free_dest is None,
        next_file_step(c, content, f) is Perform ==> f.operation is None,
        next_file_step(c, content, f) matches FileStepView::Done { result, .. } ==> result.source == f.source
            && ((result.status == ProcessingStatus::Success || result.status == ProcessingStatus::DryRun
            || result.status == ProcessingStatus::Duplicate) ==> result.destination is Some)
            && (result.status == ProcessingStatus::Failed ==> result.error is Some),
{
}

fn done(
    source: &str,
    status: ProcessingStatus,
    destination: Option<String>,
    time_info: Option<ExtractedTime>,
    error: Option<String>,
    record: bool,
) -> (r: FileStep)
    ensures
        r@ == settled(source@, status, opt_chars(destination), time_info, opt_chars(error), record),
{
    FileStep::Done { result: FileResult { source: owned(source), destination, time_info, status, error }, record }
}

fn after_destination_exec(f: &FileFacts, dry_run: bool, t: ExtractedTime, dest: String) -> (r: FileStep)
    ensures
        r@ == after_destination(f@, dry_run, t, dest@),
{
    if dry_run {
        return done(f.source.as_str(), ProcessingStatus::DryRun, Some(dest), Some(t), None, true);
    }
    match &f.operation {
        None => FileStep::Perform(dest),
        Some(Err(e)) => done(f.source.as_str(), ProcessingStatus::Failed, Some(dest), Some(t), Some(owned(e.as_str())), false),
        Some(Ok(())) => done(f.source.as_str(), ProcessingStatus::Success, Some(dest), Some(t), None, true),
    }
}

fn after_conflict_exec(f: &FileFacts, dry_run: bool, t: ExtractedTime, base: String) -> (r: FileStep)
    ensures
        r@ == after_conflict(f@, dry_run, t, base@),
{
    match &f.free_dest {
        None => FileStep::FindFreeDestination(base),
        Some(Err(e)) => done(f.source.as_str(), ProcessingStatus::Failed, None, Some(t), Some(owned(e.as_str())), false),
        Some(Ok(p)) => after_destination_exec(f, dry_run, t, owned(p.as_str())),
    }
}

fn when_destination_exists_exec(f: &FileFacts, config: &Config, t: ExtractedTime, base: String) -> (r: FileStep)
    ensures
        r@ == when_destination_exists(f@, config@, t, base@),
{
    let full = config.processing_mode == ProcessingMode::Full;
    match f.content_hash {
        Some(sh) => match f.dest_hash {
            None => FileStep::HashDestination(base),
            Some(Some(dh)) => if sh == dh {
                if full {
                    done(f.source.as_str(), ProcessingStatus::Success, Some(base), Some(t), None, false)
                } else {
                    done(f.source.as_str(), ProcessingStatus::Skipped, Some(base), Some(t), None, false)
                }
            } else if full {
                after_destination_exec(f, config.dry_run, t, base)
            } else {
                after_conflict_exec(f, config.dry_run, t, base)
            },
            Some(None) => if full {
                after_destination_exec(f, config.dry_run, t, base)
            } else {
                after_conflict_exec(f, config.dry_run, t, base)
            },
        },
        None => if full {
            after_destination_exec(f, config.dry_run, t, base)
        } else {
            after_conflict_exec(f, config.dry_run, t, base)
        },
    }
}

/// The next step for a file (see [`next_file_step`]): the caller carries
/// out the step, fills in what it observed, and asks again until the file
/// is settled. `content` is the file's content, used to recognise motion
/// photos when names are unified.
pub fn process_single_file(config: &Config, content: &[u8], facts: &FileFacts) -> (r: FileStep)
    ensures
        r@ == next_file_step(config@, content@, facts@),
{
    let incremental = config.processing_mode == ProcessingMode::Incremental;
    if config.processing_mode == ProcessingMode::Supplement && facts.content_hash.is_some() && facts.in_target {
        return done(facts.source.as_str(), ProcessingStatus::Skipped, None, None, None, false);
    }
    if incremental {
        match facts.already_processed {
            None => return FileStep::CheckProcessed,
            Some(true) => return done(facts.source.as_str(), ProcessingStatus::Skipped, None, None, None, false),
            Some(false) => {},
        }
    }
    let t = match &facts.time {
        None => return FileStep::ExtractTime,
        Some(Err(e)) => return done(facts.source.as_str(), ProcessingStatus::Failed, None, None, Some(owned(e.as_str())), false),
        Some(Ok(t)) => *t,
    };
    if incremental {
        if let Some(h) = facts.content_hash {
            match &facts.state_duplicate {
                None => return FileStep::LookUpStateDuplicate(h),
                Some(Some(existing)) => return done(
                    facts.source.as_str(),
                    ProcessingStatus::Duplicate,
                    Some(owned(existing.as_str())),
                    Some(t),
                    None,
                    false,
                ),
                Some(None) => {},
            }
        }
    }
    let built = match &facts.reserved_dest {
        Some(d) => Ok(owned(d.as_str())),
        None => build_base_destination_path(facts.source.as_str(), &t, config, content),
    };
    let base = match built {
        Ok(b) => b,
        Err(_) => return done(
            facts.source.as_str(),
            ProcessingStatus::Failed,
            None,
            Some(t),
            Some(owned("Invalid source filename")),
            false,
        ),
    };
    match facts.dest_exists {
        None => FileStep::CheckDestination(base),
        Some(false) => after_destination_exec(facts, config.dry_run, t, base),
        Some(true) => when_destination_exists_exec(facts, config, t, base),
    }
}

// ---------------------------------------------------------------------------
// Duplicates, the unmodified list and the incremental watermark
// ---------------------------------------------------------------------------

/// The result of a file skipped as a duplicate: it points at where its
/// kept copy went, when that is known, else at the kept copy itself.
pub fn duplicate_result(source: &str, recorded: Option<String>, best: Option<String>) -> (r: FileResult)
    ensures
        r@ == (FileResultView {
            source: source@,
            destination: match recorded {
                Some(d) => Some(d@),
                None => opt_chars(best),
            },
            time_info: None,
            status: ProcessingStatus::Duplicate,
            error: None,
        }),
{
    let destination = match recorded {
        Some(d) => Some(d),
        None => best,
    };
    FileResult { source: owned(source), destination, time_info: None, status: ProcessingStatus::Duplicate, error: None }
}

/// The result of a file not started because the run was cancelled.
pub fn cancelled_result(source: &str) -> (r: FileResult)
    ensures
        r@ == (FileResultView {
            source: source@,
            destination: None,
            time_info: None,
            status: ProcessingStatus::Cancelled,
            error: None,
        }),
{
    FileResult { source: owned(source), destination: None, time_info: None, status: ProcessingStatus::Cancelled, error: None }
}

/// The sources of the results listed as unmodified, in order.
pub open spec fn unmodified_of(results: Seq<FileResult>, c: ConfigView) -> Seq<Seq<char>>
    decreases results.len(),
{
    if results.len() == 0 {
        Seq::empty()
    } else {
        let rest = unmodified_of(results.drop_last(), c);
        if listed_as_unmodified(results.last(), c) {
            rest.push(results.last().source@)
        } else {
            rest
        }
    }
}

/// The sources of the results listed as unmodified (see
/// [`listed_as_unmodified`]).
pub fn unmodified_results(results: &Vec<FileResult>, config: &Config) -> (r: Vec<String>)
    ensures
        crate::text::string_seqs(r@) == unmodified_of(results@, config@),
{
    let mut r: Vec<String> = Vec::new();
    let mut i: usize = 0;
    while i < results.len()
        invariant
            i <= results@.len(),
            crate::text::string_seqs(r@) == unmodified_of(results@.take(i as int), config@),
        decreases results@.len() - i,
    {
        assert(results@.take(i + 1).drop_last() =~= results@.take(i as int));
        let res = &results[i];
        if should_list_as_unmodified(res, config) {
            let ghost before = r@;
            r.push(owned(res.source.as_str()));
            assert(crate::text::string_seqs(r@) =~= crate::text::string_seqs(before).push(res.source@));
        }
        i = i + 1;
    }
    assert(results@.take(results@.len() as int) =~= results@);
    r
}

/// The unmodified-files list a run writes: the sources listed as
/// unmodified, when names are unified, the run is not a dry run and at
/// least one file is listed; `None` when no list is written.
pub open spec fn unmodified_list_entries(results: Seq<FileResult>, c: ConfigView) -> Option<Seq<Seq<char>>> {
    if c.unify_filenames && !c.dry_run && unmodified_of(results, c).len() > 0 {
        Some(unmodified_of(results, c))
    } else {
        None
    }
}

/// The entries of the unmodified-files list to write after a run (see
/// [`unmodified_list_entries`]).
pub fn unmodified_list_to_write(results: &Vec<FileResult>, config: &Config) -> (r: Option<Vec<String>>)
    ensures
        match r {
            Some(v) => unmodified_list_entries(results@, config@) == Some(crate::text::string_seqs(v@)),
            None => unmodified_list_entries(results@, config@) is None,
        },
{
    if !config.unify_filenames || config.dry_run {
        return None;
    }
    let entries = unmodified_results(results, config);
    if entries.len() == 0 {
        None
    } else {
        Some(entries)
    }
}

/// A dry run changes nothing: no file operation is ever asked for, and no
/// unmodified-files list is written.
pub proof fn lemma_dry_run_changes_nothing(c: ConfigView, content: Seq<u8>, f: FileFactsView, results: Seq<FileResult>)
    requires
        c.dry_run,
    ensures
        !(next_file_step(c, content, f) is Perform),
        unmodified_list_entries(results, c) is None,
{
}

/// A result that can move the watermark: organised or dry-run, with a
/// time and a destination.
pub open spec fn watermark_candidate(r: FileResult) -> bool {
    &&& (r.status == ProcessingStatus::Success || r.status == ProcessingStatus::DryRun)
    &&& r.time_info is Some
    &&& r.destination is Some
}

/// The position of the newest candidate among the first `n` results; of
/// equal times the first one.
pub open spec fn newest_among(results: Seq<FileResult>, n: int) -> Option<int>
    decreases n,
{
    if n <= 0 || n > results.len() {
        None
    } else {
        let prev = newest_among(results, n - 1);
        let r = results[n - 1];
        if watermark_candidate(r) && (match prev {
            None => true,
            Some(p) => is_after(r.time_info->0.timestamp, results[p].time_info->0.timestamp),
        }) {
            Some(n - 1)
        } else {
            prev
        }
    }
}

proof fn lemma_newest_among_valid(results: Seq<FileResult>, n: int)
    requires
        0 <= n <= results.len(),
    ensures
        newest_among(results, n) matches Some(p) ==> 0 <= p < n && watermark_candidate(results[p]),
    decreases n,
{
    if n > 0 {
        lemma_newest_among_valid(results, n - 1);
    }
}

/// The position of the newest organised file (see [`newest_among`]),
/// from which the watermark is updated.
pub fn newest_processed(results: &Vec<FileResult>) -> (r: Option<usize>)
    ensures
        match r {
            Some(p) => newest_among(results@, results@.len() as int) == Some(p as int),
            None => newest_among(results@, results@.len() as int) is None,
        },
{
    let mut best: Option<usize> = None;
    let mut i: usize = 0;
    while i < results.len()
        invariant
            i <= results@.len(),
            match best {
                Some(p) => newest_among(results@, i as int) == Some(p as int),
                None => newest_among(results@, i as int) is None,
            },
        decreases results@.len() - i,
    {
        proof {
            lemma_newest_among_valid(results@, i as int);
        }
        let r = &results[i];
        let candidate = (r.status == ProcessingStatus::Success || r.status == ProcessingStatus::DryRun)
            && r.time_info.is_some() && r.destination.is_some();
        if candidate {
            let newer = match best {
                None => true,
                Some(p) => timestamp_after(&r.time_info.unwrap().timestamp, &results[p].time_info.unwrap().timestamp),
            };
            if newer {
                best = Some(i);
            }
        }
        i = i + 1;
    }
    best
}

/// A destination relative to the output directory (`Path::strip_prefix`):
/// the components after the output directory's, joined by `/`; the
/// destination itself when it does not lie in the output directory or
/// the output directory has no component.
pub open spec fn relative_to(dest: Seq<char>, base: Seq<char>) -> Seq<char> {
    let k = components(base).len();
    if path_starts_with(dest, base) && k > 0 {
        join(components(dest).skip(k as int), "/"@)
    } else {
        dest
    }
}

/// A destination relative to the output directory (see [`relative_to`]).
pub fn relative_to_output(dest: &str, output_dir: &str) -> (r: String)
    ensures
        r@ == relative_to(dest@, output_dir@),
{
    let dv = chars_of(dest);
    let bv = chars_of(output_dir);
    let base_comps = components_chars(&bv);
    if !path_starts_with_str(dest, output_dir) || base_comps.len() == 0 {
        return owned(dest);
    }
    let comps = components_chars(&dv);
    let k = base_comps.len();
    let ghost cs = components(dest@);
    let mut rest: Vec<Vec<char>> = Vec::new();
    let mut i: usize = k;
    while i < comps.len()
        invariant
            k <= i <= comps@.len(),
            comps@.len() == cs.len(),
            forall|q: int| 0 <= q < comps@.len() ==> (#[trigger] comps@[q])@ == cs[q],
            rest@.map_values(|v: Vec<char>| v@) == cs.subrange(k as int, i as int),
        decreases comps@.len() - i,
    {
        let piece = crate::text::copy_chars(&comps[i]);
        let ghost before = rest@;
        rest.push(piece);
        assert(rest@.map_values(|v: Vec<char>| v@) =~= before.map_values(|v: Vec<char>| v@).push(cs[i as int]));
        assert(cs.subrange(k as int, i + 1) =~= cs.subrange(k as int, i as int).push(cs[i as int]));
        i = i + 1;
    }
    assert(cs.subrange(k as int, cs.len() as int) =~= cs.skip(k as int));
    let sep = chars_of("/");
    let joined = join_chars(&rest, &sep);
    string_of(&joined)
}

/// What to do with the watermark of an incremental run.
#[derive(Debug, Clone, Copy, PartialEq, Eq, Structural)]
pub enum WatermarkDecision {
    /// Not an incremental run: no watermark.
    NotUsed,
    /// Find the newest file by scanning the output directory.
    Rescan,
    /// Check whether the watermark's newest file still exists.
    CheckNewest,
    /// Use the saved watermark.
    Keep,
}

/// The watermark decision: only incremental runs use one; a missing
/// watermark, one saved under other classification settings, or one whose
/// newest file is gone is rebuilt by scanning; otherwise it is kept.
pub open spec fn watermark_decision_spec(
    c: ConfigView,
    saved: Option<(ClassificationRule, MonthFormat)>,
    newest_exists: Option<bool>,
) -> WatermarkDecision {
    if c.processing_mode != ProcessingMode::Incremental {
        WatermarkDecision::NotUsed
    } else {
        match saved {
            None => WatermarkDecision::Rescan,
            Some((rule, month)) => if rule != c.classification || month != c.month_format {
                WatermarkDecision::Rescan
            } else {
                match newest_exists {
                    None => WatermarkDecision::CheckNewest,
                    Some(false) => WatermarkDecision::Rescan,
                    Some(true) => WatermarkDecision::Keep,
                }
            },
        }
    }
}

/// Decides what to do with the saved watermark (see
/// [`watermark_decision_spec`]); `saved` holds its classification
/// settings, `newest_exists` whether its newest file still exists, once
/// checked.
pub fn watermark_decision(
    config: &Config,
    saved: Option<(ClassificationRule, MonthFormat)>,
    newest_exists: Option<bool>,
) -> (r: WatermarkDecision)
    ensures
        r == watermark_decision_spec(config@, saved, newest_exists),
{
    if config.processing_mode != ProcessingMode::Incremental {
        return WatermarkDecision::NotUsed;
    }
    match saved {
        None => WatermarkDecision::Rescan,
        Some((rule, month)) => if rule != config.classification || month != config.month_format {
            WatermarkDecision::Rescan
        } else {
            match newest_exists {
                None => WatermarkDecision::CheckNewest,
                Some(false) => WatermarkDecision::Rescan,
                Some(true) => WatermarkDecision::Keep,
            }
        },
    }
}

/// Whether a newly organised file replaces the watermark's newest file:
/// always when there is no watermark, else when it is strictly newer.
pub fn watermark_replaces(saved: &Option<Timestamp>, newest: &Timestamp) -> (r: bool)
    ensures
        r == match saved {
            Some(w) => is_after(*newest, *w),
            None => true,
        },
{
    match saved {
        Some(w) => timestamp_after(newest, w),
        None => true,
    }
}

/// Whether a file's destination is reserved before anything is written:
/// when names are unified, for every file that is processed rather than
/// skipped as a duplicate.
pub fn takes_reservation(config: &Config, kept: bool) -> (r: bool)
    ensures
        r == (config@.unify_filenames && kept),
{
    config.unify_filenames && kept
}

/// Whether an incremental run processes a file, given the watermark's
/// newest time: files whose time is unknown are processed, others only
/// when strictly newer.
pub fn watermark_keeps(time: &Option<Timestamp>, newest: &Timestamp) -> (r: bool)
    ensures
        r == match time {
            Some(t) => is_after(*t, *newest),
            None => true,
        },
{
    match time {
        Some(t) => timestamp_after(t, newest),
        None => true,
    }
}

// ---------------------------------------------------------------------------
// Ordering the scanned files
// ---------------------------------------------------------------------------

/// Scores never decrease along `s`.
pub open spec fn sorted_by_priority(s: Seq<Seq<char>>) -> bool {
    forall|i: int, j: int| 0 <= i < j < s.len() ==> priority_score(#[trigger] s[i]) <= priority_score(#[trigger] s[j])
}

/// `out` is `input` rearranged by `perm` (`out[k]` is `input[perm[k]]`,
/// each position used once), and entries with equal scores keep their
/// order.
pub open spec fn stable_arrangement(input: Seq<Seq<char>>, out: Seq<Seq<char>>, perm: Seq<int>) -> bool {
    &&& perm.len() == out.len() == input.len()
    &&& forall|k: int| 0 <= k < perm.len() ==> 0 <= #[trigger] perm[k] < input.len() && out[k] == input[perm[k]]
    &&& forall|k: int, l: int| 0 <= k < l < perm.len() ==> #[trigger] perm[k] != #[trigger] perm[l]
    &&& forall|k: int, l: int| 0 <= k < l < perm.len() && priority_score(#[trigger] out[k]) == priority_score(#[trigger] out[l])
        ==> perm[k] < perm[l]
}

/// Orders files by priority score, cleanest first, keeping the scan order
/// among equal scores (`sort_by_cached_key`), so that of duplicate files
/// the cleanest name comes first.
#[verifier::rlimit(40)]
pub fn sort_by_priority(files: Vec<String>) -> (r: Vec<String>)
    requires
        forall|i: int| 0 <= i < files@.len() ==> score_in_range(#[trigger] files@[i]@),
    ensures
        sorted_by_priority(crate::text::string_seqs(r@)),
        exists|perm: Seq<int>| stable_arrangement(crate::text::string_seqs(files@), crate::text::string_seqs(r@), perm),
{
    let ghost input = crate::text::string_seqs(files@);
    let n = files.len();
    let mut out: Vec<String> = Vec::new();
    let mut keys: Vec<u32> = Vec::new();
    let ghost mut perm: Seq<int> = Seq::empty();
    let mut i: usize = 0;
    while i < n
        invariant
            n == files@.len(),
            input == crate::text::string_seqs(files@),
            forall|q: int| 0 <= q < files@.len() ==> score_in_range(#[trigger] files@[q]@),
            i <= n,
            out@.len() == i,
            keys@.len() == i,
            perm.len() == i,
            forall|k: int| 0 <= k < i ==> #[trigger] keys@[k] as nat == priority_score(out@[k]@),
            forall|k: int| 0 <= k < i ==> 0 <= #[trigger] perm[k] < i && out@[k]@ == input[perm[k]],
            forall|k: int, l: int| 0 <= k < l < i ==> #[trigger] perm[k] != #[trigger] perm[l],
            forall|k: int, l: int| 0 <= k < l < i ==> #[trigger] keys@[k] <= #[trigger] keys@[l],
            forall|k: int, l: int| 0 <= k < l < i && #[trigger] keys@[k] == #[trigger] keys@[l] ==> perm[k] < perm[l],
        decreases n - i,
    {
        assert(input[i as int] == files@[i as int]@);
        let key = filename_priority_score(files[i].as_str());
        let mut pos: usize = i;
        while pos > 0 && keys[pos - 1] > key
            invariant
                keys@.len() == i,
                pos <= i,
                forall|k: int| pos <= k < i ==> #[trigger] keys@[k] > key,
            decreases pos,
        {
            pos = pos - 1;
        }
        proof {
            assert forall|k: int| 0 <= k < pos implies #[trigger] keys@[k] <= key by {
                if pos > 0 {
                    assert(keys@[pos - 1] <= key);
                    if k < pos - 1 {
                        assert(keys@[k] <= keys@[pos - 1]);
                    }
                }
            }
        }
        let ghost old_keys = keys@;
        let ghost old_out = out@;
        let ghost old_perm = perm;
        let item = crate::text::owned(files[i].as_str());
        out.insert(pos, item);
        keys.insert(pos, key);
        proof {
            perm = old_perm.insert(pos as int, i as int);
            assert forall|k: int| 0 <= k < i + 1 implies #[trigger] keys@[k] as nat == priority_score(out@[k]@) by {
                if k < pos {
                    assert(keys@[k] == old_keys[k] && out@[k] == old_out[k]);
                } else if k > pos {
                    assert(keys@[k] == old_keys[k - 1] && out@[k] == old_out[k - 1]);
                }
            }
            assert forall|k: int| 0 <= k < i + 1 implies 0 <= #[trigger] perm[k] < i + 1 && out@[k]@ == input[perm[k]] by {
                if k < pos {
                    assert(perm[k] == old_perm[k] && out@[k] == old_out[k]);
                } else if k > pos {
                    assert(perm[k] == old_perm[k - 1] && out@[k] == old_out[k - 1]);
                }
            }
            assert forall|k: int, l: int| 0 <= k < l < i + 1 implies #[trigger] perm[k] != #[trigger] perm[l] by {
                if k < pos && l < pos {
                    assert(perm[k] == old_perm[k] && perm[l] == old_perm[l]);
                } else if k < pos && l == pos {
                    assert(perm[k] == old_perm[k]);
                } else if k < pos && l > pos {
                    assert(perm[k] == old_perm[k] && perm[l] == old_perm[l - 1]);
                } else if k == pos {
                    assert(perm[l] == old_perm[l - 1]);
                } else {
                    assert(perm[k] == old_perm[k - 1] && perm[l] == old_perm[l - 1]);
                }
            }
            assert forall|k: int, l: int| 0 <= k < l < i + 1 implies #[trigger] keys@[k] <= #[trigger] keys@[l] by {
                if k < pos && l < pos {
                    assert(keys@[k] == old_keys[k] && keys@[l] == old_keys[l]);
                } else if k < pos && l == pos {
                    assert(keys@[k] == old_keys[k]);
                } else if k < pos && l > pos {
                    assert(keys@[k] == old_keys[k] && keys@[l] == old_keys[l - 1]);
                    assert(old_keys[l - 1] > key);
                } else if k == pos {
                    assert(keys@[l] == old_keys[l - 1]);
                } else {
                    assert(keys@[k] == old_keys[k - 1] && keys@[l] == old_keys[l - 1]);
                }
            }
            assert forall|k: int, l: int| 0 <= k < l < i + 1 && #[trigger] keys@[k] == #[trigger] keys@[l] implies perm[k] < perm[l] by {
                if k < pos && l < pos {
                    assert(keys@[k] == old_keys[k] && keys@[l] == old_keys[l]);
                    assert(perm[k] == old_perm[k] && perm[l] == old_perm[l]);
                } else if k < pos && l == pos {
                    assert(perm[k] == old_perm[k]);
                } else if k < pos && l > pos {
                    assert(keys@[k] == old_keys[k] && keys@[l] == old_keys[l - 1]);
                    assert(old_keys[l - 1] > key);
                } else if k == pos {
                    assert(keys@[l] == old_keys[l - 1]);
                    assert(old_keys[l - 1] > key);
                } else {
                    assert(keys@[k] == old_keys[k - 1] && keys@[l] == old_keys[l - 1]);
                    assert(perm[k] == old_perm[k - 1] && perm[l] == old_perm[l - 1]);
                }
            }
        }
        i = i + 1;
    }
    proof {
        let so = crate::text::string_seqs(out@);
        assert forall|k: int| 0 <= k < so.len() implies so[k] == out@[k]@ by {}
        assert forall|k: int| 0 <= k < perm.len() implies 0 <= #[trigger] perm[k] < input.len() && so[k] == input[perm[k]] by {
            assert(so[k] == out@[k]@);
        }
        assert forall|k: int, l: int| 0 <= k < l < perm.len() && priority_score(#[trigger] so[k]) == priority_score(#[trigger] so[l])
            implies perm[k] < perm[l] by {
            assert(so[k] == out@[k]@ && so[l] == out@[l]@);
            assert(keys@[k] as nat == priority_score(out@[k]@));
            assert(keys@[l] as nat == priority_score(out@[l]@));
        }
        assert forall|a: int, b: int| 0 <= a < b < so.len() implies priority_score(#[trigger] so[a]) <= priority_score(#[trigger] so[b]) by {
            assert(so[a] == out@[a]@ && so[b] == out@[b]@);
            assert(keys@[a] as nat == priority_score(out@[a]@));
            assert(keys@[b] as nat == priority_score(out@[b]@));
            assert(keys@[a] <= keys@[b]);
        }
        assert(stable_arrangement(input, so, perm));
    }
    out
}

/// A path with a supported extension.
pub open spec fn is_media_file(p: Seq<char>, c: ConfigView) -> bool {
    match extension(p) {
        Some(e) => is_supported_ext(c, e),
        None => false,
    }
}

/// The media files among `found`, in order.
pub open spec fn media_files_of(found: Seq<Seq<char>>, c: ConfigView) -> Seq<Seq<char>>
    decreases found.len(),
{
    if found.len() == 0 {
        Seq::empty()
    } else {
        let rest = media_files_of(found.drop_last(), c);
        if is_media_file(found.last(), c) {
            rest.push(found.last())
        } else {
            rest
        }
    }
}

/// The media files of a scan are exactly the found paths whose extension
/// is a configured image, video or RAW extension (ASCII case ignored), in
/// scan order: none is dropped and nothing else is kept.
pub proof fn lemma_media_files_are_the_supported_ones(found: Seq<Seq<char>>, c: ConfigView)
    ensures
        forall|p: Seq<char>|
            #[trigger] media_files_of(found, c).contains(p) <==> (found.contains(p) && extension(p) is Some && (
            contains_ignore_ascii_case(c.image_extensions, extension(p)->0) || contains_ignore_ascii_case(
                c.video_extensions,
                extension(p)->0,
            ) || contains_ignore_ascii_case(c.raw_extensions, extension(p)->0))),
    decreases found.len(),
{
    if found.len() > 0 {
        let init = found.drop_last();
        lemma_media_files_are_the_supported_ones(init, c);
        let m = media_files_of(found, c);
        let mi = media_files_of(init, c);
        assert forall|p: Seq<char>| #[trigger] m.contains(p) <==> (found.contains(p) && extension(p) is Some && (
            contains_ignore_ascii_case(c.image_extensions, extension(p)->0) || contains_ignore_ascii_case(
                c.video_extensions,
                extension(p)->0,
            ) || contains_ignore_ascii_case(c.raw_extensions, extension(p)->0))) by {
            assert(found =~= init.push(found.last()));
            if found.contains(p) {
                let k = choose|k: int| 0 <= k < found.len() && found[k] == p;
                if k < found.len() - 1 {
                    assert(init[k] == p);
                    assert(init.contains(p));
                }
            }
            if init.contains(p) {
                let k = choose|k: int| 0 <= k < init.len() && init[k] == p;
                assert(found[k] == p);
            }
            if is_media_file(found.last(), c) {
                assert(m == mi.push(found.last()));
                if mi.contains(p) {
                    let k = choose|k: int| 0 <= k < mi.len() && mi[k] == p;
                    assert(m[k] == p);
                }
                if m.contains(p) && p != found.last() {
                    let k = choose|k: int| 0 <= k < m.len() && m[k] == p;
                    assert(k < mi.len());
                    assert(mi[k] == p);
                }
                assert(m[m.len() - 1] == found.last());
            } else {
                assert(m == mi);
            }
            assert(found[found.len() - 1] == found.last());
        }
    } else {
        assert(media_files_of(found, c) =~= Seq::<Seq<char>>::empty());
    }
}

/// The files of a scan that are processed, cleanest names first: those
/// with a supported extension, ordered by [`sort_by_priority`].
pub fn select_media_files(config: &Config, found: Vec<String>) -> (r: Vec<String>)
    requires
        forall|i: int| 0 <= i < found@.len() ==> score_in_range(#[trigger] found@[i]@),
    ensures
        sorted_by_priority(crate::text::string_seqs(r@)),
        exists|perm: Seq<int>| stable_arrangement(
            media_files_of(crate::text::string_seqs(found@), config@),
            crate::text::string_seqs(r@),
            perm,
        ),
{
    let ghost fs = crate::text::string_seqs(found@);
    let mut media: Vec<String> = Vec::new();
    let mut i: usize = 0;
    while i < found.len()
        invariant
            i <= found@.len(),
            fs == crate::text::string_seqs(found@),
            forall|q: int| 0 <= q < found@.len() ==> score_in_range(#[trigger] found@[q]@),
            crate::text::string_seqs(media@) == media_files_of(fs.take(i as int), config@),
            forall|q: int| 0 <= q < media@.len() ==> score_in_range(#[trigger] media@[q]@),
        decreases found@.len() - i,
    {
        assert(fs.take(i + 1).drop_last() =~= fs.take(i as int));
        assert(fs.take(i + 1).last() == found@[i as int]@);
        let keep = match extension_str(found[i].as_str()) {
            Some(e) => config.is_supported(e.as_str()),
            None => false,
        };
        if keep {
            let ghost before = media@;
            media.push(owned(found[i].as_str()));
            assert(crate::text::string_seqs(media@) =~= crate::text::string_seqs(before).push(found@[i as int]@));
        }
        i = i + 1;
    }
    assert(fs.take(found@.len() as int) =~= fs);
    sort_by_priority(media)
}

} // verus!
