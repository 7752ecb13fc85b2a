//! Filename unification: recognising standard camera names and motion
//! photos, building the `MVIMG_`/`IMG_`/`VID_` + timestamp name, planning
//! renames and accounting for their outcomes.

use vstd::prelude::*;
use crate::config::{Config, ConfigView};
use crate::path::{extension, extension_str, file_stem, file_stem_str, same_path, same_path_str, with_file_name, with_file_name_str};
use crate::text::{
    ascii_lower, chars_eq_ignore_ascii_case, chars_of, contains_ignore_ascii_case, eq_ignore_ascii_case,
    extend_chars, opt_chars, owned, string_of, to_ascii_lower,
};
use crate::process::{candidate_taken, conflict_candidate, conflict_rounds, conflict_text, reported_absent, reported_existing, ConflictError};
use crate::time::{ext_or_empty, ext_or_empty_str, format_timestamp, timestamp_format, ExtractedTime};

verus! {

// ---------------------------------------------------------------------------
// Motion photo markers in JPEG metadata
// ---------------------------------------------------------------------------

/// The markers of a motion photo looked for in XMP metadata, lower case.
pub open spec fn motion_photo_markers() -> Seq<Seq<char>> {
    seq![
        "microvideooffset"@,
        "microvideoversion"@,
        "microvideopresentationtimestampus"@,
        "motionphoto"@,
    ]
}

/// The byte at `i` of `b`, read as a character and lowered (ASCII only).
pub open spec fn lowered(b: Seq<u8>, i: int) -> char {
    ascii_lower(b[i] as char)
}

/// `m` occurs in `b` at `i`, ignoring ASCII case.
pub open spec fn lower_match_at(b: Seq<u8>, m: Seq<char>, i: int) -> bool {
    &&& 0 <= i
    &&& i + m.len() <= b.len()
    &&& forall|j: int| 0 <= j < m.len() ==> lowered(b, i + j) == #[trigger] m[j]
}

/// `m` occurs in `b`, ignoring ASCII case. Since `m` is ASCII, this is
/// the same as `m` occurring in the lossy UTF-8 reading of `b` lowered.
pub open spec fn contains_lower(b: Seq<u8>, m: Seq<char>) -> bool {
    exists|i: int| #[trigger] lower_match_at(b, m, i)
}

/// XMP content holds one of the motion photo markers.
pub open spec fn has_motion_marker(content: Seq<u8>) -> bool {
    exists|k: int| 0 <= k < motion_photo_markers().len() && contains_lower(content, #[trigger] motion_photo_markers()[k])
}

fn lower_match_at_exec(b: &[u8], lo: usize, hi: usize, m: &Vec<char>, i: usize) -> (r: bool)
    requires
        lo <= hi <= b@.len(),
        i <= hi - lo,
        hi - lo - i >= m@.len(),
    ensures
        r == lower_match_at(b@.subrange(lo as int, hi as int), m@, i as int),
{
    let ghost s = b@.subrange(lo as int, hi as int);
    let mut j: usize = 0;
    while j < m.len()
        invariant
            lo <= hi <= b@.len(),
            i <= hi - lo,
            hi - lo - i >= m@.len(),
            s == b@.subrange(lo as int, hi as int),
            j <= m@.len(),
            forall|k: int| 0 <= k < j ==> lowered(s, i + k) == #[trigger] m@[k],
        decreases m@.len() - j,
    {
        let c = to_ascii_lower(b[lo + i + j] as char);
        assert(s[i + j] == b@[lo + i + j]);
        if c != m[j] {
            return false;
        }
        j = j + 1;
    }
    true
}

fn contains_lower_in(b: &[u8], lo: usize, hi: usize, m: &Vec<char>) -> (r: bool)
    requires
        lo <= hi <= b@.len(),
    ensures
        r == contains_lower(b@.subrange(lo as int, hi as int), m@),
{
    let ghost s = b@.subrange(lo as int, hi as int);
    if m.len() > hi - lo {
        assert forall|i: int| !lower_match_at(s, m@, i) by {}
        return false;
    }
    let last = hi - lo - m.len();
    let mut i: usize = 0;
    while i <= last
        invariant
            lo <= hi <= b@.len(),
            last == hi - lo - m@.len(),
            s == b@.subrange(lo as int, hi as int),
            i <= last + 1,
            forall|k: int| 0 <= k < i ==> !#[trigger] lower_match_at(s, m@, k),
        decreases last + 1 - i,
    {
        if lower_match_at_exec(b, lo, hi, m, i) {
            return true;
        }
        i = i + 1;
    }
    assert forall|k: int| !#[trigger] lower_match_at(s, m@, k) by {
        if 0 <= k < i {
        }
    }
    false
}

/// Whether the XMP content `b[lo..hi]` holds a motion photo marker.
fn has_motion_marker_in(b: &[u8], lo: usize, hi: usize) -> (r: bool)
    requires
        lo <= hi <= b@.len(),
    ensures
        r == has_motion_marker(b@.subrange(lo as int, hi as int)),
{
    let markers: Vec<Vec<char>> = vec![
        chars_of("microvideooffset"),
        chars_of("microvideoversion"),
        chars_of("microvideopresentationtimestampus"),
        chars_of("motionphoto"),
    ];
    let ghost s = b@.subrange(lo as int, hi as int);
    let mut k: usize = 0;
    while k < markers.len()
        invariant
            lo <= hi <= b@.len(),
            s == b@.subrange(lo as int, hi as int),
            markers@.len() == 4,
            forall|q: int| 0 <= q < 4 ==> #[trigger] markers@[q]@ == motion_photo_markers()[q],
            k <= 4,
            forall|q: int| 0 <= q < k ==> !contains_lower(s, #[trigger] motion_photo_markers()[q]),
        decreases 4 - k,
    {
        if contains_lower_in(b, lo, hi, &markers[k]) {
            return true;
        }
        k = k + 1;
    }
    false
}

/// The identifier that opens an XMP segment.
pub open spec fn xmp_id() -> Seq<char> {
    "http://ns.adobe.com/xap/1.0/"@
}

/// An APP1 segment body that is XMP (the identifier, then a zero byte)
/// and holds a motion photo marker.
pub open spec fn xmp_motion_segment(seg: Seq<u8>) -> bool {
    &&& seg.len() >= xmp_id().len() + 1
    &&& forall|j: int| 0 <= j < xmp_id().len() ==> #[trigger] seg[j] as char == xmp_id()[j]
    &&& seg[xmp_id().len() as int] == 0
    &&& has_motion_marker(seg.subrange(xmp_id().len() as int + 1, seg.len() as int))
}

fn xmp_motion_segment_in(b: &[u8], lo: usize, hi: usize) -> (r: bool)
    requires
        lo <= hi <= b@.len(),
    ensures
        r == xmp_motion_segment(b@.subrange(lo as int, hi as int)),
{
    let ghost s = b@.subrange(lo as int, hi as int);
    let id = chars_of("http://ns.adobe.com/xap/1.0/");
    let n = id.len();
    if hi - lo <= n {
        return false;
    }
    let mut j: usize = 0;
    while j < n
        invariant
            lo <= hi <= b@.len(),
            s == b@.subrange(lo as int, hi as int),
            id@ == xmp_id(),
            n == id@.len(),
            hi - lo >= n + 1,
            j <= n,
            forall|q: int| 0 <= q < j ==> #[trigger] s[q] as char == xmp_id()[q],
        decreases n - j,
    {
        assert(s[j as int] == b@[lo + j]);
        if b[lo + j] as char != id[j] {
            return false;
        }
        j = j + 1;
    }
    assert(s[n as int] == b@[lo + n]);
    if b[lo + n] != 0 {
        return false;
    }
    assert(s.subrange(n + 1, s.len() as int) =~= b@.subrange(lo + n + 1, hi as int));
    has_motion_marker_in(b, lo + n + 1, hi)
}

/// The position just after the first `0xFF` at or after `pos`, or the end
/// of `b` when there is none.
pub open spec fn after_next_ff(b: Seq<u8>, pos: int) -> int
    decreases b.len() - pos,
{
    if pos >= b.len() {
        b.len() as int
    } else if b[pos] == 0xFF {
        pos + 1
    } else {
        after_next_ff(b, pos + 1)
    }
}

/// The marker code read from `pos` on, past `0xFF` fill bytes, with the
/// position after it; none at the end of `b`.
pub open spec fn marker_code(b: Seq<u8>, pos: int) -> Option<(u8, int)>
    decreases b.len() - pos,
{
    if pos >= b.len() {
        None
    } else if b[pos] == 0xFF {
        marker_code(b, pos + 1)
    } else {
        Some((b[pos], pos + 1))
    }
}

/// A marker without a length field.
pub open spec fn is_standalone_marker(code: u8) -> bool {
    code == 0x00 || code == 0x01 || (0xD0 <= code <= 0xD7)
}

/// A marker after which no more metadata follows (SOI, EOI, SOS).
pub open spec fn ends_metadata(code: u8) -> bool {
    0xD8 <= code <= 0xDA
}

/// Whether a motion photo XMP segment is found scanning the JPEG segments
/// of `b` from `pos` on: each step skips to the next `0xFF`, reads the
/// marker code, steps over standalone markers, stops at SOI/EOI/SOS or at
/// a malformed or truncated segment, and otherwise reads the two-byte
/// big-endian length and looks at APP1 segments.
pub open spec fn scan_segments(b: Seq<u8>, pos: int) -> bool
    decreases b.len() - pos,
{
    if pos < 0 || pos > b.len() {
        false
    } else {
        match marker_code(b, after_next_ff(b, pos)) {
            None => false,
            Some((code, p)) => {
                if p <= pos || p > b.len() {
                    false
                } else if is_standalone_marker(code) {
                    scan_segments(b, p)
                } else if ends_metadata(code) || p + 2 > b.len() {
                    false
                } else {
                    let len = (b[p] as int) * 256 + (b[p + 1] as int);
                    if len < 2 || p + len > b.len() {
                        false
                    } else if code == 0xE1 && xmp_motion_segment(b.subrange(p + 2, p + len)) {
                        true
                    } else {
                        scan_segments(b, p + len)
                    }
                }
            },
        }
    }
}

/// A JPEG (starting with SOI) whose metadata segments hold a motion photo
/// XMP marker before the image data.
pub open spec fn jpeg_motion_marker(b: Seq<u8>) -> bool {
    b.len() >= 2 && b[0] == 0xFF && b[1] == 0xD8 && scan_segments(b, 2)
}

fn after_next_ff_exec(b: &[u8], pos: usize) -> (q: usize)
    requires
        pos <= b@.len(),
    ensures
        q == after_next_ff(b@, pos as int),
        pos <= q <= b@.len(),
{
    let mut i = pos;
    while i < b.len() && b[i] != 0xFF
        invariant
            pos <= i <= b@.len(),
            after_next_ff(b@, pos as int) == after_next_ff(b@, i as int),
        decreases b@.len() - i,
    {
        i = i + 1;
    }
    if i < b.len() {
        i + 1
    } else {
        i
    }
}

fn marker_code_exec(b: &[u8], pos: usize) -> (r: Option<(u8, usize)>)
    requires
        pos <= b@.len(),
    ensures
        match r {
            Some((c, p)) => marker_code(b@, pos as int) == Some((c, p as int)) && pos < p <= b@.len(),
            None => marker_code(b@, pos as int) is None,
        },
{
    let mut i = pos;
    while i < b.len() && b[i] == 0xFF
        invariant
            pos <= i <= b@.len(),
            marker_code(b@, pos as int) == marker_code(b@, i as int),
        decreases b@.len() - i,
    {
        i = i + 1;
    }
    if i < b.len() {
        Some((b[i], i + 1))
    } else {
        None
    }
}

/// Scans the metadata segments of a JPEG file's bytes for a motion photo
/// XMP marker (see [`jpeg_motion_marker`]).
pub fn jpeg_has_motion_photo_marker(bytes: &[u8]) -> (r: bool)
    ensures
        r == jpeg_motion_marker(bytes@),
{
    let n = bytes.len();
    if n < 2 || bytes[0] != 0xFF || bytes[1] != 0xD8 {
        return false;
    }
    let mut pos: usize = 2;
    loop
        invariant
            n == bytes@.len(),
            2 <= pos <= n,
            jpeg_motion_marker(bytes@) == scan_segments(bytes@, pos as int),
        decreases n - pos,
    {
        let q = after_next_ff_exec(bytes, pos);
        let (code, p) = match marker_code_exec(bytes, q) {
            None => return false,
            Some(x) => x,
        };
        if code == 0x00 || code == 0x01 || (0xD0 <= code && code <= 0xD7) {
            pos = p;
        } else {
            if (0xD8 <= code && code <= 0xDA) || n - p < 2 {
                return false;
            }
            let len: usize = (bytes[p] as usize) * 256 + (bytes[p + 1] as usize);
            if len < 2 || len > n - p {
                return false;
            }
            if code == 0xE1 && xmp_motion_segment_in(bytes, p + 2, p + len) {
                return true;
            }
            pos = p + len;
        }
    }
}

// ---------------------------------------------------------------------------
// Standard names
// ---------------------------------------------------------------------------

/// What the regex crate says of `text` against `pattern`: whether it
/// matches, or `None` when the pattern does not compile.
pub uninterp spec fn regex_match(pattern: Seq<char>, text: Seq<char>) -> Option<bool>;

/// `regex::Regex::new(pattern)` followed by `is_match(text)`. The contract
/// names the result: it is a function of the pattern and the text alone.
#[verifier::external_body]
pub(crate) fn regex_is_match(pattern: &str, text: &str) -> (r: Option<bool>)
    ensures
        r == regex_match(pattern@, text@),
{
    match regex::Regex::new(pattern) {
        Ok(re) => Some(re.is_match(text)),
        Err(_) => None,
    }
}

/// The standard camera name: `MVIMG`, `IMG` or `VID`, an underscore, eight
/// digits, an underscore and six digits at the start, any case.
pub open spec fn standard_name_pattern() -> Seq<char> {
    "(?i)^(?:MVIMG|IMG|VID)_\\d{8}_\\d{6}"@
}

/// A path whose file stem starts like a standard camera name; whatever
/// follows the time part is allowed.
pub open spec fn standard_name(p: Seq<char>) -> bool {
    match file_stem(p) {
        Some(stem) => regex_match(standard_name_pattern(), stem) == Some(true),
        None => false,
    }
}

/// Whether a file already has a standard camera name (see
/// [`standard_name`]).
pub fn is_standard_name(path: &str) -> (r: bool)
    ensures
        r == standard_name(path@),
{
    match file_stem_str(path) {
        Some(stem) => match regex_is_match("(?i)^(?:MVIMG|IMG|VID)_\\d{8}_\\d{6}", stem.as_str()) {
            Some(m) => m,
            None => false,
        },
        None => false,
    }
}

/// A motion photo: its stem starts with `MVIMG_` in any case, or its
/// content is a JPEG with a motion photo XMP marker.
pub open spec fn dynamic_photo(p: Seq<char>, content: Seq<u8>) -> bool {
    ||| (match file_stem(p) {
        Some(stem) => stem.len() >= 6 && eq_ignore_ascii_case(stem.take(6), "mvimg_"@),
        None => false,
    })
    ||| jpeg_motion_marker(content)
}

/// Whether a file is a motion photo, given its path and content (see
/// [`dynamic_photo`]); an unreadable file has empty content.
pub fn is_dynamic_photo(path: &str, content: &[u8]) -> (r: bool)
    ensures
        r == dynamic_photo(path@, content@),
{
    if let Some(stem) = file_stem_str(path) {
        let v = chars_of(stem.as_str());
        if v.len() >= 6 {
            let mut head: Vec<char> = Vec::new();
            let mut i: usize = 0;
            while i < 6
                invariant
                    v@.len() >= 6,
                    i <= 6,
                    head@ == v@.take(i as int),
                decreases 6 - i,
            {
                head.push(v[i]);
                assert(v@.take(i + 1) =~= v@.take(i as int).push(v@[i as int]));
                i = i + 1;
            }
            let prefix = chars_of("mvimg_");
            if chars_eq_ignore_ascii_case(&head, &prefix) {
                return true;
            }
        }
    }
    jpeg_has_motion_photo_marker(content)
}

/// The prefix of a unified name: `VID` for a configured video extension,
/// `MVIMG` for a motion photo, `IMG` otherwise.
pub open spec fn name_prefix(p: Seq<char>, c: ConfigView, content: Seq<u8>) -> Seq<char> {
    if contains_ignore_ascii_case(c.video_extensions, ext_or_empty(p)) {
        "VID"@
    } else if dynamic_photo(p, content) {
        "MVIMG"@
    } else {
        "IMG"@
    }
}

/// The prefix of a file's unified name (see [`name_prefix`]).
pub fn standard_name_prefix(source: &str, config: &Config, content: &[u8]) -> (r: &'static str)
    ensures
        r@ == name_prefix(source@, config@, content@),
{
    let ext = ext_or_empty_str(source);
    if config.is_video(ext.as_str()) {
        "VID"
    } else if is_dynamic_photo(source, content) {
        "MVIMG"
    } else {
        "IMG"
    }
}

/// The timestamp layout of a unified name: `YYYYMMDD_HHMMSS`, followed by
/// the milliseconds `fff` when the metadata carried a sub-second part.
pub open spec fn unified_time_format(has_millis: bool) -> Seq<char> {
    if has_millis {
        "%Y%m%d_%H%M%S%3f"@
    } else {
        "%Y%m%d_%H%M%S"@
    }
}

/// The unified path of a file: in the same directory, named prefix, `_`,
/// the capture time (see [`unified_time_format`]), then the file's own
/// extension as written. `None` when the time does not render.
pub open spec fn unified_path(p: Seq<char>, t: ExtractedTime, c: ConfigView, content: Seq<u8>) -> Option<Seq<char>> {
    match timestamp_format(t.timestamp, unified_time_format(t.has_millis)) {
        None => None,
        Some(when) => {
            let stem = name_prefix(p, c, content) + "_"@ + when;
            let name = match extension(p) {
                Some(e) => stem + "."@ + e,
                None => stem,
            };
            Some(with_file_name(p, name))
        },
    }
}

/// Builds the unified path of a file (see [`unified_path`]).
pub fn build_unified_filename(source: &str, time: &ExtractedTime, config: &Config, content: &[u8]) -> (r: Option<String>)
    ensures
        opt_chars(r) == unified_path(source@, *time, config@, content@),
{
    let layout = if time.has_millis {
        "%Y%m%d_%H%M%S%3f"
    } else {
        "%Y%m%d_%H%M%S"
    };
    let when = match format_timestamp(&time.timestamp, layout) {
        Some(w) => w,
        None => return None,
    };
    let prefix = standard_name_prefix(source, config, content);
    let mut name = chars_of(prefix);
    name.push('_');
    let wv = chars_of(when.as_str());
    extend_chars(&mut name, &wv);
    match extension_str(source) {
        Some(e) => {
            name.push('.');
            let ev = chars_of(e.as_str());
            extend_chars(&mut name, &ev);
        },
        None => {},
    }
    proof {
        reveal_strlit("_");
        reveal_strlit(".");
    }
    let name_s = string_of(&name);
    Some(with_file_name_str(source, name_s.as_str()))
}

/// A file whose name is already its unified name.
pub open spec fn already_unified(p: Seq<char>, t: ExtractedTime, c: ConfigView, content: Seq<u8>) -> bool {
    match unified_path(p, t, c, content) {
        Some(u) => same_path(u, p),
        None => false,
    }
}

/// Whether a file's name is already its unified name (see
/// [`already_unified`]).
pub fn is_already_unified(source: &str, time: &ExtractedTime, config: &Config, content: &[u8]) -> (r: bool)
    ensures
        r == already_unified(source@, *time, config@, content@),
{
    match build_unified_filename(source, time, config, content) {
        Some(u) => same_path_str(u.as_str(), source),
        None => false,
    }
}

// ---------------------------------------------------------------------------
// Results and statistics
// ---------------------------------------------------------------------------

/// What happened to one file.
#[derive(Debug, Clone, Copy, PartialEq, Eq, Structural)]
pub enum RenameStatus {
    /// Renamed to its unified name.
    Renamed,
    /// Dry run: would have been renamed.
    DryRun,
    /// A standard camera name, kept as the options ask.
    Preserved,
    /// Already has its unified name.
    AlreadyUnified,
    /// No EXIF or video metadata: the name is kept.
    NoMetadata,
    /// The rename failed: the name is kept.
    Failed,
    /// Not handled because the run was cancelled.
    Cancelled,
}

/// The outcome for one file.
#[derive(Debug)]
pub struct RenameResult {
    pub source: String,
    /// The unified path (renamed, dry run, or a failed rename's target).
    pub destination: Option<String>,
    pub status: RenameStatus,
    pub error: Option<String>,
}

/// Counts of a unification run.
#[derive(Debug, Clone, Copy, PartialEq, Eq, Structural)]
pub struct RenameStats {
    pub total_files: usize,
    /// Files handled so far (all but cancelled ones), for progress.
    pub handled: usize,
    pub renamed: usize,
    pub preserved: usize,
    pub already_unified: usize,
    pub no_metadata: usize,
    pub failed: usize,
}

/// One more, wrapping as an atomic counter does.
pub open spec fn bump(n: usize) -> usize {
    if n == usize::MAX {
        0
    } else {
        (n + 1) as usize
    }
}

/// Executable form of [`bump`].
pub fn bump_count(n: usize) -> (r: usize)
    ensures
        r == bump(n),
{
    if n == usize::MAX {
        0
    } else {
        n + 1
    }
}

/// The counts after one more file with `status`: every status but
/// `Cancelled` counts as handled, and each counts in its own column
/// (a dry run as renamed).
pub open spec fn rename_stats_after(s: RenameStats, status: RenameStatus) -> RenameStats {
    match status {
        RenameStatus::Renamed | RenameStatus::DryRun => RenameStats { handled: bump(s.handled), renamed: bump(s.renamed), ..s },
        RenameStatus::Preserved => RenameStats { handled: bump(s.handled), preserved: bump(s.preserved), ..s },
        RenameStatus::AlreadyUnified => RenameStats { handled: bump(s.handled), already_unified: bump(s.already_unified), ..s },
        RenameStatus::NoMetadata => RenameStats { handled: bump(s.handled), no_metadata: bump(s.no_metadata), ..s },
        RenameStatus::Failed => RenameStats { handled: bump(s.handled), failed: bump(s.failed), ..s },
        RenameStatus::Cancelled => s,
    }
}

/// The summary line of a run's counts.
pub open spec fn rename_summary_text(s: RenameStats) -> Seq<char> {
    "Total: "@ + crate::text::decimal(s.total_files as nat) + ", Renamed: "@ + crate::text::decimal(s.renamed as nat)
        + ", Preserved: "@ + crate::text::decimal(s.preserved as nat) + ", Already unified: "@
        + crate::text::decimal(s.already_unified as nat) + ", No metadata: "@
        + crate::text::decimal(s.no_metadata as nat) + ", Failed: "@ + crate::text::decimal(s.failed as nat)
}

/// Appends a literal to a character vector.
pub(crate) fn push_str(v: &mut Vec<char>, s: &str)
    ensures
        final(v)@ == old(v)@ + s@,
{
    let t = chars_of(s);
    extend_chars(v, &t);
}

impl RenameStats {
    /// All counts zero.
    pub fn new() -> (r: RenameStats)
        ensures
            r == (RenameStats { total_files: 0, handled: 0, renamed: 0, preserved: 0, already_unified: 0, no_metadata: 0, failed: 0 }),
    {
        RenameStats { total_files: 0, handled: 0, renamed: 0, preserved: 0, already_unified: 0, no_metadata: 0, failed: 0 }
    }

    /// Counts one more file with `status` (see [`rename_stats_after`]).
    pub fn record(&mut self, status: RenameStatus)
        ensures
            *final(self) == rename_stats_after(*old(self), status),
    {
        match status {
            RenameStatus::Renamed | RenameStatus::DryRun => {
                self.handled = bump_count(self.handled);
                self.renamed = bump_count(self.renamed);
            },
            RenameStatus::Preserved => {
                self.handled = bump_count(self.handled);
                self.preserved = bump_count(self.preserved);
            },
            RenameStatus::AlreadyUnified => {
                self.handled = bump_count(self.handled);
                self.already_unified = bump_count(self.already_unified);
            },
            RenameStatus::NoMetadata => {
                self.handled = bump_count(self.handled);
                self.no_metadata = bump_count(self.no_metadata);
            },
            RenameStatus::Failed => {
                self.handled = bump_count(self.handled);
                self.failed = bump_count(self.failed);
            },
            RenameStatus::Cancelled => {},
        }
    }

    /// The summary line (see [`rename_summary_text`]).
    pub fn summary(&self) -> (r: String)
        ensures
            r@ == rename_summary_text(*self),
    {
        let mut v: Vec<char> = Vec::new();
        push_str(&mut v, "Total: ");
        crate::text::push_decimal(&mut v, self.total_files as u64);
        push_str(&mut v, ", Renamed: ");
        crate::text::push_decimal(&mut v, self.renamed as u64);
        push_str(&mut v, ", Preserved: ");
        crate::text::push_decimal(&mut v, self.preserved as u64);
        push_str(&mut v, ", Already unified: ");
        crate::text::push_decimal(&mut v, self.already_unified as u64);
        push_str(&mut v, ", No metadata: ");
        crate::text::push_decimal(&mut v, self.no_metadata as u64);
        push_str(&mut v, ", Failed: ");
        crate::text::push_decimal(&mut v, self.failed as u64);
        assert(v@ =~= rename_summary_text(*self));
        string_of(&v)
    }
}

// ---------------------------------------------------------------------------
// The unmodified-files list
// ---------------------------------------------------------------------------

/// A result whose file kept its name for want of metadata or because the
/// rename failed.
pub open spec fn is_unmodified(status: RenameStatus) -> bool {
    status == RenameStatus::NoMetadata || status == RenameStatus::Failed
}

/// The sources of the unmodified results, in order.
pub open spec fn unmodified_sources_of(results: Seq<RenameResult>) -> Seq<Seq<char>>
    decreases results.len(),
{
    if results.len() == 0 {
        Seq::empty()
    } else {
        let rest = unmodified_sources_of(results.drop_last());
        if is_unmodified(results.last().status) {
            rest.push(results.last().source@)
        } else {
            rest
        }
    }
}

/// The sources of the results that kept their names (see
/// [`unmodified_sources_of`]).
pub fn unmodified_sources(results: &Vec<RenameResult>) -> (r: Vec<String>)
    ensures
        crate::text::string_seqs(r@) == unmodified_sources_of(results@),
{
    let mut r: Vec<String> = Vec::new();
    let mut i: usize = 0;
    while i < results.len()
        invariant
            i <= results@.len(),
            crate::text::string_seqs(r@) == unmodified_sources_of(results@.take(i as int)),
        decreases results@.len() - i,
    {
        assert(results@.take(i + 1).drop_last() =~= results@.take(i as int));
        let res = &results[i];
        if res.status == RenameStatus::NoMetadata || res.status == RenameStatus::Failed {
            r.push(owned(res.source.as_str()));
            assert(crate::text::string_seqs(r@) =~= unmodified_sources_of(results@.take(i as int)).push(res.source@));
        }
        i = i + 1;
    }
    assert(results@.take(results@.len() as int) =~= results@);
    r
}

/// The unmodified-files list an in-place run writes: the sources that kept
/// their names, unless the run is a dry run or no file kept its name.
pub open spec fn rename_list_entries(results: Seq<RenameResult>, dry_run: bool) -> Option<Seq<Seq<char>>> {
    if !dry_run && unmodified_sources_of(results).len() > 0 {
        Some(unmodified_sources_of(results))
    } else {
        None
    }
}

/// The entries of the unmodified-files list to write after an in-place run
/// (see [`rename_list_entries`]).
pub fn rename_list_to_write(results: &Vec<RenameResult>, dry_run: bool) -> (r: Option<Vec<String>>)
    ensures
        match r {
            Some(v) => rename_list_entries(results@, dry_run) == Some(crate::text::string_seqs(v@)),
            None => rename_list_entries(results@, dry_run) is None,
        },
{
    if dry_run {
        return None;
    }
    let entries = unmodified_sources(results);
    if entries.len() == 0 {
        None
    } else {
        Some(entries)
    }
}

/// The content of the list file: each path followed by a newline.
pub open spec fn list_content(entries: Seq<Seq<char>>) -> Seq<char>
    decreases entries.len(),
{
    if entries.len() == 0 {
        Seq::empty()
    } else {
        list_content(entries.drop_last()) + entries.last() + seq!['\n']
    }
}

/// The content of the list file (see [`list_content`]).
pub fn unmodified_list_content(entries: &Vec<String>) -> (r: String)
    ensures
        r@ == list_content(crate::text::string_seqs(entries@)),
{
    let ghost es = crate::text::string_seqs(entries@);
    let mut v: Vec<char> = Vec::new();
    let mut i: usize = 0;
    while i < entries.len()
        invariant
            i <= entries@.len(),
            es == crate::text::string_seqs(entries@),
            v@ == list_content(es.take(i as int)),
        decreases entries@.len() - i,
    {
        assert(es.take(i + 1).drop_last() =~= es.take(i as int));
        assert(es.take(i + 1).last() == entries@[i as int]@);
        push_str(&mut v, entries[i].as_str());
        v.push('\n');
        i = i + 1;
    }
    assert(es.take(entries@.len() as int) =~= es);
    string_of(&v)
}

/// The temporary file the list is written to before it is renamed into
/// place: the list's path with `.tmp` added.
pub fn unmodified_temp_path(path: &str) -> (r: String)
    ensures
        r@ == path@ + ".tmp"@,
{
    let mut v = chars_of(path);
    push_str(&mut v, ".tmp");
    string_of(&v)
}

// ---------------------------------------------------------------------------
// Planning a unification run
// ---------------------------------------------------------------------------

/// What is to be done with one file, decided before anything is renamed.
#[derive(Debug)]
pub enum PlannedAction {
    /// Rename to this unified path.
    Rename(String),
    Preserved,
    AlreadyUnified,
    NoMetadata,
    Cancelled,
}

/// The view of a planned action.
pub enum PlannedActionView {
    Rename(Seq<char>),
    Preserved,
    AlreadyUnified,
    NoMetadata,
    Cancelled,
}

impl View for PlannedAction {
    type V = PlannedActionView;

    open spec fn view(&self) -> PlannedActionView {
        match self {
            PlannedAction::Rename(t) => PlannedActionView::Rename(t@),
            PlannedAction::Preserved => PlannedActionView::Preserved,
            PlannedAction::AlreadyUnified => PlannedActionView::AlreadyUnified,
            PlannedAction::NoMetadata => PlannedActionView::NoMetadata,
            PlannedAction::Cancelled => PlannedActionView::Cancelled,
        }
    }
}

/// The plan for a file: cancelled when the run was cancelled; kept when it
/// has a standard name and such names are preserved; otherwise decided by
/// its metadata time: no time means no metadata, a unified path equal to
/// the file's own means already unified, any other is a rename.
pub open spec fn planned_action(
    p: Seq<char>,
    c: ConfigView,
    content: Seq<u8>,
    cancelled: bool,
    time: Option<ExtractedTime>,
) -> PlannedActionView {
    if cancelled {
        PlannedActionView::Cancelled
    } else if c.preserve_standard_names && standard_name(p) {
        PlannedActionView::Preserved
    } else {
        match time {
            None => PlannedActionView::NoMetadata,
            Some(t) => match unified_path(p, t, c, content) {
                None => PlannedActionView::NoMetadata,
                Some(u) => if same_path(u, p) {
                    PlannedActionView::AlreadyUnified
                } else {
                    PlannedActionView::Rename(u)
                },
            },
        }
    }
}

/// Plans one file (see [`planned_action`]); `time` is the metadata time
/// read for it, `None` when it has none.
pub fn plan_action(
    path: &str,
    config: &Config,
    content: &[u8],
    cancelled: bool,
    time: Option<ExtractedTime>,
) -> (r: PlannedAction)
    ensures
        r@ == planned_action(path@, config@, content@, cancelled, time),
{
    if cancelled {
        return PlannedAction::Cancelled;
    }
    if config.preserve_standard_names && is_standard_name(path) {
        return PlannedAction::Preserved;
    }
    match time {
        None => PlannedAction::NoMetadata,
        Some(t) => match build_unified_filename(path, &t, config, content) {
            None => PlannedAction::NoMetadata,
            Some(u) => if same_path_str(u.as_str(), path) {
                PlannedAction::AlreadyUnified
            } else {
                PlannedAction::Rename(u)
            },
        },
    }
}

/// The result for a file whose plan is not a rename, or whose rename is
/// skipped because the run was cancelled in the meantime.
pub open spec fn settled_without_rename(action: PlannedActionView, cancelled: bool) -> Option<RenameStatus> {
    if cancelled {
        Some(RenameStatus::Cancelled)
    } else {
        match action {
            PlannedActionView::Rename(_) => None,
            PlannedActionView::Preserved => Some(RenameStatus::Preserved),
            PlannedActionView::AlreadyUnified => Some(RenameStatus::AlreadyUnified),
            PlannedActionView::NoMetadata => Some(RenameStatus::NoMetadata),
            PlannedActionView::Cancelled => Some(RenameStatus::Cancelled),
        }
    }
}

/// Settles a file that needs no rename (see [`settled_without_rename`]):
/// `None` when its rename is still to be done.
pub fn settle_without_rename(source: &str, action: &PlannedAction, cancelled: bool) -> (r: Option<RenameResult>)
    ensures
        match r {
            Some(res) => settled_without_rename(action@, cancelled) == Some(res.status) && res.source@ == source@
                && res.destination is None && res.error is None,
            None => settled_without_rename(action@, cancelled) is None,
        },
{
    let status = if cancelled {
        RenameStatus::Cancelled
    } else {
        match action {
            PlannedAction::Rename(_) => return None,
            PlannedAction::Preserved => RenameStatus::Preserved,
            PlannedAction::AlreadyUnified => RenameStatus::AlreadyUnified,
            PlannedAction::NoMetadata => RenameStatus::NoMetadata,
            PlannedAction::Cancelled => RenameStatus::Cancelled,
        }
    };
    Some(RenameResult { source: owned(source), destination: None, status, error: None })
}

/// The result of a planned rename. `target` is the free path found for
/// it, or why none was found; `renamed` is what renaming the file gave,
/// `None` in a dry run.
pub fn settle_rename(source: &str, target: Result<String, String>, renamed: Option<Result<(), String>>) -> (r: RenameResult)
    ensures
        r.source@ == source@,
        match target {
            Err(e) => r.status == RenameStatus::Failed && r.destination is None && opt_chars(r.error) == Some(e@),
            Ok(t) => opt_chars(r.destination) == Some(t@) && match renamed {
                None => r.status == RenameStatus::DryRun && r.error is None,
                Some(Ok(())) => r.status == RenameStatus::Renamed && r.error is None,
                Some(Err(e)) => r.status == RenameStatus::Failed && opt_chars(r.error) == Some(e@),
            },
        },
{
    match target {
        Err(e) => RenameResult { source: owned(source), destination: None, status: RenameStatus::Failed, error: Some(e) },
        Ok(t) => match renamed {
            None => RenameResult { source: owned(source), destination: Some(t), status: RenameStatus::DryRun, error: None },
            Some(Ok(())) => RenameResult { source: owned(source), destination: Some(t), status: RenameStatus::Renamed, error: None },
            Some(Err(e)) => RenameResult { source: owned(source), destination: Some(t), status: RenameStatus::Failed, error: Some(e) },
        },
    }
}

/// The counts after a sequence of outcomes.
pub open spec fn rename_stats_after_all(s: RenameStats, statuses: Seq<RenameStatus>) -> RenameStats
    decreases statuses.len(),
{
    if statuses.len() == 0 {
        s
    } else {
        rename_stats_after(rename_stats_after_all(s, statuses.drop_last()), statuses.last())
    }
}

/// The statuses of a list of results.
pub open spec fn statuses_of(results: Seq<RenameResult>) -> Seq<RenameStatus> {
    results.map_values(|r: RenameResult| r.status)
}

/// A result that gave its file a new name (or would, in a dry run).
pub open spec fn claims_target(r: RenameResult) -> bool {
    (r.status == RenameStatus::Renamed || r.status == RenameStatus::DryRun) && r.destination is Some
}

/// The targets claimed by a sequence of results, in order.
pub open spec fn rename_claims(rs: Seq<RenameResult>) -> Seq<Seq<char>>
    decreases rs.len(),
{
    if rs.len() == 0 {
        Seq::empty()
    } else if claims_target(rs.last()) {
        rename_claims(rs.drop_last()).push(rs.last().destination->0@)
    } else {
        rename_claims(rs.drop_last())
    }
}

/// `d` is the variant a rename to `t` takes: the first candidate that no
/// earlier file of the run claimed and that `probe` reported as absent
/// (every earlier candidate was claimed or reported as existing).
pub open spec fn first_free_variant<P: Fn(&str) -> bool>(probe: P, t: Seq<char>, taken: Seq<Seq<char>>, d: Seq<char>) -> bool {
    exists|k: nat| {
        &&& k < conflict_rounds()
        &&& conflict_candidate(t, k) == Some(d)
        &&& !taken.contains(d)
        &&& reported_absent(probe, d)
        &&& forall|j: nat| j < k ==> (#[trigger] conflict_candidate(t, j) matches Some(c) && candidate_taken(probe, taken, c))
    }
}

/// Why a rename to `t` found no free variant.
pub open spec fn no_free_variant<P: Fn(&str) -> bool>(probe: P, t: Seq<char>, taken: Seq<Seq<char>>, e: ConflictError) -> bool {
    match e {
        ConflictError::InvalidFilename => file_stem(t) is None && candidate_taken(probe, taken, t),
        ConflictError::Exhausted => file_stem(t) is Some && forall|j: nat| j < conflict_rounds() ==> (
            #[trigger] conflict_candidate(t, j) matches Some(c) && candidate_taken(probe, taken, c)),
    }
}

/// Renaming `source` to `d` with `rename` answered `out`.
pub open spec fn renamed_with<R: Fn(&str, &str) -> Result<(), String>>(
    rename: R,
    source: Seq<char>,
    d: Seq<char>,
    out: Result<(), Seq<char>>,
) -> bool {
    exists|a: &str, b: &str, o: Result<(), String>| #[trigger] call_ensures(rename, (a, b), o) && a@ == source && b@ == d
        && out == (match o {
            Ok(()) => Ok::<(), Seq<char>>(()),
            Err(e) => Err::<(), Seq<char>>(e@),
        })
}

/// What becomes of one planned file, given the targets `taken` by the
/// files before it: cancelled when `cancelled` answered yes for it;
/// otherwise a plan without rename settles as planned, and a rename takes
/// the first free variant of its target (see [`first_free_variant`]) and
/// ends as a dry run, or renamed or failed as `rename` answered, or fails
/// with the conflict's message when no variant is free.
pub open spec fn rename_outcome<C: Fn() -> bool, P: Fn(&str) -> bool, R: Fn(&str, &str) -> Result<(), String>>(
    cancelled: C,
    probe: P,
    rename: R,
    dry_run: bool,
    taken: Seq<Seq<char>>,
    source: Seq<char>,
    action: PlannedActionView,
    r: RenameResult,
) -> bool {
    &&& r.source@ == source
    &&& {
        ||| call_ensures(cancelled, (), true) && r.status == RenameStatus::Cancelled && r.destination is None
            && r.error is None
        ||| call_ensures(cancelled, (), false) && match action {
            PlannedActionView::Rename(t) => match r.destination {
                None => r.status == RenameStatus::Failed && exists|e: ConflictError| #[trigger] no_free_variant(
                    probe,
                    t,
                    taken,
                    e,
                ) && opt_chars(r.error) == Some(conflict_text(e)),
                Some(d) => first_free_variant(probe, t, taken, d@) && if dry_run {
                    r.status == RenameStatus::DryRun && r.error is None
                } else {
                    ||| renamed_with(rename, source, d@, Ok(())) && r.status == RenameStatus::Renamed && r.error is None
                    ||| exists|e: Seq<char>| #[trigger] renamed_with(rename, source, d@, Err(e))
                        && r.status == RenameStatus::Failed && opt_chars(r.error) == Some(e)
                },
            },
            _ => settled_without_rename(action, false) == Some(r.status) && r.destination is None && r.error is None,
        }
    }
}

/// No two results claim the same target.
proof fn lemma_rename_claims_distinct(rs: Seq<RenameResult>)
    requires
        forall|i: int| 0 <= i < rs.len() && claims_target(#[trigger] rs[i]) ==> !rename_claims(rs.take(i)).contains(
            rs[i].destination->0@,
        ),
    ensures
        forall|i: int, j: int| 0 <= i < j < rs.len() && claims_target(#[trigger] rs[i]) && claims_target(#[trigger] rs[j])
            ==> rs[i].destination->0@ != rs[j].destination->0@,
{
    assert forall|i: int, j: int| 0 <= i < j < rs.len() && claims_target(#[trigger] rs[i]) && claims_target(#[trigger] rs[j])
        implies rs[i].destination->0@ != rs[j].destination->0@ by {
        lemma_rename_claims_contains(rs.take(j), i);
        assert(rs.take(j)[i] == rs[i]);
    }
}

proof fn lemma_rename_claims_contains(rs: Seq<RenameResult>, q: int)
    requires
        0 <= q < rs.len(),
        claims_target(rs[q]),
    ensures
        rename_claims(rs).contains(rs[q].destination->0@),
    decreases rs.len(),
{
    if q < rs.len() - 1 {
        lemma_rename_claims_contains(rs.drop_last(), q);
        let c = rename_claims(rs.drop_last());
        let k = choose|k: int| 0 <= k < c.len() && c[k] == rs[q].destination->0@;
        assert(rename_claims(rs)[k] == c[k]);
    } else {
        assert(rename_claims(rs)[rename_claims(rs).len() - 1] == rs[q].destination->0@);
    }
}

/// Carries out the planned renames in order (see [`rename_outcome`]):
/// each rename takes the first variant of its target that `probe` reports
/// as absent and no earlier file of this run has claimed;
/// `rename` moves the file (not called in a dry run); a file for which
/// `cancelled` answers yes is left alone. Every outcome is counted in
/// `stats`, and no two files claim the same target.
pub fn run_planned_renames<C: Fn() -> bool, P: Fn(&str) -> bool, R: Fn(&str, &str) -> Result<(), String>>(
    planned: Vec<(String, PlannedAction)>,
    dry_run: bool,
    cancelled: C,
    probe: P,
    rename: R,
    stats: &mut RenameStats,
) -> (results: Vec<RenameResult>)
    requires
        call_requires(cancelled, ()),
        forall|s: &str| call_requires(probe, (s,)),
        forall|a: &str, b: &str| call_requires(rename, (a, b)),
    ensures
        results@.len() == planned@.len(),
        forall|i: int| 0 <= i < results@.len() ==> rename_outcome(
            cancelled,
            probe,
            rename,
            dry_run,
            rename_claims(results@.take(i)),
            planned@[i].0@,
            planned@[i].1@,
            #[trigger] results@[i],
        ),
        *final(stats) == rename_stats_after_all(*old(stats), statuses_of(results@)),
        forall|i: int, j: int| 0 <= i < j < results@.len() && claims_target(#[trigger] results@[i])
            && claims_target(#[trigger] results@[j]) ==> results@[i].destination->0@ != results@[j].destination->0@,
{
    let ghost start = *stats;
    let mut results: Vec<RenameResult> = Vec::new();
    let mut occupied: Vec<String> = Vec::new();
    let mut i: usize = 0;
    proof {
        assert(crate::text::string_seqs(occupied@) =~= Seq::<Seq<char>>::empty());
    }
    while i < planned.len()
        invariant
            call_requires(cancelled, ()),
            forall|s: &str| call_requires(probe, (s,)),
            forall|a: &str, b: &str| call_requires(rename, (a, b)),
            i <= planned@.len(),
            results@.len() == i,
            crate::text::string_seqs(occupied@) == rename_claims(results@),
            forall|k: int| 0 <= k < i ==> rename_outcome(
                cancelled,
                probe,
                rename,
                dry_run,
                rename_claims(results@.take(k)),
                planned@[k].0@,
                planned@[k].1@,
                #[trigger] results@[k],
            ),
            forall|k: int| 0 <= k < i && claims_target(#[trigger] results@[k]) ==> !rename_claims(results@.take(k)).contains(
                results@[k].destination->0@,
            ),
            *stats == rename_stats_after_all(start, statuses_of(results@)),
        decreases planned@.len() - i,
    {
        let source = planned[i].0.as_str();
        let action = &planned[i].1;
        let ghost taken = crate::text::string_seqs(occupied@);
        let stop = cancelled();
        let ghost src = planned@[i as int].0@;
        let ghost act = planned@[i as int].1@;
        let result = match settle_without_rename(source, action, stop) {
            Some(r) => {
                proof {
                    assert(rename_outcome(cancelled, probe, rename, dry_run, taken, src, act, r));
                }
                r
            },
            None => {
                let target = match action {
                    PlannedAction::Rename(t) => t.as_str(),
                    _ => {
                        assert(false);
                        source
                    },
                };
                let probe_ref = &probe;
                let asks_probe = |p: &str| -> (b: bool)
                    ensures
                        call_ensures(*probe_ref, (p,), b),
                    { probe_ref(p) };
                let found = crate::process::resolve_filename_conflict_with(target, &occupied, asks_probe);
                proof {
                    assert(act == PlannedActionView::Rename(target@));
                    assert(!stop);
                    assert forall|c: Seq<char>| #[trigger] candidate_taken(asks_probe, taken, c) implies candidate_taken(
                        probe,
                        taken,
                        c,
                    ) by {
                        if reported_existing(asks_probe, c) {
                            let w = choose|w: &str| w@ == c && #[trigger] call_ensures(asks_probe, (w,), true);
                            assert(call_ensures(probe, (w,), true));
                        }
                    }
                }
                match found {
                    Err(e) => {
                        proof {
                            assert(no_free_variant(probe, target@, taken, e));
                        }
                        let msg = crate::process::conflict_message(e);
                        let r = settle_rename(source, Err(msg), None);
                        proof {
                            let ghost t = act->Rename_0;
                            assert(exists|e3: ConflictError| #[trigger] no_free_variant(probe, t, taken, e3)
                                && opt_chars(r.error) == Some(conflict_text(e3)));
                            assert(rename_outcome(cancelled, probe, rename, dry_run, taken, src, act, r));
                        }
                        r
                    },
                    Ok(free) => {
                        proof {
                            let w = choose|w: &str| w@ == free@ && #[trigger] call_ensures(asks_probe, (w,), false);
                            assert(call_ensures(probe, (w,), false));
                            assert(reported_absent(probe, free@));
                            assert(first_free_variant(probe, target@, taken, free@));
                        }
                        if dry_run {
                            let r = settle_rename(source, Ok(free), None);
                            proof {
                                assert(rename_outcome(cancelled, probe, rename, dry_run, taken, src, act, r));
                            }
                            r
                        } else {
                            let outcome = rename(source, free.as_str());
                            proof {
                                match &outcome {
                                    Ok(()) => assert(renamed_with(rename, source@, free@, Ok(()))),
                                    Err(e) => assert(renamed_with(rename, source@, free@, Err(e@))),
                                }
                            }
                            let r = settle_rename(source, Ok(free), Some(outcome));
                            proof {
                                assert(rename_outcome(cancelled, probe, rename, dry_run, taken, src, act, r));
                            }
                            r
                        }
                    },
                }
            },
        };
        let ghost before = results@;
        if claims_target_exec(&result) {
            match &result.destination {
                Some(d) => {
                    let ghost occ_before = occupied@;
                    occupied.push(owned(d.as_str()));
                    assert(crate::text::string_seqs(occupied@) =~= crate::text::string_seqs(occ_before).push(d@));
                },
                None => {},
            }
        }
        stats.record(result.status);
        results.push(result);
        proof {
            assert(results@.drop_last() =~= before);
            assert(results@.take(i as int) =~= before);
            assert(statuses_of(results@).drop_last() =~= statuses_of(before));
            assert forall|k: int| 0 <= k < i + 1 implies rename_outcome(
                cancelled,
                probe,
                rename,
                dry_run,
                rename_claims(results@.take(k)),
                planned@[k].0@,
                planned@[k].1@,
                #[trigger] results@[k],
            ) by {
                if k < i {
                    assert(results@.take(k) =~= before.take(k));
                    assert(results@[k] == before[k]);
                }
            }
            assert forall|k: int| 0 <= k < i + 1 && claims_target(#[trigger] results@[k]) implies !rename_claims(
                results@.take(k),
            ).contains(results@[k].destination->0@) by {
                if k < i {
                    assert(results@.take(k) =~= before.take(k));
                    assert(results@[k] == before[k]);
                }
            }
        }
        i = i + 1;
    }
    proof {
        lemma_rename_claims_distinct(results@);
    }
    results
}

fn claims_target_exec(r: &RenameResult) -> (b: bool)
    ensures
        b == claims_target(*r),
{
    (r.status == RenameStatus::Renamed || r.status == RenameStatus::DryRun) && r.destination.is_some()
}

} // verus!
