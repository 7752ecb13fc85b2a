//! Run configuration: processing mode, classification rules, file
//! operation, and the lists of supported extensions.

use vstd::prelude::*;
use crate::path::path_join;
use crate::text::{
    contains_ignore_ascii_case, copy_opt_string, copy_strings, opt_chars, owned, string_seqs,
    strings_contain_ignore_ascii_case,
};

verus! {

/// An option type whose variants are listed in a fixed order, so that a
/// selection can step through them by index.
pub trait EnumOption: Sized + Copy {
    /// Position of the variant in the list.
    spec fn index_of(self) -> nat;

    /// Number of variants.
    spec fn count_spec() -> nat;

    /// The variant at position `i`; the default variant when `i` is out of
    /// range.
    spec fn at_index(i: nat) -> Self;

    /// The default variant.
    spec fn default_spec() -> Self;

    proof fn lemma_index_round_trip(x: Self)
        ensures
            x.index_of() < Self::count_spec(),
            Self::at_index(x.index_of()) == x,
    ;

    proof fn lemma_at_index(i: nat)
        ensures
            0 < Self::count_spec(),
            i < Self::count_spec() ==> Self::at_index(i).index_of() == i,
            i >= Self::count_spec() ==> Self::at_index(i) == Self::default_spec(),
    ;

    fn to_index(&self) -> (r: usize)
        ensures
            r as nat == self.index_of(),
    ;

    fn from_index(i: usize) -> (r: Self)
        ensures
            r == Self::at_index(i as nat),
    ;

    fn variant_count() -> (r: usize)
        ensures
            r as nat == Self::count_spec(),
    ;

    fn default_option() -> (r: Self)
        ensures
            r == Self::default_spec(),
    ;
}

/// How files already present in the output are treated.
#[derive(Clone, Copy, Debug, PartialEq, Eq, Structural)]
pub enum ProcessingMode {
    /// Process all files, overwriting existing ones.
    Full,
    /// Skip files whose content already exists in the target.
    Supplement,
    /// Only process files newer than the newest one in the target.
    Incremental,
}

/// Time-based folder layout.
#[derive(Clone, Copy, Debug, PartialEq, Eq, Structural)]
pub enum ClassificationRule {
    /// All files directly in the output directory.
    Unclassified,
    /// `YYYY/`.
    Year,
    /// `YYYY/MM/` or `YYYY-MM/`.
    YearMonth,
}

/// Month folder format for year-month classification.
#[derive(Clone, Copy, Debug, PartialEq, Eq, Structural)]
pub enum MonthFormat {
    /// `YYYY/MM/`.
    Nested,
    /// `YYYY-MM/`.
    Combined,
}

/// How a file reaches its destination.
#[derive(Clone, Copy, Debug, PartialEq, Eq, Structural)]
pub enum FileOperation {
    Copy,
    Move,
    Hardlink,
    Symlink,
}

/// Kind of media file, by extension.
#[derive(Clone, Copy, Debug, PartialEq, Eq, Structural)]
pub enum FileType {
    Photos,
    Videos,
    Raw,
}

impl FileType {
    /// Name of the sub-folder for this kind.
    pub fn folder_name(&self) -> (r: &'static str)
        ensures
            r@ == folder_name_spec(*self),
    {
        match self {
            FileType::Photos => "Photos",
            FileType::Videos => "Videos",
            FileType::Raw => "Raw",
        }
    }
}

/// Sub-folder name of each kind of media file.
pub open spec fn folder_name_spec(t: FileType) -> Seq<char> {
    match t {
        FileType::Photos => "Photos"@,
        FileType::Videos => "Videos"@,
        FileType::Raw => "Raw"@,
    }
}

impl EnumOption for ProcessingMode {
    open spec fn index_of(self) -> nat {
        match self {
            ProcessingMode::Full => 0,
            ProcessingMode::Supplement => 1,
            ProcessingMode::Incremental => 2,
        }
    }

    open spec fn count_spec() -> nat {
        3
    }

    open spec fn at_index(i: nat) -> Self {
        if i == 0 {
            ProcessingMode::Full
        } else if i == 1 {
            ProcessingMode::Supplement
        } else {
            ProcessingMode::Incremental
        }
    }

    open spec fn default_spec() -> Self {
        ProcessingMode::Incremental
    }

    proof fn lemma_index_round_trip(x: Self) {
    }

    proof fn lemma_at_index(i: nat) {
    }

    fn to_index(&self) -> (r: usize) {
        match self {
            ProcessingMode::Full => 0,
            ProcessingMode::Supplement => 1,
            ProcessingMode::Incremental => 2,
        }
    }

    fn from_index(i: usize) -> (r: Self) {
        if i == 0 {
            ProcessingMode::Full
        } else if i == 1 {
            ProcessingMode::Supplement
        } else {
            ProcessingMode::Incremental
        }
    }

    fn variant_count() -> (r: usize) {
        3
    }

    fn default_option() -> (r: Self) {
        ProcessingMode::Incremental
    }
}

impl EnumOption for ClassificationRule {
    open spec fn index_of(self) -> nat {
        match self {
            ClassificationRule::Unclassified => 0,
            ClassificationRule::Year => 1,
            ClassificationRule::YearMonth => 2,
        }
    }

    open spec fn count_spec() -> nat {
        3
    }

    open spec fn at_index(i: nat) -> Self {
        if i == 1 {
            ClassificationRule::Year
        } else if i == 2 {
            ClassificationRule::YearMonth
        } else {
            ClassificationRule::Unclassified
        }
    }

    open spec fn default_spec() -> Self {
        ClassificationRule::Unclassified
    }

    proof fn lemma_index_round_trip(x: Self) {
    }

    proof fn lemma_at_index(i: nat) {
    }

    fn to_index(&self) -> (r: usize) {
        match self {
            ClassificationRule::Unclassified => 0,
            ClassificationRule::Year => 1,
            ClassificationRule::YearMonth => 2,
        }
    }

    fn from_index(i: usize) -> (r: Self) {
        if i == 1 {
            ClassificationRule::Year
        } else if i == 2 {
            ClassificationRule::YearMonth
        } else {
            ClassificationRule::Unclassified
        }
    }

    fn variant_count() -> (r: usize) {
        3
    }

    fn default_option() -> (r: Self) {
        ClassificationRule::Unclassified
    }
}

impl EnumOption for MonthFormat {
    open spec fn index_of(self) -> nat {
        match self {
            MonthFormat::Nested => 0,
            MonthFormat::Combined => 1,
        }
    }

    open spec fn count_spec() -> nat {
        2
    }

    open spec fn at_index(i: nat) -> Self {
        if i == 1 {
            MonthFormat::Combined
        } else {
            MonthFormat::Nested
        }
    }

    open spec fn default_spec() -> Self {
        MonthFormat::Nested
    }

    proof fn lemma_index_round_trip(x: Self) {
    }

    proof fn lemma_at_index(i: nat) {
    }

    fn to_index(&self) -> (r: usize) {
        match self {
            MonthFormat::Nested => 0,
            MonthFormat::Combined => 1,
        }
    }

    fn from_index(i: usize) -> (r: Self) {
        if i == 1 {
            MonthFormat::Combined
        } else {
            MonthFormat::Nested
        }
    }

    fn variant_count() -> (r: usize) {
        2
    }

    fn default_option() -> (r: Self) {
        MonthFormat::Nested
    }
}

impl EnumOption for FileOperation {
    open spec fn index_of(self) -> nat {
        match self {
            FileOperation::Copy => 0,
            FileOperation::Move => 1,
            FileOperation::Hardlink => 2,
            FileOperation::Symlink => 3,
        }
    }

    open spec fn count_spec() -> nat {
        4
    }

    open spec fn at_index(i: nat) -> Self {
        if i == 1 {
            FileOperation::Move
        } else if i == 2 {
            FileOperation::Hardlink
        } else if i == 3 {
            FileOperation::Symlink
        } else {
            FileOperation::Copy
        }
    }

    open spec fn default_spec() -> Self {
        FileOperation::Copy
    }

    proof fn lemma_index_round_trip(x: Self) {
    }

    proof fn lemma_at_index(i: nat) {
    }

    fn to_index(&self) -> (r: usize) {
        match self {
            FileOperation::Copy => 0,
            FileOperation::Move => 1,
            FileOperation::Hardlink => 2,
            FileOperation::Symlink => 3,
        }
    }

    fn from_index(i: usize) -> (r: Self) {
        if i == 1 {
            FileOperation::Move
        } else if i == 2 {
            FileOperation::Hardlink
        } else if i == 3 {
            FileOperation::Symlink
        } else {
            FileOperation::Copy
        }
    }

    fn variant_count() -> (r: usize) {
        4
    }

    fn default_option() -> (r: Self) {
        FileOperation::Copy
    }
}

impl Default for ProcessingMode {
    fn default() -> (r: Self)
        ensures
            r == ProcessingMode::Incremental,
    {
        ProcessingMode::Incremental
    }
}

impl Default for ClassificationRule {
    fn default() -> (r: Self)
        ensures
            r == ClassificationRule::Unclassified,
    {
        ClassificationRule::Unclassified
    }
}

impl Default for MonthFormat {
    fn default() -> (r: Self)
        ensures
            r == MonthFormat::Nested,
    {
        MonthFormat::Nested
    }
}

impl Default for FileOperation {
    fn default() -> (r: Self)
        ensures
            r == FileOperation::Copy,
    {
        FileOperation::Copy
    }
}

/// A run configuration. Paths are `/`-separated strings.
#[derive(Debug)]
pub struct Config {
    /// Input roots scanned recursively.
    pub input_dirs: Vec<String>,
    /// Destination directory.
    pub output_dir: String,
    /// Directories skipped while scanning (absolute paths or folder names).
    pub exclude_dirs: Vec<String>,
    pub processing_mode: ProcessingMode,
    pub classification: ClassificationRule,
    pub month_format: MonthFormat,
    /// Adds a `Photos/Videos/Raw` sub-folder.
    pub classify_by_type: bool,
    pub operation: FileOperation,
    /// Hash-based deduplication.
    pub deduplicate: bool,
    /// State file for incremental mode.
    pub state_file: Option<String>,
    /// Parallel thread count (0 = automatic).
    pub threads: usize,
    /// Files above this many bytes use sampled hashing.
    pub large_file_threshold: u64,
    /// Preview without writing.
    pub dry_run: bool,
    /// Rename to standard camera names while organising.
    pub unify_filenames: bool,
    /// Keep names that already follow the standard camera pattern.
    pub preserve_standard_names: bool,
    /// Path of the list of files left unrenamed.
    pub unmodified_list_file: Option<String>,
    pub verbose: bool,
    pub image_extensions: Vec<String>,
    pub video_extensions: Vec<String>,
    pub raw_extensions: Vec<String>,
}

/// The mathematical content of a [`Config`].
pub struct ConfigView {
    pub input_dirs: Seq<Seq<char>>,
    pub output_dir: Seq<char>,
    pub exclude_dirs: Seq<Seq<char>>,
    pub processing_mode: ProcessingMode,
    pub classification: ClassificationRule,
    pub month_format: MonthFormat,
    pub classify_by_type: bool,
    pub operation: FileOperation,
    pub deduplicate: bool,
    pub state_file: Option<Seq<char>>,
    pub threads: usize,
    pub large_file_threshold: u64,
    pub dry_run: bool,
    pub unify_filenames: bool,
    pub preserve_standard_names: bool,
    pub unmodified_list_file: Option<Seq<char>>,
    pub verbose: bool,
    pub image_extensions: Seq<Seq<char>>,
    pub video_extensions: Seq<Seq<char>>,
    pub raw_extensions: Seq<Seq<char>>,
}

impl View for Config {
    type V = ConfigView;

    open spec fn view(&self) -> ConfigView {
        ConfigView {
            input_dirs: string_seqs(self.input_dirs@),
            output_dir: self.output_dir@,
            exclude_dirs: string_seqs(self.exclude_dirs@),
            processing_mode: self.processing_mode,
            classification: self.classification,
            month_format: self.month_format,
            classify_by_type: self.classify_by_type,
            operation: self.operation,
            deduplicate: self.deduplicate,
            state_file: opt_chars(self.state_file),
            threads: self.threads,
            large_file_threshold: self.large_file_threshold,
            dry_run: self.dry_run,
            unify_filenames: self.unify_filenames,
            preserve_standard_names: self.preserve_standard_names,
            unmodified_list_file: opt_chars(self.unmodified_list_file),
            verbose: self.verbose,
            image_extensions: string_seqs(self.image_extensions@),
            video_extensions: string_seqs(self.video_extensions@),
            raw_extensions: string_seqs(self.raw_extensions@),
        }
    }
}

/// Default image extensions.
pub open spec fn default_image_extensions() -> Seq<Seq<char>> {
    seq![
        "jpg"@,
        "jpeg"@,
        "png"@,
        "gif"@,
        "bmp"@,
        "webp"@,
        "heic"@,
        "heif"@,
        "avif"@,
        "tiff"@,
        "tif"@,
    ]
}

/// Default video extensions.
pub open spec fn default_video_extensions() -> Seq<Seq<char>> {
    seq!["mp4"@, "mov"@, "avi"@, "mkv"@, "wmv"@, "flv"@, "m4v"@, "3gp"@]
}

/// Default RAW extensions.
pub open spec fn default_raw_extensions() -> Seq<Seq<char>> {
    seq![
        "raw"@,
        "arw"@,
        "cr2"@,
        "cr3"@,
        "nef"@,
        "orf"@,
        "rw2"@,
        "dng"@,
        "raf"@,
        "srw"@,
        "pef"@,
    ]
}

/// Default large-file threshold: 100 MiB.
pub const DEFAULT_LARGE_FILE_THRESHOLD: u64 = 104857600u64;

/// The default configuration.
pub open spec fn default_config() -> ConfigView {
    ConfigView {
        input_dirs: Seq::<Seq<char>>::empty(),
        output_dir: "output"@,
        exclude_dirs: Seq::<Seq<char>>::empty(),
        processing_mode: ProcessingMode::Incremental,
        classification: ClassificationRule::Unclassified,
        month_format: MonthFormat::Nested,
        classify_by_type: false,
        operation: FileOperation::Copy,
        deduplicate: true,
        state_file: None,
        threads: 0,
        large_file_threshold: DEFAULT_LARGE_FILE_THRESHOLD,
        dry_run: false,
        unify_filenames: false,
        preserve_standard_names: false,
        unmodified_list_file: None,
        verbose: false,
        image_extensions: default_image_extensions(),
        video_extensions: default_video_extensions(),
        raw_extensions: default_raw_extensions(),
    }
}

fn strings_from(items: &[&str]) -> (r: Vec<String>)
    ensures
        r@.len() == items@.len(),
        forall|i: int| 0 <= i < items@.len() ==> (#[trigger] r@[i])@ == items@[i]@,
{
    let mut r: Vec<String> = Vec::new();
    let mut i: usize = 0;
    while i < items.len()
        invariant
            i <= items@.len(),
            r@.len() == i,
            forall|j: int| 0 <= j < i ==> (#[trigger] r@[j])@ == items@[j]@,
        decreases items@.len() - i,
    {
        r.push(owned(items[i]));
        i = i + 1;
    }
    r
}

/// File name of the incremental-mode state file inside the output directory.
pub open spec fn state_file_name() -> Seq<char> {
    ".gallery_sorter_state.json"@
}

/// File name of the unmodified-files list inside the output directory.
pub open spec fn unmodified_list_name() -> Seq<char> {
    "unmodified_files.txt"@
}

impl Default for Config {
    fn default() -> (r: Self)
        ensures
            r@ == default_config(),
    {
        let images = strings_from(
            &["jpg", "jpeg", "png", "gif", "bmp", "webp", "heic", "heif", "avif", "tiff", "tif"],
        );
        let videos = strings_from(&["mp4", "mov", "avi", "mkv", "wmv", "flv", "m4v", "3gp"]);
        let raws = strings_from(
            &["raw", "arw", "cr2", "cr3", "nef", "orf", "rw2", "dng", "raf", "srw", "pef"],
        );
        let r = Config {
            input_dirs: Vec::new(),
            output_dir: owned("output"),
            exclude_dirs: Vec::new(),
            processing_mode: ProcessingMode::Incremental,
            classification: ClassificationRule::Unclassified,
            month_format: MonthFormat::Nested,
            classify_by_type: false,
            operation: FileOperation::Copy,
            deduplicate: true,
            state_file: None,
            threads: 0,
            large_file_threshold: DEFAULT_LARGE_FILE_THRESHOLD,
            dry_run: false,
            unify_filenames: false,
            preserve_standard_names: false,
            unmodified_list_file: None,
            verbose: false,
            image_extensions: images,
            video_extensions: videos,
            raw_extensions: raws,
        };
        assert(string_seqs(r.image_extensions@) =~= default_image_extensions());
        assert(string_seqs(r.video_extensions@) =~= default_video_extensions());
        assert(string_seqs(r.raw_extensions@) =~= default_raw_extensions());
        assert(string_seqs(r.input_dirs@) =~= Seq::<Seq<char>>::empty());
        assert(string_seqs(r.exclude_dirs@) =~= Seq::<Seq<char>>::empty());
        r
    }
}

/// The kind of a file with extension `ext`, by the configured lists:
/// images first, then videos, then RAW.
pub open spec fn file_type_of(c: ConfigView, ext: Seq<char>) -> Option<FileType> {
    if contains_ignore_ascii_case(c.image_extensions, ext) {
        Some(FileType::Photos)
    } else if contains_ignore_ascii_case(c.video_extensions, ext) {
        Some(FileType::Videos)
    } else if contains_ignore_ascii_case(c.raw_extensions, ext) {
        Some(FileType::Raw)
    } else {
        None
    }
}

/// Whether a file with extension `ext` is supported at all.
pub open spec fn is_supported_ext(c: ConfigView, ext: Seq<char>) -> bool {
    ||| contains_ignore_ascii_case(c.image_extensions, ext)
    ||| contains_ignore_ascii_case(c.video_extensions, ext)
    ||| contains_ignore_ascii_case(c.raw_extensions, ext)
}

/// The state file: the configured one, or the default name in the output
/// directory.
pub open spec fn state_file_of(c: ConfigView) -> Seq<char> {
    match c.state_file {
        Some(p) => p,
        None => path_join(c.output_dir, state_file_name()),
    }
}

/// The unmodified-files list: the configured one, or the default name in
/// the output directory.
pub open spec fn unmodified_list_of(c: ConfigView) -> Seq<char> {
    match c.unmodified_list_file {
        Some(p) => p,
        None => path_join(c.output_dir, unmodified_list_name()),
    }
}

impl Config {
    /// A copy of this configuration.
    pub fn duplicate(&self) -> (r: Config)
        ensures
            r@ == self@,
    {
        Config {
            input_dirs: copy_strings(&self.input_dirs),
            output_dir: owned(self.output_dir.as_str()),
            exclude_dirs: copy_strings(&self.exclude_dirs),
            processing_mode: self.processing_mode,
            classification: self.classification,
            month_format: self.month_format,
            classify_by_type: self.classify_by_type,
            operation: self.operation,
            deduplicate: self.deduplicate,
            state_file: copy_opt_string(&self.state_file),
            threads: self.threads,
            large_file_threshold: self.large_file_threshold,
            dry_run: self.dry_run,
            unify_filenames: self.unify_filenames,
            preserve_standard_names: self.preserve_standard_names,
            unmodified_list_file: copy_opt_string(&self.unmodified_list_file),
            verbose: self.verbose,
            image_extensions: copy_strings(&self.image_extensions),
            video_extensions: copy_strings(&self.video_extensions),
            raw_extensions: copy_strings(&self.raw_extensions),
        }
    }

    /// Whether `ext` is a configured image extension (ASCII case ignored).
    pub fn is_image(&self, ext: &str) -> (r: bool)
        ensures
            r == contains_ignore_ascii_case(self@.image_extensions, ext@),
    {
        strings_contain_ignore_ascii_case(&self.image_extensions, ext)
    }

    /// Whether `ext` is a configured video extension (ASCII case ignored).
    pub fn is_video(&self, ext: &str) -> (r: bool)
        ensures
            r == contains_ignore_ascii_case(self@.video_extensions, ext@),
    {
        strings_contain_ignore_ascii_case(&self.video_extensions, ext)
    }

    /// Whether `ext` is a configured RAW extension (ASCII case ignored).
    pub fn is_raw(&self, ext: &str) -> (r: bool)
        ensures
            r == contains_ignore_ascii_case(self@.raw_extensions, ext@),
    {
        strings_contain_ignore_ascii_case(&self.raw_extensions, ext)
    }

    /// Whether `ext` is any supported extension.
    pub fn is_supported(&self, ext: &str) -> (r: bool)
        ensures
            r == is_supported_ext(self@, ext@),
    {
        self.is_image(ext) || self.is_video(ext) || self.is_raw(ext)
    }

    /// The kind of a file with extension `ext`.
    pub fn get_file_type(&self, ext: &str) -> (r: Option<FileType>)
        ensures
            r == file_type_of(self@, ext@),
    {
        if self.is_image(ext) {
            Some(FileType::Photos)
        } else if self.is_video(ext) {
            Some(FileType::Videos)
        } else if self.is_raw(ext) {
            Some(FileType::Raw)
        } else {
            None
        }
    }

    /// Path of the incremental-mode state file.
    pub fn get_state_file(&self) -> (r: String)
        ensures
            r@ == state_file_of(self@),
    {
        match &self.state_file {
            Some(p) => owned(p.as_str()),
            None => crate::path::join_path(self.output_dir.as_str(), ".gallery_sorter_state.json"),
        }
    }

    /// Path of the unmodified-files list.
    pub fn get_unmodified_list_file(&self) -> (r: String)
        ensures
            r@ == unmodified_list_of(self@),
    {
        match &self.unmodified_list_file {
            Some(p) => owned(p.as_str()),
            None => crate::path::join_path(self.output_dir.as_str(), "unmodified_files.txt"),
        }
    }
}

} // verus!
