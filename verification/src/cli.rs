//! Command-line settings: how flags override a configuration, how a
//! configuration file is located, the checks made before a run, and the
//! one-line progress display.

use vstd::prelude::*;
use crate::config::{
    default_config, ClassificationRule, Config, ConfigView, FileOperation, MonthFormat,
    ProcessingMode,
};
use crate::path::{
    extension, file_name, file_stem, file_stem_str, extension_str, file_name_str, join_path,
    path_join, path_starts_with, path_starts_with_str, with_extension, with_extension_str,
};
use crate::text::{
    chars_of, copy_strings, decimal, opt_chars, owned,
    push_decimal, str_eq, string_of, string_seqs,
};

verus! {

/// Command-line arguments. Paths are `/`-separated strings.
#[derive(Debug)]
pub struct Cli {
    /// Configuration file path or name.
    pub config: Option<String>,
    /// Input directories.
    pub input: Option<Vec<String>>,
    /// Output directory.
    pub output: Option<String>,
    pub mode: Option<ProcessingMode>,
    pub classify: Option<ClassificationRule>,
    pub month_format: Option<MonthFormat>,
    pub classify_by_type: bool,
    pub operation: Option<FileOperation>,
    pub no_deduplicate: bool,
    pub state_file: Option<String>,
    pub threads: Option<usize>,
    /// Large-file threshold in MiB.
    pub large_file_mb: Option<u64>,
    pub dry_run: bool,
    pub unify_filenames: bool,
    pub preserve_standard_names: bool,
    pub unmodified_list: Option<String>,
    pub verbose: bool,
    pub json_log: bool,
    pub interactive: bool,
}

/// Bytes in a mebibyte.
pub const MIB: u64 = 1048576u64;

/// Arguments whose large-file threshold, in bytes, fits in 64 bits.
pub open spec fn cli_in_range(cli: Cli) -> bool {
    match cli.large_file_mb {
        Some(mb) => mb * 1048576 <= u64::MAX,
        None => true,
    }
}

/// Whether the large-file threshold of the arguments fits in 64 bits
/// (see [`cli_in_range`]).
pub fn cli_in_range_exec(cli: &Cli) -> (r: bool)
    ensures
        r == cli_in_range(*cli),
{
    match cli.large_file_mb {
        Some(mb) => mb <= u64::MAX / MIB,
        None => true,
    }
}

/// `c` with every flag that was given applied: options replace the value,
/// the switches `--classify-by-type`, `--dry-run`, `--unify-filenames`,
/// `--preserve-standard-names` and `--verbose` can only turn their setting on, and `--no-deduplicate` can
/// only turn deduplication off.
pub open spec fn with_overrides(cli: Cli, c: ConfigView) -> ConfigView {
    ConfigView {
        input_dirs: match cli.input {
            Some(v) => string_seqs(v@),
            None => c.input_dirs,
        },
        output_dir: match cli.output {
            Some(o) => o@,
            None => c.output_dir,
        },
        processing_mode: match cli.mode {
            Some(m) => m,
            None => c.processing_mode,
        },
        classification: match cli.classify {
            Some(k) => k,
            None => c.classification,
        },
        month_format: match cli.month_format {
            Some(m) => m,
            None => c.month_format,
        },
        classify_by_type: c.classify_by_type || cli.classify_by_type,
        operation: match cli.operation {
            Some(o) => o,
            None => c.operation,
        },
        deduplicate: c.deduplicate && !cli.no_deduplicate,
        state_file: match cli.state_file {
            Some(p) => Some(p@),
            None => c.state_file,
        },
        threads: match cli.threads {
            Some(t) => t,
            None => c.threads,
        },
        large_file_threshold: match cli.large_file_mb {
            Some(mb) => (mb * 1048576) as u64,
            None => c.large_file_threshold,
        },
        dry_run: c.dry_run || cli.dry_run,
        unify_filenames: c.unify_filenames || cli.unify_filenames,
        preserve_standard_names: c.preserve_standard_names || cli.preserve_standard_names,
        unmodified_list_file: match cli.unmodified_list {
            Some(p) => Some(p@),
            None => c.unmodified_list_file,
        },
        verbose: c.verbose || cli.verbose,
        ..c
    }
}

/// Arguments that set nothing: no option and no switch.
pub open spec fn sets_nothing(cli: Cli) -> bool {
    &&& cli.input is None
    &&& cli.output is None
    &&& cli.mode is None
    &&& cli.classify is None
    &&& cli.month_format is None
    &&& !cli.classify_by_type
    &&& cli.operation is None
    &&& !cli.no_deduplicate
    &&& cli.state_file is None
    &&& cli.threads is None
    &&& cli.large_file_mb is None
    &&& !cli.dry_run
    &&& !cli.unify_filenames
    &&& !cli.preserve_standard_names
    &&& cli.unmodified_list is None
    &&& !cli.verbose
}

/// Without flags a configuration file's values are kept as they are.
pub proof fn lemma_no_flags_keep_file_values(cli: Cli, c: ConfigView)
    requires
        sets_nothing(cli),
    ensures
        with_overrides(cli, c) == c,
{
}

/// A switch set in the file stays set whatever the flags, and
/// deduplication switched off in the file stays off.
pub proof fn lemma_switches_only_add(cli: Cli, c: ConfigView)
    ensures
        c.classify_by_type ==> with_overrides(cli, c).classify_by_type,
        c.dry_run ==> with_overrides(cli, c).dry_run,
        c.unify_filenames ==> with_overrides(cli, c).unify_filenames,
        c.preserve_standard_names ==> with_overrides(cli, c).preserve_standard_names,
        c.verbose ==> with_overrides(cli, c).verbose,
        !c.deduplicate ==> !with_overrides(cli, c).deduplicate,
{
}

/// Flags never touch what only a configuration file sets: the excluded
/// directories and the lists of supported extensions.
pub proof fn lemma_flags_keep_file_only_keys(cli: Cli, c: ConfigView)
    ensures
        with_overrides(cli, c).exclude_dirs == c.exclude_dirs,
        with_overrides(cli, c).image_extensions == c.image_extensions,
        with_overrides(cli, c).video_extensions == c.video_extensions,
        with_overrides(cli, c).raw_extensions == c.raw_extensions,
{
}

/// A flag that is given always wins over the file's value.
pub proof fn lemma_given_flags_win(cli: Cli, c: ConfigView)
    requires
        cli_in_range(cli),
    ensures
        cli.output matches Some(o) ==> with_overrides(cli, c).output_dir == o@,
        cli.mode matches Some(m) ==> with_overrides(cli, c).processing_mode == m,
        cli.classify matches Some(k) ==> with_overrides(cli, c).classification == k,
        cli.operation matches Some(o) ==> with_overrides(cli, c).operation == o,
        cli.threads matches Some(t) ==> with_overrides(cli, c).threads == t,
        cli.large_file_mb matches Some(mb) ==> with_overrides(cli, c).large_file_threshold == mb * 1048576,
{
}

/// The configuration used when no file is given: the defaults, classified
/// by year and month unless `--classify` says otherwise, with the flags
/// applied.
pub open spec fn cli_only_config(cli: Cli) -> ConfigView {
    with_overrides(
        cli,
        ConfigView {
            classification: match cli.classify {
                Some(k) => k,
                None => ClassificationRule::YearMonth,
            },
            ..default_config()
        },
    )
}

/// `mb` mebibytes in bytes.
fn mib_to_bytes(mb: u64) -> (r: u64)
    requires
        mb * 1048576 <= u64::MAX,
    ensures
        r == (mb * 1048576) as u64,
{
    mb * MIB
}

impl Cli {
    /// The configuration file's stem, used to name log files.
    pub fn config_name(&self) -> (r: Option<String>)
        ensures
            opt_chars(r) == match self.config {
                Some(p) => file_stem(p@),
                None => None,
            },
    {
        match &self.config {
            Some(p) => file_stem_str(p.as_str()),
            None => None,
        }
    }

    /// Applies the path-valued flags: inputs, output, state file and
    /// unmodified-list file.
    fn apply_path_overrides(&self, config: &mut Config)
        ensures
            final(config)@ == (ConfigView {
                input_dirs: with_overrides(*self, old(config)@).input_dirs,
                output_dir: with_overrides(*self, old(config)@).output_dir,
                state_file: with_overrides(*self, old(config)@).state_file,
                unmodified_list_file: with_overrides(*self, old(config)@).unmodified_list_file,
                ..old(config)@
            }),
    {
        match &self.input {
            Some(inputs) => {
                config.input_dirs = copy_strings(inputs);
            },
            None => {},
        }
        match &self.output {
            Some(output) => {
                config.output_dir = owned(output.as_str());
            },
            None => {},
        }
        match &self.state_file {
            Some(state_file) => {
                config.state_file = Some(owned(state_file.as_str()));
            },
            None => {},
        }
        match &self.unmodified_list {
            Some(path) => {
                config.unmodified_list_file = Some(owned(path.as_str()));
            },
            None => {},
        }
    }

    /// Applies the enumerated and numeric options.
    fn apply_option_overrides(&self, config: &mut Config)
        ensures
            final(config)@ == (ConfigView {
                processing_mode: match self.mode {
                    Some(m) => m,
                    None => old(config).processing_mode,
                },
                classification: match self.classify {
                    Some(k) => k,
                    None => old(config).classification,
                },
                month_format: match self.month_format {
                    Some(m) => m,
                    None => old(config).month_format,
                },
                operation: match self.operation {
                    Some(o) => o,
                    None => old(config).operation,
                },
                threads: match self.threads {
                    Some(t) => t,
                    None => old(config).threads,
                },
                ..old(config)@
            }),
    {
        let processing_mode = match self.mode {
            Some(m) => m,
            None => config.processing_mode,
        };
        let classification = match self.classify {
            Some(k) => k,
            None => config.classification,
        };
        let month_format = match self.month_format {
            Some(m) => m,
            None => config.month_format,
        };
        let operation = match self.operation {
            Some(o) => o,
            None => config.operation,
        };
        let threads = match self.threads {
            Some(t) => t,
            None => config.threads,
        };
        config.processing_mode = processing_mode;
        config.classification = classification;
        config.month_format = month_format;
        config.operation = operation;
        config.threads = threads;
    }

    /// Applies `--large-file-mb`.
    fn apply_threshold_override(&self, config: &mut Config)
        requires
            cli_in_range(*self),
        ensures
            final(config)@ == (ConfigView {
                large_file_threshold: with_overrides(*self, old(config)@).large_file_threshold,
                ..old(config)@
            }),
    {
        if let Some(large_file_mb) = self.large_file_mb {
            config.large_file_threshold = mib_to_bytes(large_file_mb);
        }
    }

    /// Applies the switches.
    fn apply_switch_overrides(&self, config: &mut Config)
        ensures
            final(config)@ == (ConfigView {
                classify_by_type: with_overrides(*self, old(config)@).classify_by_type,
                deduplicate: with_overrides(*self, old(config)@).deduplicate,
                dry_run: with_overrides(*self, old(config)@).dry_run,
                unify_filenames: with_overrides(*self, old(config)@).unify_filenames,
                preserve_standard_names: with_overrides(*self, old(config)@).preserve_standard_names,
                verbose: with_overrides(*self, old(config)@).verbose,
                ..old(config)@
            }),
    {
        config.classify_by_type = config.classify_by_type || self.classify_by_type;
        config.deduplicate = config.deduplicate && !self.no_deduplicate;
        config.dry_run = config.dry_run || self.dry_run;
        config.unify_filenames = config.unify_filenames || self.unify_filenames;
        config.preserve_standard_names = config.preserve_standard_names || self.preserve_standard_names;
        config.verbose = config.verbose || self.verbose;
    }

    /// Applies the given flags to `config` (see [`with_overrides`]).
    pub fn apply_overrides(&self, config: &mut Config)
        requires
            cli_in_range(*self),
        ensures
            final(config)@ == with_overrides(*self, old(config)@),
    {
        self.apply_path_overrides(config);
        self.apply_option_overrides(config);
        self.apply_threshold_override(config);
        self.apply_switch_overrides(config);
    }

    /// A configuration read from a file, with the flags applied.
    pub fn merge_with_config(&self, config: Config) -> (r: Config)
        requires
            cli_in_range(*self),
        ensures
            r@ == with_overrides(*self, config@),
    {
        let mut config = config;
        self.apply_overrides(&mut config);
        config
    }

    /// The configuration used when no file is given (see
    /// [`cli_only_config`]).
    pub fn to_config(&self) -> (r: Config)
        requires
            cli_in_range(*self),
        ensures
            r@ == cli_only_config(*self),
    {
        let classification = match self.classify {
            Some(classify) => classify,
            None => ClassificationRule::YearMonth,
        };
        let mut config = Config::default();
        config.classification = classification;
        self.apply_overrides(&mut config);
        config
    }
}

/// Whether the interactive interface should start: no argument besides the
/// program name, or `-i` / `--interactive` among the arguments.
pub open spec fn interactive_requested(args: Seq<Seq<char>>) -> bool {
    ||| args.len() == 1
    ||| exists|i: int| 1 <= i < args.len() && (#[trigger] args[i] == "-i"@ || args[i] == "--interactive"@)
}

/// Interactive-mode decision on the raw argument list.
pub fn should_run_interactive_for_args(args: &[String]) -> (r: bool)
    ensures
        r == interactive_requested(string_seqs(args@)),
{
    if args.len() == 1 {
        return true;
    }
    let mut i: usize = 1;
    while i < args.len()
        invariant
            1 <= i <= args@.len() || args@.len() == 0,
            forall|j: int|
                1 <= j < i ==> !(#[trigger] args@[j]@ == "-i"@ || args@[j]@ == "--interactive"@),
        decreases args@.len() - i,
    {
        if str_eq(args[i].as_str(), "-i") || str_eq(args[i].as_str(), "--interactive") {
            assert(string_seqs(args@)[i as int] == args@[i as int]@);
            return true;
        }
        i = i + 1;
    }
    assert forall|j: int| 1 <= j < string_seqs(args@).len() implies !(#[trigger] string_seqs(
        args@,
    )[j] == "-i"@ || string_seqs(args@)[j] == "--interactive"@) by {
        assert(string_seqs(args@)[j] == args@[j]@);
    }
    false
}

// ---------------------------------------------------------------------------
// Locating and loading configuration files
// ---------------------------------------------------------------------------

/// `p` with `.toml` added when it has no extension.
pub open spec fn with_toml(p: Seq<char>) -> Seq<char> {
    if extension(p) is None {
        with_extension(p, "toml"@)
    } else {
        p
    }
}

/// Where a configuration named `config_path` is looked for, in order: the
/// path as given, the path with `.toml` added when it has no extension, and
/// its file name (with `.toml` when needed) inside the `Config` directory
/// next to the executable.
pub open spec fn config_candidates(exe_dir: Seq<char>, config_path: Seq<char>) -> Seq<Seq<char>> {
    let name = match file_name(config_path) {
        Some(n) => n,
        None => config_path,
    };
    seq![
        config_path,
        with_toml(config_path),
        with_toml(path_join(path_join(exe_dir, "Config"@), name)),
    ]
}

/// The first candidate that exists, or `config_path` itself.
pub open spec fn resolved_config_path(
    exe_dir: Seq<char>,
    config_path: Seq<char>,
    existing: Seq<Seq<char>>,
) -> Seq<char> {
    let c = config_candidates(exe_dir, config_path);
    if existing.contains(c[0]) {
        c[0]
    } else if existing.contains(c[1]) {
        c[1]
    } else if existing.contains(c[2]) {
        c[2]
    } else {
        config_path
    }
}

fn with_toml_str(p: &str) -> (r: String)
    ensures
        r@ == with_toml(p@),
{
    match extension_str(p) {
        None => with_extension_str(p, "toml"),
        Some(_) => owned(p),
    }
}

/// The paths at which a configuration is looked for (see
/// [`config_candidates`]).
pub fn config_path_candidates(exe_dir: &str, config_path: &str) -> (r: Vec<String>)
    ensures
        string_seqs(r@) == config_candidates(exe_dir@, config_path@),
{
    let name = match file_name_str(config_path) {
        Some(n) => n,
        None => owned(config_path),
    };
    let config_dir = join_path(exe_dir, "Config");
    let in_dir = join_path(config_dir.as_str(), name.as_str());
    let mut r: Vec<String> = Vec::new();
    r.push(owned(config_path));
    r.push(with_toml_str(config_path));
    r.push(with_toml_str(in_dir.as_str()));
    assert(string_seqs(r@) =~= config_candidates(exe_dir@, config_path@));
    r
}

fn contains_path(list: &Vec<String>, p: &str) -> (r: bool)
    ensures
        r == string_seqs(list@).contains(p@),
{
    let mut i: usize = 0;
    while i < list.len()
        invariant
            i <= list.len(),
            forall|j: int| 0 <= j < i ==> list@[j]@ != p@,
        decreases list.len() - i,
    {
        if str_eq(list[i].as_str(), p) {
            assert(string_seqs(list@)[i as int] == p@);
            return true;
        }
        i = i + 1;
    }
    assert forall|j: int| 0 <= j < string_seqs(list@).len() implies string_seqs(list@)[j] != p@ by {
        assert(string_seqs(list@)[j] == list@[j]@);
    }
    false
}

/// Resolves a configuration name to a path, given the candidate paths that
/// exist on disk (see [`resolved_config_path`]).
pub fn resolve_config_path(exe_dir: &str, config_path: &str, existing: &Vec<String>) -> (r: String)
    ensures
        r@ == resolved_config_path(exe_dir@, config_path@, string_seqs(existing@)),
{
    let candidates = config_path_candidates(exe_dir, config_path);
    assert(string_seqs(candidates@).len() == 3);
    assert(candidates@.len() == 3);
    assert(string_seqs(candidates@)[0] == candidates@[0]@);
    assert(string_seqs(candidates@)[1] == candidates@[1]@);
    assert(string_seqs(candidates@)[2] == candidates@[2]@);
    if contains_path(existing, candidates[0].as_str()) {
        owned(candidates[0].as_str())
    } else if contains_path(existing, candidates[1].as_str()) {
        owned(candidates[1].as_str())
    } else if contains_path(existing, candidates[2].as_str()) {
        owned(candidates[2].as_str())
    } else {
        owned(config_path)
    }
}

/// Why a configuration cannot be used.
#[derive(Debug)]
pub enum ConfigCheckError {
    /// The configuration file could not be read or parsed.
    FileUnreadable { message: String },
    /// No input directory is configured.
    NoInputDirs,
    /// The output directory lies inside an input directory.
    OutputInsideInput { output_dir: String, input_dir: String },
}

/// Builds the configuration of a run. Without `--config` it is the flags
/// alone and no file path. With `--config`, `file` holds the resolved path
/// of the configuration file and what reading and parsing it gave: a file
/// that could not be read is refused with its message, otherwise the
/// result is the file's configuration with the flags applied, and that
/// path. Either way a configuration without input directories is refused.
pub fn load_config(cli: &Cli, file: Option<(String, Result<Config, String>)>) -> (r: Result<
    (Config, Option<String>),
    ConfigCheckError,
>)
    requires
        cli_in_range(*cli),
        cli.config is Some ==> file is Some,
    ensures
        cli.config is None ==> match r {
            Ok((c, p)) => c@ == cli_only_config(*cli) && p is None && c@.input_dirs.len() > 0,
            Err(e) => e is NoInputDirs && cli_only_config(*cli).input_dirs.len() == 0,
        },
        cli.config is Some ==> match file {
            Some((path, Err(m))) => r matches Err(ConfigCheckError::FileUnreadable { message }) && message@ == m@,
            Some((path, Ok(f))) => match r {
                Ok((c, p)) => c@ == with_overrides(*cli, f@) && opt_chars(p) == Some(path@) && c@.input_dirs.len() > 0,
                Err(e) => e is NoInputDirs && with_overrides(*cli, f@).input_dirs.len() == 0,
            },
            None => false,
        },
{
    let (config, path) = match &cli.config {
        None => (cli.to_config(), None),
        Some(_) => match file {
            Some((path, Ok(fc))) => (cli.merge_with_config(fc), Some(path)),
            Some((_, Err(message))) => return Err(ConfigCheckError::FileUnreadable { message }),
            None => {
                assert(false);
                (cli.to_config(), None)
            },
        },
    };
    if config.input_dirs.len() == 0 {
        assert(string_seqs(config.input_dirs@).len() == 0);
        return Err(ConfigCheckError::NoInputDirs);
    }
    Ok((config, path))
}

/// Refuses a configuration whose output directory lies inside one of its
/// input directories, naming the first such input directory.
pub fn validate_config(config: &Config) -> (r: Result<(), ConfigCheckError>)
    ensures
        r is Ok <==> forall|i: int| 0 <= i < config@.input_dirs.len() ==> !path_starts_with(config@.output_dir, #[trigger] config@.input_dirs[i]),
        r matches Err(ConfigCheckError::OutputInsideInput { output_dir, input_dir }) ==>
            output_dir@ == config@.output_dir
            && exists|i: int| 0 <= i < config@.input_dirs.len() && input_dir@ == config@.input_dirs[i]
                && path_starts_with(config@.output_dir, config@.input_dirs[i])
                && forall|j: int| 0 <= j < i ==> !path_starts_with(config@.output_dir, #[trigger] config@.input_dirs[j]),
        r matches Err(e) ==> e is OutputInsideInput,
{
    let mut i: usize = 0;
    while i < config.input_dirs.len()
        invariant
            i <= config.input_dirs.len(),
            forall|j: int| 0 <= j < i ==> !path_starts_with(config@.output_dir, #[trigger] config@.input_dirs[j]),
        decreases config.input_dirs.len() - i,
    {
        assert(config@.input_dirs[i as int] == config.input_dirs@[i as int]@);
        if path_starts_with_str(config.output_dir.as_str(), config.input_dirs[i].as_str()) {
            return Err(ConfigCheckError::OutputInsideInput {
                output_dir: owned(config.output_dir.as_str()),
                input_dir: owned(config.input_dirs[i].as_str()),
            });
        }
        i = i + 1;
    }
    Ok(())
}

// ---------------------------------------------------------------------------
// Progress display
// ---------------------------------------------------------------------------

/// Progress is shown when verbose or when standard error is a terminal.
pub fn should_show_progress(verbose: bool, stderr_is_tty: bool) -> (r: bool)
    ensures
        r == (verbose || stderr_is_tty),
{
    verbose || stderr_is_tty
}

/// Completed percentage, capped at 100; 0 when the total is 0 or the
/// count times 100 does not fit in a `usize`.
pub open spec fn progress_percent(processed: usize, total: usize) -> nat {
    if processed * 100 > usize::MAX || total == 0 {
        0
    } else if (processed * 100) / (total as int) > 100 {
        100
    } else {
        ((processed * 100) / (total as int)) as nat
    }
}

/// The progress line `\r P% (processed/total)`.
pub open spec fn progress_line(processed: usize, total: usize) -> Seq<char> {
    "\r "@ + decimal(progress_percent(processed, total)) + "% ("@ + decimal(processed as nat)
        + "/"@ + decimal(total as nat) + ")"@
}

/// The displayed percentage never exceeds 100.
pub proof fn lemma_progress_percent_at_most_100(processed: usize, total: usize)
    ensures
        progress_percent(processed, total) <= 100,
{
}

/// The one-line progress display.
pub fn format_progress(processed: usize, total: usize) -> (r: String)
    ensures
        r@ == progress_line(processed, total),
{
    let percent: usize = match processed.checked_mul(100) {
        Some(n) => {
            if total == 0 {
                0
            } else {
                let p = n / total;
                if p > 100 {
                    100
                } else {
                    p
                }
            }
        },
        None => 0,
    };
    let mut v: Vec<char> = Vec::new();
    v.push('\r');
    v.push(' ');
    push_decimal(&mut v, percent as u64);
    v.push('%');
    v.push(' ');
    v.push('(');
    push_decimal(&mut v, processed as u64);
    v.push('/');
    push_decimal(&mut v, total as u64);
    v.push(')');
    proof {
        reveal_strlit("\r ");
        reveal_strlit("% (");
        reveal_strlit("/");
        reveal_strlit(")");
    }
    assert(v@ =~= progress_line(processed, total));
    string_of(&v)
}

// ---------------------------------------------------------------------------
// Log files and console colours
// ---------------------------------------------------------------------------

/// The log file of a command-line run started at `stamp`: under `Log`
/// next to the executable, in a folder named after the configuration
/// file's stem and named `<stem>_<stamp>.log` when a configuration was
/// given, else `CLIRun_<stamp>.log`.
pub open spec fn log_path_for(exe_dir: Seq<char>, config: Option<Seq<char>>, stamp: Seq<char>) -> Seq<char> {
    let log_dir = path_join(exe_dir, "Log"@);
    let name = match config {
        Some(p) => file_stem(p),
        None => None,
    };
    match name {
        Some(n) => path_join(path_join(log_dir, n), n + "_"@ + stamp + ".log"@),
        None => path_join(log_dir, "CLIRun_"@ + stamp + ".log"@),
    }
}

/// The log file of a command-line run (see [`log_path_for`]); `stamp` is
/// the start time as `YYYYMMDD_HHMMSS`.
pub fn get_log_path(exe_dir: &str, cli: &Cli, stamp: &str) -> (r: String)
    ensures
        r@ == log_path_for(exe_dir@, opt_chars(cli.config), stamp@),
{
    let log_dir = join_path(exe_dir, "Log");
    match cli.config_name() {
        Some(name) => {
            let dir = join_path(log_dir.as_str(), name.as_str());
            let mut file = crate::text::chars_of(name.as_str());
            crate::rename::push_str(&mut file, "_");
            crate::rename::push_str(&mut file, stamp);
            crate::rename::push_str(&mut file, ".log");
            let file_s = string_of(&file);
            join_path(dir.as_str(), file_s.as_str())
        },
        None => {
            let mut file = crate::text::chars_of("CLIRun_");
            crate::rename::push_str(&mut file, stamp);
            crate::rename::push_str(&mut file, ".log");
            let file_s = string_of(&file);
            join_path(log_dir.as_str(), file_s.as_str())
        },
    }
}

/// The log file of an interactive session started at `stamp`:
/// `Log/Interactive_<stamp>.log` next to the executable.
pub fn interactive_log_path(exe_dir: &str, stamp: &str) -> (r: String)
    ensures
        r@ == path_join(path_join(exe_dir@, "Log"@), "Interactive_"@ + stamp@ + ".log"@),
{
    let log_dir = join_path(exe_dir, "Log");
    let mut file = crate::text::chars_of("Interactive_");
    crate::rename::push_str(&mut file, stamp);
    crate::rename::push_str(&mut file, ".log");
    let file_s = string_of(&file);
    join_path(log_dir.as_str(), file_s.as_str())
}

/// Colours of the console output.
#[derive(Clone, Copy, Debug, PartialEq, Eq, Structural)]
pub enum ThemeColor {
    Green,
    Yellow,
    Red,
    DarkGrey,
    Cyan,
}

/// The colour scheme of the console output.
pub struct CliTheme;

impl CliTheme {
    /// Success: green.
    pub const SUCCESS: ThemeColor = ThemeColor::Green;
    /// Warning: yellow.
    pub const WARNING: ThemeColor = ThemeColor::Yellow;
    /// Error: red.
    pub const ERROR: ThemeColor = ThemeColor::Red;
    /// Hint: dark grey.
    pub const HINT: ThemeColor = ThemeColor::DarkGrey;
    /// Accent: cyan.
    pub const ACCENT: ThemeColor = ThemeColor::Cyan;
}

} // verus!
