//! Configuration wizard state and its transition function.
//!
//! The transition function performs no I/O: every side effect is returned
//! as an [`Effect`] for the caller to carry out.

use vstd::prelude::*;
use crate::config::{
    default_config, ClassificationRule, Config, ConfigView, EnumOption, FileOperation, MonthFormat,
    ProcessingMode,
};
use crate::path::{file_stem, file_stem_str};
use crate::text::{
    chars_of, contains_char, is_white_space, join, join_chars, lemma_split_on_concat, opt_chars, owned, split_chars,
    split_on, string_of, string_seqs, trim, trim_chars, trim_end, trim_start,
};
use crate::tui::input::{InputState, InputView};

verus! {

// ---------------------------------------------------------------------------
// Selections
// ---------------------------------------------------------------------------

/// The option after `x`, wrapping around.
pub open spec fn next_option<E: EnumOption>(x: E) -> E {
    E::at_index((x.index_of() + 1) % E::count_spec())
}

/// The option before `x`, wrapping around.
pub open spec fn prev_option<E: EnumOption>(x: E) -> E {
    if x.index_of() == 0 {
        E::at_index((E::count_spec() - 1) as nat)
    } else {
        E::at_index((x.index_of() - 1) as nat)
    }
}

/// Selection of one variant of an option enum.
#[derive(Clone, Copy, Debug)]
pub struct EnumSelection<E: EnumOption> {
    selected: E,
}

impl<E: EnumOption> View for EnumSelection<E> {
    type V = E;

    closed spec fn view(&self) -> E {
        self.selected
    }
}

impl<E: EnumOption> EnumSelection<E> {
    /// A selection of the default variant.
    pub fn new() -> (r: Self)
        ensures
            r@ == E::default_spec(),
    {
        EnumSelection { selected: E::default_option() }
    }

    /// A selection of `selected`.
    pub fn with_selected(selected: E) -> (r: Self)
        ensures
            r@ == selected,
    {
        EnumSelection { selected }
    }

    /// The selected variant.
    pub fn selected(&self) -> (r: E)
        ensures
            r == self@,
    {
        self.selected
    }

    /// Position of the selected variant.
    pub fn index(&self) -> (r: usize)
        ensures
            r as nat == self@.index_of(),
    {
        self.selected.to_index()
    }

    /// Selects `value`.
    pub fn select(&mut self, value: E)
        ensures
            final(self)@ == value,
    {
        self.selected = value;
    }

    /// Selects the variant at `index` (the default one when out of range).
    pub fn select_by_index(&mut self, index: usize)
        ensures
            final(self)@ == E::at_index(index as nat),
    {
        self.selected = E::from_index(index);
    }

    /// Number of variants.
    pub fn count(&self) -> (r: usize)
        ensures
            r as nat == E::count_spec(),
    {
        E::variant_count()
    }

    /// Selects the next variant, wrapping around.
    pub fn next(&mut self)
        ensures
            final(self)@ == next_option(old(self)@),
    {
        proof {
            E::lemma_index_round_trip(self.selected);
        }
        let count = E::variant_count();
        let idx = self.selected.to_index();
        let new_index = (idx + 1) % count;
        self.selected = E::from_index(new_index);
    }

    /// Selects the previous variant, wrapping around.
    pub fn prev(&mut self)
        ensures
            final(self)@ == prev_option(old(self)@),
    {
        proof {
            E::lemma_index_round_trip(self.selected);
        }
        let count = E::variant_count();
        let idx = self.selected.to_index();
        let new_index = if idx == 0 {
            count - 1
        } else {
            idx - 1
        };
        self.selected = E::from_index(new_index);
    }
}

impl<E: EnumOption> Default for EnumSelection<E> {
    fn default() -> (r: Self)
        ensures
            r@ == E::default_spec(),
    {
        EnumSelection::new()
    }
}

/// Stepping forward then back through the options returns to the start.
pub proof fn lemma_next_then_prev<E: EnumOption>(x: E)
    ensures
        prev_option(next_option(x)) == x,
{
    E::lemma_index_round_trip(x);
    let c = E::count_spec();
    let i = (x.index_of() + 1) % c;
    if x.index_of() + 1 < c {
        vstd::arithmetic::div_mod::lemma_small_mod((x.index_of() + 1) as nat, c);
        assert(i == x.index_of() + 1);
    } else {
        vstd::arithmetic::div_mod::lemma_mod_self_0(c as int);
        assert(i == 0);
    }
    E::lemma_at_index(i);
}

/// Stepping back then forward through the options returns to the start.
pub proof fn lemma_prev_then_next<E: EnumOption>(x: E)
    ensures
        next_option(prev_option(x)) == x,
{
    E::lemma_index_round_trip(x);
    E::lemma_at_index(0);
    let c = E::count_spec();
    if x.index_of() == 0 {
        E::lemma_at_index((c - 1) as nat);
        assert((((c - 1) as nat) + 1) % c == 0) by (nonlinear_arith)
            requires
                c > 0,
        ;
    } else {
        E::lemma_at_index((x.index_of() - 1) as nat);
        vstd::arithmetic::div_mod::lemma_small_mod(x.index_of(), c);
        assert(((x.index_of() - 1) as nat + 1) % c == x.index_of());
    }
}

/// `x` stepped forward `n` times.
pub open spec fn next_n<E: EnumOption>(x: E, n: nat) -> E
    decreases n,
{
    if n == 0 {
        x
    } else {
        next_option(next_n(x, (n - 1) as nat))
    }
}

proof fn lemma_next_n_index<E: EnumOption>(x: E, n: nat)
    ensures
        next_n(x, n).index_of() == (x.index_of() + n) % E::count_spec(),
    decreases n,
{
    E::lemma_index_round_trip(x);
    let c = E::count_spec();
    E::lemma_at_index(0);
    if n == 0 {
        vstd::arithmetic::div_mod::lemma_small_mod(x.index_of(), c);
    } else {
        lemma_next_n_index(x, (n - 1) as nat);
        let y = next_n(x, (n - 1) as nat);
        let a = x.index_of() + n - 1;
        vstd::arithmetic::div_mod::lemma_add_mod_noop_right(1, a, c as int);
        assert((1 + a) % (c as int) == ((x.index_of() + n) as int) % (c as int));
        assert(y.index_of() + 1 == 1 + (a as int) % (c as int));
        let i = ((y.index_of() + 1) % c) as nat;
        assert(i < c) by {
            vstd::arithmetic::div_mod::lemma_mod_bound((y.index_of() + 1) as int, c as int);
        }
        E::lemma_at_index(i);
    }
}

/// Stepping forward through all the options, once each, returns to the
/// option started from.
pub proof fn lemma_full_cycle_returns<E: EnumOption>(x: E)
    ensures
        next_n(x, E::count_spec()) == x,
{
    let c = E::count_spec();
    E::lemma_index_round_trip(x);
    lemma_next_n_index(x, c);
    let y = next_n(x, c);
    vstd::arithmetic::div_mod::lemma_mod_add_multiples_vanish(x.index_of() as int, c as int);
    vstd::arithmetic::div_mod::lemma_small_mod(x.index_of(), c);
    assert(y.index_of() == x.index_of());
    E::lemma_index_round_trip(y);
}

/// A yes/no selection.
#[derive(Clone, Copy, Debug)]
pub struct BoolSelection(bool);

impl View for BoolSelection {
    type V = bool;

    closed spec fn view(&self) -> bool {
        self.0
    }
}

impl BoolSelection {
    /// A selection holding `value`.
    pub fn new(value: bool) -> (r: Self)
        ensures
            r@ == value,
    {
        BoolSelection(value)
    }

    /// The selected value.
    pub fn value(&self) -> (r: bool)
        ensures
            r == self@,
    {
        self.0
    }

    /// Flips the value.
    pub fn toggle(&mut self)
        ensures
            final(self)@ == !old(self)@,
    {
        self.0 = !self.0;
    }

    /// Number of options: two.
    pub fn count(&self) -> (r: usize)
        ensures
            r == 2,
    {
        2
    }

    /// Index of the value: `false` is 0, `true` is 1.
    pub fn index(&self) -> (r: usize)
        ensures
            r == (if self@ {
                1usize
            } else {
                0usize
            }),
    {
        if self.0 {
            1
        } else {
            0
        }
    }

    /// Selects `true` for index 1 and `false` for any other index.
    pub fn select_by_index(&mut self, index: usize)
        ensures
            final(self)@ == (index == 1),
    {
        self.0 = index == 1;
    }

    /// Next option (a toggle).
    pub fn next(&mut self)
        ensures
            final(self)@ == !old(self)@,
    {
        self.toggle();
    }

    /// Previous option (a toggle).
    pub fn prev(&mut self)
        ensures
            final(self)@ == !old(self)@,
    {
        self.toggle();
    }
}

impl Default for BoolSelection {
    fn default() -> (r: Self)
        ensures
            r@ == false,
    {
        BoolSelection(false)
    }
}

// ---------------------------------------------------------------------------
// Steps and fields
// ---------------------------------------------------------------------------

/// Wizard step.
#[derive(Clone, Copy, Debug, PartialEq, Eq, Structural)]
pub enum ConfigStep {
    ConfigSelect,
    ConfigForm,
    Summary,
    ConfirmRun,
}

impl ConfigStep {
    /// Title shown for the step.
    pub fn title(&self) -> (r: String)
        ensures
            r@ == step_title(*self),
    {
        match self {
            ConfigStep::ConfigSelect => owned("Available configurations"),
            ConfigStep::ConfigForm => owned("Configuration form"),
            ConfigStep::Summary => owned("Configuration summary"),
            ConfigStep::ConfirmRun => owned("Proceed now?"),
        }
    }

    /// Number of selectable options on the step.
    pub fn option_count(&self) -> (r: usize)
        ensures
            r == (match *self {
                ConfigStep::ConfigSelect => 1usize,
                ConfigStep::ConfirmRun => 2usize,
                _ => 0usize,
            }),
    {
        match self {
            ConfigStep::ConfigSelect => 1,
            ConfigStep::ConfirmRun => 2,
            _ => 0,
        }
    }

    /// The options listed on the step: yes and no when confirming a run.
    pub fn options(&self) -> (r: Vec<String>)
        ensures
            string_seqs(r@) == (if *self == ConfigStep::ConfirmRun {
                seq!["Yes"@, "No"@]
            } else {
                Seq::<Seq<char>>::empty()
            }),
    {
        let mut r: Vec<String> = Vec::new();
        if *self == ConfigStep::ConfirmRun {
            r.push(owned("Yes"));
            r.push(owned("No"));
        }
        assert(string_seqs(r@) =~= (if *self == ConfigStep::ConfirmRun {
            seq!["Yes"@, "No"@]
        } else {
            Seq::<Seq<char>>::empty()
        }));
        r
    }

    /// The step that follows this one.
    pub fn next(&self, _classification: ClassificationRule) -> (r: ConfigStep)
        ensures
            r == (match *self {
                ConfigStep::ConfigSelect => ConfigStep::ConfigForm,
                ConfigStep::ConfigForm => ConfigStep::Summary,
                _ => ConfigStep::ConfirmRun,
            }),
    {
        match self {
            ConfigStep::ConfigSelect => ConfigStep::ConfigForm,
            ConfigStep::ConfigForm => ConfigStep::Summary,
            ConfigStep::Summary => ConfigStep::ConfirmRun,
            ConfigStep::ConfirmRun => ConfigStep::ConfirmRun,
        }
    }
}

impl Default for ConfigStep {
    fn default() -> (r: Self)
        ensures
            r == ConfigStep::ConfigSelect,
    {
        ConfigStep::ConfigSelect
    }
}

/// Title of each step.
pub open spec fn step_title(s: ConfigStep) -> Seq<char> {
    match s {
        ConfigStep::ConfigSelect => "Available configurations"@,
        ConfigStep::ConfigForm => "Configuration form"@,
        ConfigStep::Summary => "Configuration summary"@,
        ConfigStep::ConfirmRun => "Proceed now?"@,
    }
}

/// Which of the three wizard flows is running.
#[derive(Clone, Copy, Debug, PartialEq, Eq, Structural)]
pub enum WizardFlow {
    /// Fill in a form, save it as a configuration, optionally run it.
    CreateConfig,
    /// Fill in a form and run it without saving.
    RunDirect,
    /// Pick a saved configuration, optionally modify it, then run it.
    RunFromConfig { need_modify_confirm: bool },
}

impl Default for WizardFlow {
    fn default() -> (r: Self)
        ensures
            r == WizardFlow::CreateConfig,
    {
        WizardFlow::CreateConfig
    }
}

/// A field of the configuration form.
#[derive(Clone, Copy, Debug, PartialEq, Eq, Structural)]
pub enum FormField {
    ConfigName,
    InputDirs,
    OutputDir,
    ExcludeDirs,
    ProcessingMode,
    Classification,
    MonthFormat,
    ClassifyByType,
    FileOperation,
    Deduplication,
    DryRun,
    UnifyFilenames,
    PreserveStandardNames,
}

/// All form fields, in display order.
pub open spec fn all_fields() -> Seq<FormField> {
    seq![
        FormField::ConfigName,
        FormField::InputDirs,
        FormField::OutputDir,
        FormField::ExcludeDirs,
        FormField::ProcessingMode,
        FormField::Classification,
        FormField::MonthFormat,
        FormField::ClassifyByType,
        FormField::FileOperation,
        FormField::Deduplication,
        FormField::DryRun,
        FormField::UnifyFilenames,
        FormField::PreserveStandardNames,
    ]
}

/// Text-input fields (the others are option fields).
pub open spec fn is_input_field_spec(f: FormField) -> bool {
    ||| f == FormField::ConfigName
    ||| f == FormField::InputDirs
    ||| f == FormField::OutputDir
    ||| f == FormField::ExcludeDirs
}

/// Label of each field.
pub open spec fn field_label(f: FormField) -> Seq<char> {
    match f {
        FormField::ConfigName => "Config name"@,
        FormField::InputDirs => "Input directories"@,
        FormField::OutputDir => "Output directory"@,
        FormField::ExcludeDirs => "Exclude directories"@,
        FormField::ProcessingMode => "Processing mode"@,
        FormField::Classification => "Classification"@,
        FormField::MonthFormat => "Month format"@,
        FormField::ClassifyByType => "Classify by type"@,
        FormField::FileOperation => "File operation"@,
        FormField::Deduplication => "Deduplication"@,
        FormField::DryRun => "Dry run"@,
        FormField::UnifyFilenames => "Unify filenames"@,
        FormField::PreserveStandardNames => "Preserve standard names"@,
    }
}

/// Display text of a processing mode (its configuration-file spelling).
pub open spec fn processing_mode_text(m: ProcessingMode) -> Seq<char> {
    match m {
        ProcessingMode::Full => "full"@,
        ProcessingMode::Supplement => "supplement"@,
        ProcessingMode::Incremental => "incremental"@,
    }
}

/// Display text of a classification rule.
pub open spec fn classification_text(c: ClassificationRule) -> Seq<char> {
    match c {
        ClassificationRule::Unclassified => "none"@,
        ClassificationRule::Year => "year"@,
        ClassificationRule::YearMonth => "year-month"@,
    }
}

/// Display text of a month format.
pub open spec fn month_format_text(m: MonthFormat) -> Seq<char> {
    match m {
        MonthFormat::Nested => "nested"@,
        MonthFormat::Combined => "combined"@,
    }
}

/// Display text of a file operation.
pub open spec fn file_operation_text(o: FileOperation) -> Seq<char> {
    match o {
        FileOperation::Copy => "copy"@,
        FileOperation::Move => "move"@,
        FileOperation::Hardlink => "hardlink"@,
        FileOperation::Symlink => "symlink"@,
    }
}

/// Display text of a yes/no value.
pub open spec fn bool_text(b: bool) -> Seq<char> {
    if b {
        "yes"@
    } else {
        "no"@
    }
}

fn processing_mode_label(m: ProcessingMode) -> (r: String)
    ensures
        r@ == processing_mode_text(m),
{
    match m {
        ProcessingMode::Full => owned("full"),
        ProcessingMode::Supplement => owned("supplement"),
        ProcessingMode::Incremental => owned("incremental"),
    }
}

fn classification_label(c: ClassificationRule) -> (r: String)
    ensures
        r@ == classification_text(c),
{
    match c {
        ClassificationRule::Unclassified => owned("none"),
        ClassificationRule::Year => owned("year"),
        ClassificationRule::YearMonth => owned("year-month"),
    }
}

fn month_format_label(m: MonthFormat) -> (r: String)
    ensures
        r@ == month_format_text(m),
{
    match m {
        MonthFormat::Nested => owned("nested"),
        MonthFormat::Combined => owned("combined"),
    }
}

fn file_operation_label(o: FileOperation) -> (r: String)
    ensures
        r@ == file_operation_text(o),
{
    match o {
        FileOperation::Copy => owned("copy"),
        FileOperation::Move => owned("move"),
        FileOperation::Hardlink => owned("hardlink"),
        FileOperation::Symlink => owned("symlink"),
    }
}

fn bool_label(b: bool) -> (r: String)
    ensures
        r@ == bool_text(b),
{
    if b {
        owned("yes")
    } else {
        owned("no")
    }
}

impl FormField {
    /// Number of fields.
    pub fn count() -> (r: usize)
        ensures
            r as nat == all_fields().len(),
    {
        13
    }

    /// All fields, in display order.
    pub fn all() -> (r: Vec<FormField>)
        ensures
            r@ == all_fields(),
    {
        let r = vec![
            FormField::ConfigName,
            FormField::InputDirs,
            FormField::OutputDir,
            FormField::ExcludeDirs,
            FormField::ProcessingMode,
            FormField::Classification,
            FormField::MonthFormat,
            FormField::ClassifyByType,
            FormField::FileOperation,
            FormField::Deduplication,
            FormField::DryRun,
            FormField::UnifyFilenames,
            FormField::PreserveStandardNames,
        ];
        assert(r@ =~= all_fields());
        r
    }

    /// Whether the field takes typed text.
    pub fn is_input_field(&self) -> (r: bool)
        ensures
            r == is_input_field_spec(*self),
    {
        match self {
            FormField::ConfigName | FormField::InputDirs | FormField::OutputDir
            | FormField::ExcludeDirs => true,
            _ => false,
        }
    }

    /// Whether the field cycles through options.
    pub fn is_option_field(&self) -> (r: bool)
        ensures
            r == !is_input_field_spec(*self),
    {
        !self.is_input_field()
    }

    /// Label of the field.
    pub fn label(&self) -> (r: String)
        ensures
            r@ == field_label(*self),
    {
        match self {
            FormField::ConfigName => owned("Config name"),
            FormField::InputDirs => owned("Input directories"),
            FormField::OutputDir => owned("Output directory"),
            FormField::ExcludeDirs => owned("Exclude directories"),
            FormField::ProcessingMode => owned("Processing mode"),
            FormField::Classification => owned("Classification"),
            FormField::MonthFormat => owned("Month format"),
            FormField::ClassifyByType => owned("Classify by type"),
            FormField::FileOperation => owned("File operation"),
            FormField::Deduplication => owned("Deduplication"),
            FormField::DryRun => owned("Dry run"),
            FormField::UnifyFilenames => owned("Unify filenames"),
            FormField::PreserveStandardNames => owned("Preserve standard names"),
        }
    }

    /// The value the field shows for `state`.
    pub fn get_value_string(&self, state: &ConfigWizardState) -> (r: String)
        ensures
            r@ == state@.value_text(*self),
    {
        match self {
            FormField::ConfigName => owned(state.config_name.as_str()),
            FormField::InputDirs => owned(state.input_dirs.as_str()),
            FormField::OutputDir => owned(state.output_dir.as_str()),
            FormField::ExcludeDirs => owned(state.exclude_dirs.as_str()),
            FormField::ProcessingMode => processing_mode_label(state.processing_mode.selected()),
            FormField::Classification => classification_label(state.classification.selected()),
            FormField::MonthFormat => month_format_label(state.month_format.selected()),
            FormField::ClassifyByType => bool_label(state.classify_by_type.value()),
            FormField::FileOperation => file_operation_label(state.operation.selected()),
            FormField::Deduplication => bool_label(state.deduplicate.value()),
            FormField::DryRun => bool_label(state.dry_run.value()),
            FormField::UnifyFilenames => bool_label(state.unify_filenames.value()),
            FormField::PreserveStandardNames => bool_label(state.preserve_standard_names.value()),
        }
    }

    /// Whether the field is shown for `state`.
    pub fn is_visible(&self, state: &ConfigWizardState) -> (r: bool)
        ensures
            r == state@.field_visible(*self),
    {
        match self {
            FormField::ConfigName => !state.is_run_direct_flow(),
            FormField::MonthFormat => state.classification.selected()
                == ClassificationRule::YearMonth,
            FormField::PreserveStandardNames => state.unify_filenames.value(),
            _ => true,
        }
    }
}

// ---------------------------------------------------------------------------
// Form state
// ---------------------------------------------------------------------------

/// Number of form rows visible at once.
pub const FORM_VISIBLE_ROWS: usize = 8usize;

/// The mathematical content of a [`ConfigFormState`].
pub struct FormView {
    pub selected_field: usize,
    pub in_input_mode: bool,
    pub input: InputView,
    pub scroll_offset: usize,
}

impl FormView {
    /// The scroll offset adjusted so that the selected row is visible.
    pub open spec fn scrolled(self) -> FormView {
        if self.selected_field >= self.scroll_offset + FORM_VISIBLE_ROWS {
            FormView {
                scroll_offset: (self.selected_field - (FORM_VISIBLE_ROWS - 1)) as usize,
                ..self
            }
        } else if self.selected_field < self.scroll_offset {
            FormView { scroll_offset: self.selected_field, ..self }
        } else {
            self
        }
    }

    /// Selection moved to the next of `count` rows, wrapping around.
    pub open spec fn next_row(self, count: usize) -> FormView {
        FormView { selected_field: ((self.selected_field + 1) % (count as int)) as usize, ..self }.scrolled()
    }

    /// Selection moved to the previous of `count` rows, wrapping around.
    pub open spec fn prev_row(self, count: usize) -> FormView {
        FormView {
            selected_field: if self.selected_field == 0 {
                if count == 0 {
                    0usize
                } else {
                    (count - 1) as usize
                }
            } else {
                (self.selected_field - 1) as usize
            },
            ..self
        }.scrolled()
    }

    /// Input mode left and the input emptied.
    pub open spec fn exited(self) -> FormView {
        FormView {
            in_input_mode: false,
            input: InputView { text: Seq::<char>::empty(), cursor: 0 },
            ..self
        }
    }
}

/// The initial form: first row selected, not editing.
pub open spec fn default_form() -> FormView {
    FormView {
        selected_field: 0,
        in_input_mode: false,
        input: InputView { text: Seq::<char>::empty(), cursor: 0 },
        scroll_offset: 0,
    }
}

/// Form selection, editing and scroll state.
#[derive(Debug)]
pub struct ConfigFormState {
    /// Index of the selected row among the visible fields; the row after the
    /// last visible field is the "next" button.
    pub selected_field: usize,
    pub in_input_mode: bool,
    pub input: InputState,
    pub scroll_offset: usize,
}

impl View for ConfigFormState {
    type V = FormView;

    open spec fn view(&self) -> FormView {
        FormView {
            selected_field: self.selected_field,
            in_input_mode: self.in_input_mode,
            input: self.input@,
            scroll_offset: self.scroll_offset,
        }
    }
}

impl ConfigFormState {
    /// A fresh form state.
    pub fn new() -> (r: Self)
        ensures
            r@ == default_form(),
    {
        ConfigFormState {
            selected_field: 0,
            in_input_mode: false,
            input: InputState::new(),
            scroll_offset: 0,
        }
    }

    /// The field at the selected position in the full field list (the first
    /// field when the position is past the end).
    pub fn selected(&self) -> (r: FormField)
        ensures
            r == (if self.selected_field < all_fields().len() {
                all_fields()[self.selected_field as int]
            } else {
                FormField::ConfigName
            }),
    {
        let all = FormField::all();
        if self.selected_field < all.len() {
            all[self.selected_field]
        } else {
            FormField::ConfigName
        }
    }

    /// Selects the next of `visible_count` rows, wrapping around.
    pub fn next_field(&mut self, visible_count: usize)
        requires
            visible_count > 0,
        ensures
            final(self)@ == old(self)@.next_row(visible_count),
    {
        let s = self.selected_field % visible_count;
        proof {
            let n = visible_count as int;
            let a = self.selected_field as int;
            vstd::arithmetic::div_mod::lemma_add_mod_noop(a, 1, n);
            if n > 1 {
                vstd::arithmetic::div_mod::lemma_small_mod(1, n as nat);
            } else {
                assert((s + 1) % 1 == 0);
                assert((a + 1) % 1 == 0);
            }
        }
        self.selected_field = (s + 1) % visible_count;
        self.auto_scroll();
    }

    /// Selects the previous of `visible_count` rows, wrapping around.
    pub fn prev_field(&mut self, visible_count: usize)
        ensures
            final(self)@ == old(self)@.prev_row(visible_count),
    {
        self.selected_field = if self.selected_field == 0 {
            if visible_count == 0 {
                0
            } else {
                visible_count - 1
            }
        } else {
            self.selected_field - 1
        };
        self.auto_scroll();
    }

    fn auto_scroll(&mut self)
        ensures
            final(self)@ == old(self)@.scrolled(),
    {
        if self.selected_field >= self.scroll_offset && self.selected_field - self.scroll_offset
            >= FORM_VISIBLE_ROWS {
            self.scroll_offset = self.selected_field - (FORM_VISIBLE_ROWS - 1);
        } else if self.selected_field < self.scroll_offset {
            self.scroll_offset = self.selected_field;
        }
    }

    /// Starts editing `value`, with the cursor at its end.
    pub fn enter_input_mode(&mut self, value: &str)
        ensures
            final(self)@ == (FormView {
                in_input_mode: true,
                input: InputView { text: value@, cursor: value@.len() },
                ..old(self)@
            }),
    {
        self.in_input_mode = true;
        self.input = InputState::with_value(value);
    }

    /// Stops editing and empties the input.
    pub fn exit_input_mode(&mut self)
        ensures
            final(self)@ == old(self)@.exited(),
    {
        self.in_input_mode = false;
        self.input.clear();
    }

    /// The text being edited.
    pub fn input_value(&self) -> (r: String)
        ensures
            r@ == self@.input.text,
    {
        self.input.value()
    }

    /// The cursor of the text being edited.
    pub fn input_cursor(&self) -> (r: usize)
        ensures
            r as nat == self@.input.cursor,
    {
        self.input.cursor_position()
    }

    /// Empties the input.
    pub fn clear_input(&mut self)
        ensures
            final(self)@ == (FormView {
                input: InputView { text: Seq::<char>::empty(), cursor: 0 },
                ..old(self)@
            }),
    {
        self.input.clear();
    }

    /// Number of fields visible for `state`.
    pub fn visible_fields_count(&self, state: &ConfigWizardState) -> (r: usize)
        ensures
            r as nat == state@.visible_fields().len(),
    {
        state.get_visible_fields().len()
    }
}

impl Default for ConfigFormState {
    fn default() -> (r: Self)
        ensures
            r@ == default_form(),
    {
        ConfigFormState::new()
    }
}

// ---------------------------------------------------------------------------
// Wizard state
// ---------------------------------------------------------------------------

/// A validation failure of the form.
#[derive(Clone, Copy, Debug, PartialEq, Eq, Structural)]
pub enum FormError {
    ConfigNameEmpty,
    ConfigNameInvalidChars,
    NoInputDirs,
    OutputDirEmpty,
}

/// Message of each validation failure.
pub open spec fn form_error_text(e: FormError) -> Seq<char> {
    match e {
        FormError::ConfigNameEmpty => "Configuration name cannot be empty"@,
        FormError::ConfigNameInvalidChars => "Configuration name cannot contain '/', '\\' or '.'"@,
        FormError::NoInputDirs => "No input directories specified"@,
        FormError::OutputDirEmpty => "Output directory cannot be empty"@,
    }
}

impl FormError {
    /// Message of the failure.
    pub fn message(&self) -> (r: String)
        ensures
            r@ == form_error_text(*self),
    {
        match self {
            FormError::ConfigNameEmpty => owned("Configuration name cannot be empty"),
            FormError::ConfigNameInvalidChars => owned(
                "Configuration name cannot contain '/', '\\' or '.'",
            ),
            FormError::NoInputDirs => owned("No input directories specified"),
            FormError::OutputDirEmpty => owned("Output directory cannot be empty"),
        }
    }
}

/// The directories of a `;`-separated list: each piece trimmed, empty
/// pieces dropped.
pub open spec fn dir_list(s: Seq<char>) -> Seq<Seq<char>> {
    nonempty_trimmed(split_on(s, ';'))
}

/// The trimmed pieces that are not empty, in order.
pub open spec fn nonempty_trimmed(pieces: Seq<Seq<char>>) -> Seq<Seq<char>>
    decreases pieces.len(),
{
    if pieces.len() == 0 {
        Seq::<Seq<char>>::empty()
    } else {
        let r = nonempty_trimmed(pieces.drop_last());
        let t = trim(pieces.last());
        if t.len() > 0 {
            r.push(t)
        } else {
            r
        }
    }
}

/// The mathematical content of a [`ConfigWizardState`].
pub struct WizardView {
    pub step: ConfigStep,
    pub flow: WizardFlow,
    pub input_dirs: Seq<char>,
    pub output_dir: Seq<char>,
    pub exclude_dirs: Seq<char>,
    pub processing_mode: ProcessingMode,
    pub classification: ClassificationRule,
    pub month_format: MonthFormat,
    pub operation: FileOperation,
    pub deduplicate: bool,
    pub dry_run: bool,
    pub classify_by_type: bool,
    pub unify_filenames: bool,
    pub preserve_standard_names: bool,
    pub config_name: Seq<char>,
    pub available_configs: Seq<Seq<char>>,
    pub selected_config: Option<usize>,
    pub error_message: Option<Seq<char>>,
    pub config_path: Option<Seq<char>>,
    pub form: FormView,
}

/// The initial wizard.
pub open spec fn default_wizard() -> WizardView {
    WizardView {
        step: ConfigStep::ConfigSelect,
        flow: WizardFlow::CreateConfig,
        input_dirs: Seq::<char>::empty(),
        output_dir: Seq::<char>::empty(),
        exclude_dirs: Seq::<char>::empty(),
        processing_mode: ProcessingMode::Incremental,
        classification: ClassificationRule::Unclassified,
        month_format: MonthFormat::Nested,
        operation: FileOperation::Copy,
        deduplicate: false,
        dry_run: false,
        classify_by_type: false,
        unify_filenames: false,
        preserve_standard_names: false,
        config_name: Seq::<char>::empty(),
        available_configs: Seq::<Seq<char>>::empty(),
        selected_config: None,
        error_message: None,
        config_path: None,
        form: default_form(),
    }
}

pub proof fn lemma_visible_among_len(w: WizardView, fs: Seq<FormField>)
    ensures
        visible_among(w, fs).len() <= fs.len(),
    decreases fs.len(),
{
    if fs.len() > 0 {
        lemma_visible_among_len(w, fs.drop_last());
    }
}

/// The fields among `fs` that are visible in `w`, in order.
pub open spec fn visible_among(w: WizardView, fs: Seq<FormField>) -> Seq<FormField>
    decreases fs.len(),
{
    if fs.len() == 0 {
        Seq::<FormField>::empty()
    } else {
        let r = visible_among(w, fs.drop_last());
        if w.field_visible(fs.last()) {
            r.push(fs.last())
        } else {
            r
        }
    }
}

impl WizardView {
    pub open spec fn is_create_config(self) -> bool {
        self.flow == WizardFlow::CreateConfig
    }

    pub open spec fn is_run_direct(self) -> bool {
        self.flow == WizardFlow::RunDirect
    }

    pub open spec fn is_select_config(self) -> bool {
        self.flow is RunFromConfig
    }

    pub open spec fn needs_modify_confirm(self) -> bool {
        self.flow == WizardFlow::RunFromConfig { need_modify_confirm: true }
    }

    /// Whether a field is shown: the name only outside the run-direct flow,
    /// the month format only for year-month classification, and the
    /// preserve option only while filename unification is on.
    pub open spec fn field_visible(self, f: FormField) -> bool {
        match f {
            FormField::ConfigName => !self.is_run_direct(),
            FormField::MonthFormat => self.classification == ClassificationRule::YearMonth,
            FormField::PreserveStandardNames => self.unify_filenames,
            _ => true,
        }
    }

    pub open spec fn visible_fields(self) -> Seq<FormField> {
        visible_among(self, all_fields())
    }

    pub open spec fn is_next_selected(self) -> bool {
        self.form.selected_field >= self.visible_fields().len()
    }

    pub open spec fn selected_form_field(self) -> Option<FormField> {
        if self.form.selected_field < self.visible_fields().len() {
            Some(self.visible_fields()[self.form.selected_field as int])
        } else {
            None
        }
    }

    pub open spec fn value_text(self, f: FormField) -> Seq<char> {
        match f {
            FormField::ConfigName => self.config_name,
            FormField::InputDirs => self.input_dirs,
            FormField::OutputDir => self.output_dir,
            FormField::ExcludeDirs => self.exclude_dirs,
            FormField::ProcessingMode => processing_mode_text(self.processing_mode),
            FormField::Classification => classification_text(self.classification),
            FormField::MonthFormat => month_format_text(self.month_format),
            FormField::ClassifyByType => bool_text(self.classify_by_type),
            FormField::FileOperation => file_operation_text(self.operation),
            FormField::Deduplication => bool_text(self.deduplicate),
            FormField::DryRun => bool_text(self.dry_run),
            FormField::UnifyFilenames => bool_text(self.unify_filenames),
            FormField::PreserveStandardNames => bool_text(self.preserve_standard_names),
        }
    }

    pub open spec fn can_confirm_config_select(self) -> bool {
        if self.step == ConfigStep::ConfigSelect {
            self.available_configs.len() > 0
        } else {
            true
        }
    }

    pub open spec fn option_count(self) -> nat {
        match self.step {
            ConfigStep::ConfigSelect => if self.available_configs.len() > 0 {
                self.available_configs.len()
            } else {
                1
            },
            ConfigStep::ConfirmRun => 2,
            _ => 0,
        }
    }

    pub open spec fn selected_value(self) -> nat {
        match self.step {
            ConfigStep::ConfirmRun | ConfigStep::ConfigSelect => match self.selected_config {
                Some(i) => i as nat,
                None => 0,
            },
            _ => 0,
        }
    }

    pub open spec fn with_selected(self, index: usize) -> WizardView {
        match self.step {
            ConfigStep::ConfirmRun | ConfigStep::ConfigSelect => WizardView {
                selected_config: Some(index),
                ..self
            },
            _ => self,
        }
    }

    /// The selection clamped to the options of the step: 0 or 1 when
    /// confirming a run; a valid configuration index (or none when there is
    /// no configuration) when selecting a configuration.
    pub open spec fn ensured(self) -> WizardView {
        match self.step {
            ConfigStep::ConfirmRun => WizardView {
                selected_config: Some(
                    match self.selected_config {
                        Some(i) => if i <= 1 {
                            i
                        } else {
                            0usize
                        },
                        None => 0usize,
                    },
                ),
                ..self
            },
            ConfigStep::ConfigSelect => if self.available_configs.len() == 0 {
                WizardView { selected_config: None, ..self }
            } else {
                let max = (self.available_configs.len() - 1) as usize;
                let i = match self.selected_config {
                    Some(i) => i,
                    None => 0usize,
                };
                WizardView { selected_config: Some(if i < max { i } else { max }), ..self }
            },
            _ => self,
        }
    }

    pub open spec fn navigated_next(self) -> WizardView {
        match self.step {
            ConfigStep::ConfirmRun | ConfigStep::ConfigSelect => {
                let e = self.ensured();
                match e.selected_config {
                    Some(i) => WizardView {
                        selected_config: Some(((i + 1) % (e.option_count() as int)) as usize),
                        ..e
                    },
                    None => e,
                }
            },
            _ => self,
        }
    }

    pub open spec fn navigated_prev(self) -> WizardView {
        match self.step {
            ConfigStep::ConfirmRun | ConfigStep::ConfigSelect => {
                let e = self.ensured();
                match e.selected_config {
                    Some(i) => WizardView {
                        selected_config: Some(
                            if i == 0 {
                                (e.option_count() - 1) as usize
                            } else {
                                (i - 1) as usize
                            },
                        ),
                        ..e
                    },
                    None => e,
                }
            },
            _ => self,
        }
    }

    pub open spec fn form_next(self) -> WizardView {
        WizardView {
            form: self.form.next_row((self.visible_fields().len() + 1) as usize),
            ..self
        }
    }

    pub open spec fn form_prev(self) -> WizardView {
        WizardView {
            form: self.form.prev_row((self.visible_fields().len() + 1) as usize),
            ..self
        }
    }

    pub open spec fn toggled_next(self) -> WizardView {
        match self.selected_form_field() {
            Some(FormField::ProcessingMode) => WizardView {
                processing_mode: next_option(self.processing_mode),
                ..self
            },
            Some(FormField::Classification) => WizardView {
                classification: next_option(self.classification),
                ..self
            },
            Some(FormField::MonthFormat) => WizardView {
                month_format: next_option(self.month_format),
                ..self
            },
            Some(FormField::FileOperation) => WizardView {
                operation: next_option(self.operation),
                ..self
            },
            Some(FormField::Deduplication) => WizardView { deduplicate: !self.deduplicate, ..self },
            Some(FormField::DryRun) => WizardView { dry_run: !self.dry_run, ..self },
            Some(FormField::ClassifyByType) => WizardView {
                classify_by_type: !self.classify_by_type,
                ..self
            },
            Some(FormField::UnifyFilenames) => WizardView {
                unify_filenames: !self.unify_filenames,
                ..self
            },
            Some(FormField::PreserveStandardNames) => WizardView {
                preserve_standard_names: !self.preserve_standard_names,
                ..self
            },
            _ => self,
        }
    }

    pub open spec fn toggled_prev(self) -> WizardView {
        match self.selected_form_field() {
            Some(FormField::ProcessingMode) => WizardView {
                processing_mode: prev_option(self.processing_mode),
                ..self
            },
            Some(FormField::Classification) => WizardView {
                classification: prev_option(self.classification),
                ..self
            },
            Some(FormField::MonthFormat) => WizardView {
                month_format: prev_option(self.month_format),
                ..self
            },
            Some(FormField::FileOperation) => WizardView {
                operation: prev_option(self.operation),
                ..self
            },
            Some(FormField::Deduplication) => WizardView { deduplicate: !self.deduplicate, ..self },
            Some(FormField::DryRun) => WizardView { dry_run: !self.dry_run, ..self },
            Some(FormField::ClassifyByType) => WizardView {
                classify_by_type: !self.classify_by_type,
                ..self
            },
            Some(FormField::UnifyFilenames) => WizardView {
                unify_filenames: !self.unify_filenames,
                ..self
            },
            Some(FormField::PreserveStandardNames) => WizardView {
                preserve_standard_names: !self.preserve_standard_names,
                ..self
            },
            _ => self,
        }
    }

    pub open spec fn updated_field(self, value: Seq<char>) -> WizardView {
        match self.selected_form_field() {
            Some(FormField::ConfigName) => WizardView { config_name: value, ..self },
            Some(FormField::InputDirs) => WizardView { input_dirs: value, ..self },
            Some(FormField::OutputDir) => WizardView { output_dir: value, ..self },
            Some(FormField::ExcludeDirs) => WizardView { exclude_dirs: value, ..self },
            _ => self,
        }
    }

    pub open spec fn entered_input(self) -> WizardView {
        match self.selected_form_field() {
            Some(f) => if is_input_field_spec(f) {
                let v = self.value_text(f);
                WizardView {
                    form: FormView {
                        in_input_mode: true,
                        input: InputView { text: v, cursor: v.len() },
                        ..self.form
                    },
                    ..self
                }
            } else {
                self
            },
            None => self,
        }
    }

    pub open spec fn applied_input(self) -> WizardView {
        let w = self.updated_field(self.form.input.text);
        WizardView { form: w.form.exited(), ..w }
    }

    pub open spec fn cancelled_input(self) -> WizardView {
        WizardView { form: self.form.exited(), ..self }
    }

    pub open spec fn with_input(self, input: InputView) -> WizardView {
        WizardView { form: FormView { input, ..self.form }, ..self }
    }

    /// The wizard filled in from a configuration loaded from `path`: the
    /// directory lists joined with `; `, the options selected, and the
    /// name taken from the file's stem.
    pub open spec fn with_config(self, c: ConfigView, path: Seq<char>) -> WizardView {
        WizardView {
            input_dirs: join(c.input_dirs, "; "@),
            output_dir: c.output_dir,
            exclude_dirs: join(c.exclude_dirs, "; "@),
            processing_mode: c.processing_mode,
            classification: c.classification,
            month_format: c.month_format,
            operation: c.operation,
            deduplicate: c.deduplicate,
            dry_run: c.dry_run,
            classify_by_type: c.classify_by_type,
            unify_filenames: c.unify_filenames,
            preserve_standard_names: c.preserve_standard_names,
            config_name: match file_stem(path) {
                Some(s) => s,
                None => Seq::<char>::empty(),
            },
            ..self
        }
    }

    /// The configuration the form describes.
    pub open spec fn built_config(self) -> ConfigView {
        ConfigView {
            input_dirs: dir_list(self.input_dirs),
            output_dir: self.output_dir,
            exclude_dirs: dir_list(self.exclude_dirs),
            processing_mode: self.processing_mode,
            classification: self.classification,
            month_format: self.month_format,
            classify_by_type: self.classify_by_type,
            operation: self.operation,
            deduplicate: self.deduplicate,
            dry_run: self.dry_run,
            unify_filenames: self.unify_filenames,
            preserve_standard_names: self.preserve_standard_names,
            verbose: false,
            ..default_config()
        }
    }

    /// Validation failures of the form, in order.
    pub open spec fn form_errors(self) -> Seq<FormError> {
        let name: Seq<FormError> = if self.is_run_direct() {
            Seq::<FormError>::empty()
        } else if trim(self.config_name).len() == 0 {
            seq![FormError::ConfigNameEmpty]
        } else if self.config_name.contains('/') || self.config_name.contains('\\')
            || self.config_name.contains('.') {
            seq![FormError::ConfigNameInvalidChars]
        } else {
            Seq::<FormError>::empty()
        };
        let inputs: Seq<FormError> = if trim(self.input_dirs).len() == 0 {
            seq![FormError::NoInputDirs]
        } else {
            Seq::<FormError>::empty()
        };
        let output: Seq<FormError> = if trim(self.output_dir).len() == 0 {
            seq![FormError::OutputDirEmpty]
        } else {
            Seq::<FormError>::empty()
        };
        name + inputs + output
    }

    /// The validation message: the failures' messages, one per line.
    pub open spec fn form_error_message(self) -> Seq<char> {
        join(self.form_errors().map_values(|e: FormError| form_error_text(e)), "\n"@)
    }
}

/// Configuration wizard state.
#[derive(Debug)]
pub struct ConfigWizardState {
    pub step: ConfigStep,
    pub flow: WizardFlow,
    /// Input directories, `;`-separated.
    pub input_dirs: String,
    pub output_dir: String,
    /// Excluded directories, `;`-separated.
    pub exclude_dirs: String,
    pub processing_mode: EnumSelection<ProcessingMode>,
    pub classification: EnumSelection<ClassificationRule>,
    pub month_format: EnumSelection<MonthFormat>,
    pub operation: EnumSelection<FileOperation>,
    pub deduplicate: BoolSelection,
    pub dry_run: BoolSelection,
    pub classify_by_type: BoolSelection,
    pub unify_filenames: BoolSelection,
    pub preserve_standard_names: BoolSelection,
    pub config_name: String,
    /// Saved configurations found on disk.
    pub available_configs: Vec<String>,
    /// Selected option of the current step.
    pub selected_config: Option<usize>,
    pub error_message: Option<String>,
    /// Where the configuration was loaded from or saved to.
    pub config_path: Option<String>,
    pub form_state: ConfigFormState,
}

impl View for ConfigWizardState {
    type V = WizardView;

    open spec fn view(&self) -> WizardView {
        WizardView {
            step: self.step,
            flow: self.flow,
            input_dirs: self.input_dirs@,
            output_dir: self.output_dir@,
            exclude_dirs: self.exclude_dirs@,
            processing_mode: self.processing_mode@,
            classification: self.classification@,
            month_format: self.month_format@,
            operation: self.operation@,
            deduplicate: self.deduplicate@,
            dry_run: self.dry_run@,
            classify_by_type: self.classify_by_type@,
            unify_filenames: self.unify_filenames@,
            preserve_standard_names: self.preserve_standard_names@,
            config_name: self.config_name@,
            available_configs: string_seqs(self.available_configs@),
            selected_config: self.selected_config,
            error_message: opt_chars(self.error_message),
            config_path: opt_chars(self.config_path),
            form: self.form_state@,
        }
    }
}

fn dirs_from(s: &str) -> (r: Vec<String>)
    ensures
        string_seqs(r@) == dir_list(s@),
{
    let v = chars_of(s);
    let pieces = split_chars(&v, ';');
    let ghost sp = split_on(s@, ';');
    let mut r: Vec<String> = Vec::new();
    let mut i: usize = 0;
    while i < pieces.len()
        invariant
            i <= pieces.len(),
            pieces@.len() == sp.len(),
            forall|j: int| 0 <= j < pieces@.len() ==> (#[trigger] pieces@[j])@ == sp[j],
            string_seqs(r@) == nonempty_trimmed(sp.subrange(0, i as int)),
        decreases pieces.len() - i,
    {
        let ghost prev = sp.subrange(0, i as int);
        let ghost next = sp.subrange(0, i + 1);
        assert(next.drop_last() =~= prev);
        assert(next.last() == sp[i as int]);
        let t = trim_chars(&pieces[i]);
        if t.len() > 0 {
            let ghost before = r@;
            r.push(string_of(&t));
            assert(string_seqs(r@) =~= string_seqs(before).push(t@));
        }
        i = i + 1;
    }
    assert(sp.subrange(0, pieces@.len() as int) =~= sp);
    r
}

/// A directory entry that survives being joined with `; ` and split
/// again: not empty, no `;`, and no whitespace at either end.
pub open spec fn clean_dir(d: Seq<char>) -> bool {
    &&& d.len() > 0
    &&& !d.contains(';')
    &&& !is_white_space(d[0])
    &&& !is_white_space(d.last())
}

proof fn lemma_trim_clean(d: Seq<char>)
    requires
        clean_dir(d),
    ensures
        trim(d) == d,
        trim(seq![' '] + d) == d,
{
    assert(trim_start(d) == d);
    assert(trim_end(d) == d);
    let sd = seq![' '] + d;
    assert(is_white_space(sd[0]));
    assert(sd.drop_first() =~= d);
    assert(trim_start(sd) == trim_start(d));
}

proof fn lemma_split_without_separator(s: Seq<char>, sep: char)
    requires
        !s.contains(sep),
    ensures
        split_on(s, sep) == seq![s],
    decreases s.len(),
{
    if s.len() == 0 {
        assert(s =~= Seq::<char>::empty());
        assert(split_on(s, sep) =~= seq![s]);
    } else {
        let p = s.drop_last();
        assert(!p.contains(sep)) by {
            if p.contains(sep) {
                let k = choose|k: int| 0 <= k < p.len() && p[k] == sep;
                assert(s[k] == sep);
            }
        }
        lemma_split_without_separator(p, sep);
        assert(s.last() != sep) by {
            assert(s[s.len() - 1] == s.last());
        }
        assert(p.push(s.last()) =~= s);
        assert(seq![p].update(0, p.push(s.last())) =~= seq![s]);
    }
}

/// Clean directories joined with `; ` and split again come back as they
/// were.
pub proof fn lemma_dir_list_of_joined(dirs: Seq<Seq<char>>)
    requires
        forall|i: int| 0 <= i < dirs.len() ==> clean_dir(#[trigger] dirs[i]),
    ensures
        dir_list(join(dirs, "; "@)) == dirs,
    decreases dirs.len(),
{
    reveal_strlit("; ");
    if dirs.len() == 0 {
        assert(join(dirs, "; "@) =~= Seq::<char>::empty());
        lemma_split_without_separator(Seq::<char>::empty(), ';');
        let one = seq![Seq::<char>::empty()];
        assert(one.drop_last() =~= Seq::<Seq<char>>::empty());
        assert(one.last() =~= Seq::<char>::empty());
        assert(trim(Seq::<char>::empty()) =~= Seq::<char>::empty()) by {
            assert(trim_start(Seq::<char>::empty()) =~= Seq::<char>::empty());
            assert(trim_end(Seq::<char>::empty()) =~= Seq::<char>::empty());
        }
        assert(nonempty_trimmed(Seq::<Seq<char>>::empty()) =~= Seq::<Seq<char>>::empty());
        assert(nonempty_trimmed(one) =~= Seq::<Seq<char>>::empty());
        assert(dir_list(join(dirs, "; "@)) =~= dirs);
    } else if dirs.len() == 1 {
        let d = dirs[0];
        lemma_split_without_separator(d, ';');
        lemma_trim_clean(d);
        let one = seq![d];
        assert(join(dirs, "; "@) == d);
        assert(one.drop_last() =~= Seq::<Seq<char>>::empty());
        assert(one.last() == d);
        assert(nonempty_trimmed(Seq::<Seq<char>>::empty()) =~= Seq::<Seq<char>>::empty());
        assert(nonempty_trimmed(one) =~= seq![d]);
        assert(dirs =~= seq![d]);
        assert(dir_list(join(dirs, "; "@)) =~= dirs);
    } else {
        let init = dirs.drop_last();
        let d = dirs.last();
        assert(clean_dir(d)) by {
            assert(dirs[dirs.len() - 1] == d);
        }
        assert forall|i: int| 0 <= i < init.len() implies clean_dir(#[trigger] init[i]) by {
            assert(init[i] == dirs[i]);
        }
        lemma_dir_list_of_joined(init);
        let j = join(init, "; "@);
        let tail = seq![' '] + d;
        assert(join(dirs, "; "@) =~= j + seq![';'] + tail);
        lemma_split_on_concat(j, tail, ';');
        assert(!tail.contains(';')) by {
            if tail.contains(';') {
                let k = choose|k: int| 0 <= k < tail.len() && tail[k] == ';';
                assert(k > 0);
                assert(d[k - 1] == ';');
            }
        }
        lemma_split_without_separator(tail, ';');
        lemma_trim_clean(d);
        let pieces = split_on(j, ';') + seq![tail];
        assert(pieces.drop_last() =~= split_on(j, ';'));
        assert(pieces.last() == tail);
        assert(dir_list(join(dirs, "; "@)) =~= init.push(d));
        assert(init.push(d) =~= dirs);
    }
}

/// A configuration loaded into the wizard and built again keeps every
/// setting the wizard manages, provided its directories are clean (see
/// [`clean_dir`]); the settings the wizard does not show take their
/// default values.
pub proof fn lemma_wizard_round_trip(w: WizardView, c: ConfigView, path: Seq<char>)
    requires
        forall|i: int| 0 <= i < c.input_dirs.len() ==> clean_dir(#[trigger] c.input_dirs[i]),
        forall|i: int| 0 <= i < c.exclude_dirs.len() ==> clean_dir(#[trigger] c.exclude_dirs[i]),
    ensures
        w.with_config(c, path).built_config() == (ConfigView {
            input_dirs: c.input_dirs,
            output_dir: c.output_dir,
            exclude_dirs: c.exclude_dirs,
            processing_mode: c.processing_mode,
            classification: c.classification,
            month_format: c.month_format,
            classify_by_type: c.classify_by_type,
            operation: c.operation,
            deduplicate: c.deduplicate,
            dry_run: c.dry_run,
            unify_filenames: c.unify_filenames,
            preserve_standard_names: c.preserve_standard_names,
            verbose: false,
            ..default_config()
        }),
{
    lemma_dir_list_of_joined(c.input_dirs);
    lemma_dir_list_of_joined(c.exclude_dirs);
}

fn joined_dirs(dirs: &Vec<String>) -> (r: String)
    ensures
        r@ == join(string_seqs(dirs@), "; "@),
{
    let mut parts: Vec<Vec<char>> = Vec::new();
    let mut i: usize = 0;
    while i < dirs.len()
        invariant
            i <= dirs.len(),
            parts@.len() == i,
            forall|j: int| 0 <= j < i ==> (#[trigger] parts@[j])@ == dirs@[j]@,
        decreases dirs.len() - i,
    {
        parts.push(chars_of(dirs[i].as_str()));
        i = i + 1;
    }
    let sep = chars_of("; ");
    let j = join_chars(&parts, &sep);
    assert(parts@.map_values(|v: Vec<char>| v@) =~= string_seqs(dirs@));
    string_of(&j)
}

fn join_messages(errors: &Vec<FormError>) -> (r: String)
    ensures
        r@ == join(errors@.map_values(|e: FormError| form_error_text(e)), "\n"@),
{
    let mut parts: Vec<Vec<char>> = Vec::new();
    let mut i: usize = 0;
    while i < errors.len()
        invariant
            i <= errors.len(),
            parts@.len() == i,
            forall|j: int| 0 <= j < i ==> (#[trigger] parts@[j])@ == form_error_text(errors@[j]),
        decreases errors.len() - i,
    {
        let m = errors[i].message();
        parts.push(chars_of(m.as_str()));
        i = i + 1;
    }
    let sep = chars_of("\n");
    let j = join_chars(&parts, &sep);
    assert(parts@.map_values(|v: Vec<char>| v@) =~= errors@.map_values(
        |e: FormError| form_error_text(e),
    ));
    string_of(&j)
}

fn has_forbidden_name_char(name: &str) -> (r: bool)
    ensures
        r == (name@.contains('/') || name@.contains('\\') || name@.contains('.')),
{
    let v = chars_of(name);
    contains_char(&v, '/') || contains_char(&v, '\\') || contains_char(&v, '.')
}

impl ConfigWizardState {
    /// The initial wizard.
    pub fn new() -> (r: Self)
        ensures
            r@ == default_wizard(),
    {
        let r = ConfigWizardState {
            step: ConfigStep::ConfigSelect,
            flow: WizardFlow::CreateConfig,
            input_dirs: String::new(),
            output_dir: String::new(),
            exclude_dirs: String::new(),
            processing_mode: EnumSelection::new(),
            classification: EnumSelection::new(),
            month_format: EnumSelection::new(),
            operation: EnumSelection::new(),
            deduplicate: BoolSelection::new(false),
            dry_run: BoolSelection::new(false),
            classify_by_type: BoolSelection::new(false),
            unify_filenames: BoolSelection::new(false),
            preserve_standard_names: BoolSelection::new(false),
            config_name: String::new(),
            available_configs: Vec::new(),
            selected_config: None,
            error_message: None,
            config_path: None,
            form_state: ConfigFormState::new(),
        };
        assert(string_seqs(r.available_configs@) =~= Seq::<Seq<char>>::empty());
        r
    }

    pub fn is_create_config_flow(&self) -> (r: bool)
        ensures
            r == self@.is_create_config(),
    {
        self.flow == WizardFlow::CreateConfig
    }

    pub fn is_run_direct_flow(&self) -> (r: bool)
        ensures
            r == self@.is_run_direct(),
    {
        self.flow == WizardFlow::RunDirect
    }

    pub fn is_select_config_flow(&self) -> (r: bool)
        ensures
            r == self@.is_select_config(),
    {
        match self.flow {
            WizardFlow::RunFromConfig { .. } => true,
            _ => false,
        }
    }

    pub fn needs_modify_confirm(&self) -> (r: bool)
        ensures
            r == self@.needs_modify_confirm(),
    {
        match self.flow {
            WizardFlow::RunFromConfig { need_modify_confirm } => need_modify_confirm,
            _ => false,
        }
    }

    /// Whether Enter may confirm the configuration selection: not on the
    /// selection step while no configuration exists.
    pub fn can_confirm_config_select(&self) -> (r: bool)
        ensures
            r == self@.can_confirm_config_select(),
    {
        if self.step == ConfigStep::ConfigSelect {
            self.available_configs.len() > 0
        } else {
            true
        }
    }

    /// Fills the form from a loaded configuration; the configuration name is
    /// the stem of the file it was loaded from.
    pub fn init_from_config(&mut self, config: &Config, config_path: &str)
        ensures
            final(self)@ == old(self)@.with_config(config@, config_path@),
    {
        self.input_dirs = joined_dirs(&config.input_dirs);
        self.output_dir = owned(config.output_dir.as_str());
        self.exclude_dirs = joined_dirs(&config.exclude_dirs);
        self.processing_mode.select(config.processing_mode);
        self.classification.select(config.classification);
        self.month_format.select(config.month_format);
        self.operation.select(config.operation);
        self.deduplicate.select_by_index(
            if config.deduplicate {
                1
            } else {
                0
            },
        );
        self.dry_run.select_by_index(
            if config.dry_run {
                1
            } else {
                0
            },
        );
        self.classify_by_type.select_by_index(
            if config.classify_by_type {
                1
            } else {
                0
            },
        );
        self.unify_filenames.select_by_index(
            if config.unify_filenames {
                1
            } else {
                0
            },
        );
        self.preserve_standard_names.select_by_index(
            if config.preserve_standard_names {
                1
            } else {
                0
            },
        );
        self.config_name = match file_stem_str(config_path) {
            Some(s) => s,
            None => String::new(),
        };
    }

    /// The configuration described by the form.
    pub fn build_config(&self) -> (r: Config)
        ensures
            r@ == self@.built_config(),
    {
        let mut c = Config::default();
        c.input_dirs = dirs_from(self.input_dirs.as_str());
        c.output_dir = owned(self.output_dir.as_str());
        c.exclude_dirs = dirs_from(self.exclude_dirs.as_str());
        c.processing_mode = self.processing_mode.selected();
        c.classification = self.classification.selected();
        c.month_format = self.month_format.selected();
        c.classify_by_type = self.classify_by_type.value();
        c.operation = self.operation.selected();
        c.deduplicate = self.deduplicate.value();
        c.dry_run = self.dry_run.value();
        c.unify_filenames = self.unify_filenames.value();
        c.preserve_standard_names = self.preserve_standard_names.value();
        c.verbose = false;
        c
    }

    /// The validation failures of the form.
    pub fn form_errors(&self) -> (r: Vec<FormError>)
        ensures
            r@ == self@.form_errors(),
    {
        let mut r: Vec<FormError> = Vec::new();
        if !self.is_run_direct_flow() {
            let name = trim_chars(&chars_of(self.config_name.as_str()));
            if name.len() == 0 {
                r.push(FormError::ConfigNameEmpty);
            } else if has_forbidden_name_char(self.config_name.as_str()) {
                r.push(FormError::ConfigNameInvalidChars);
            }
        }
        let inputs = trim_chars(&chars_of(self.input_dirs.as_str()));
        if inputs.len() == 0 {
            r.push(FormError::NoInputDirs);
        }
        let output = trim_chars(&chars_of(self.output_dir.as_str()));
        if output.len() == 0 {
            r.push(FormError::OutputDirEmpty);
        }
        assert(r@ =~= self@.form_errors());
        r
    }

    /// Checks the form: `Ok` when no check fails, else the failures'
    /// messages, one per line.
    pub fn validate_form(&self) -> (r: Result<(), String>)
        ensures
            r is Ok <==> self@.form_errors().len() == 0,
            r matches Err(m) ==> m@ == self@.form_error_message(),
    {
        let errors = self.form_errors();
        if errors.len() == 0 {
            Ok(())
        } else {
            Err(join_messages(&errors))
        }
    }

    /// Replaces the list of saved configurations; the selection is kept in
    /// range, or cleared when the list is empty.
    pub fn set_configs_from_paths(&mut self, paths: Vec<String>)
        ensures
            final(self)@ == (WizardView {
                available_configs: string_seqs(paths@),
                selected_config: if paths@.len() == 0 {
                    None
                } else {
                    let i = match old(self)@.selected_config {
                        Some(i) => i,
                        None => 0usize,
                    };
                    Some(
                        if i < paths@.len() - 1 {
                            i
                        } else {
                            (paths@.len() - 1) as usize
                        },
                    )
                },
                ..old(self)@
            }),
    {
        self.available_configs = paths;
        if self.available_configs.len() == 0 {
            self.selected_config = None;
        } else {
            let max_index = self.available_configs.len() - 1;
            let current = match self.selected_config {
                Some(i) => i,
                None => 0,
            };
            let index = if current < max_index {
                current
            } else {
                max_index
            };
            self.selected_config = Some(index);
        }
    }

    /// Selected option of the current step (0 on steps without options).
    pub fn selected_value(&self) -> (r: usize)
        ensures
            r as nat == self@.selected_value(),
    {
        match self.step {
            ConfigStep::ConfirmRun | ConfigStep::ConfigSelect => match self.selected_config {
                Some(i) => i,
                None => 0,
            },
            _ => 0,
        }
    }

    /// Number of options on the current step.
    pub fn option_count(&self) -> (r: usize)
        ensures
            r as nat == self@.option_count(),
    {
        match self.step {
            ConfigStep::ConfigSelect => if self.available_configs.len() > 0 {
                self.available_configs.len()
            } else {
                1
            },
            ConfigStep::ConfirmRun => 2,
            _ => 0,
        }
    }

    /// Selects option `index` on steps that have options.
    pub fn set_selected(&mut self, index: usize)
        ensures
            final(self)@ == old(self)@.with_selected(index),
    {
        match self.step {
            ConfigStep::ConfirmRun | ConfigStep::ConfigSelect => {
                self.selected_config = Some(index);
            },
            _ => {},
        }
    }

    /// Brings the selection into the range of the current step's options.
    pub fn ensure_selection(&mut self)
        ensures
            final(self)@ == old(self)@.ensured(),
    {
        match self.step {
            ConfigStep::ConfirmRun => {
                let index = match self.selected_config {
                    Some(index) => if index <= 1 {
                        index
                    } else {
                        0
                    },
                    None => 0,
                };
                self.selected_config = Some(index);
            },
            ConfigStep::ConfigSelect => {
                if self.available_configs.len() == 0 {
                    self.selected_config = None;
                } else {
                    let max_index = self.available_configs.len() - 1;
                    let current = match self.selected_config {
                        Some(i) => i,
                        None => 0,
                    };
                    let index = if current < max_index {
                        current
                    } else {
                        max_index
                    };
                    self.selected_config = Some(index);
                }
            },
            _ => {},
        }
    }

    /// Selects the next option of the current step, wrapping around.
    pub fn navigate_next(&mut self)
        ensures
            final(self)@ == old(self)@.navigated_next(),
    {
        match self.step {
            ConfigStep::ConfirmRun | ConfigStep::ConfigSelect => {
                self.ensure_selection();
                if let Some(idx) = self.selected_config {
                    let count = self.option_count();
                    self.selected_config = Some((idx + 1) % count);
                }
            },
            _ => {},
        }
    }

    /// Selects the previous option of the current step, wrapping around.
    pub fn navigate_prev(&mut self)
        ensures
            final(self)@ == old(self)@.navigated_prev(),
    {
        match self.step {
            ConfigStep::ConfirmRun | ConfigStep::ConfigSelect => {
                self.ensure_selection();
                if let Some(idx) = self.selected_config {
                    let count = self.option_count();
                    self.selected_config = Some(
                        if idx == 0 {
                            count - 1
                        } else {
                            idx - 1
                        },
                    );
                }
            },
            _ => {},
        }
    }

    /// Moves to the next form row (the visible fields plus the "next" row).
    pub fn navigate_form_next(&mut self)
        ensures
            final(self)@ == old(self)@.form_next(),
    {
        proof {
            lemma_visible_among_len(self@, all_fields());
        }
        let visible_count = self.form_state.visible_fields_count(self) + 1;
        self.form_state.next_field(visible_count);
    }

    /// Moves to the previous form row.
    pub fn navigate_form_prev(&mut self)
        ensures
            final(self)@ == old(self)@.form_prev(),
    {
        proof {
            lemma_visible_among_len(self@, all_fields());
        }
        let visible_count = self.form_state.visible_fields_count(self) + 1;
        self.form_state.prev_field(visible_count);
    }

    /// Whether the "next" row (after the visible fields) is selected.
    pub fn is_next_selected(&self) -> (r: bool)
        ensures
            r == self@.is_next_selected(),
    {
        let visible_count = self.form_state.visible_fields_count(self);
        self.form_state.selected_field >= visible_count
    }

    /// Cycles the selected option field forward.
    #[verifier::rlimit(60)]
    pub fn toggle_current_field_next(&mut self)
        ensures
            final(self)@ == old(self)@.toggled_next(),
    {
        let field_opt = self.selected_form_field();
        match field_opt {
            Some(FormField::ProcessingMode) => self.processing_mode.next(),
            Some(FormField::Classification) => self.classification.next(),
            Some(FormField::MonthFormat) => self.month_format.next(),
            Some(FormField::FileOperation) => self.operation.next(),
            Some(FormField::Deduplication) => self.deduplicate.next(),
            Some(FormField::DryRun) => self.dry_run.next(),
            Some(FormField::ClassifyByType) => self.classify_by_type.next(),
            Some(FormField::UnifyFilenames) => self.unify_filenames.next(),
            Some(FormField::PreserveStandardNames) => self.preserve_standard_names.next(),
            _ => {},
        }
    }

    /// Cycles the selected option field backward.
    #[verifier::rlimit(60)]
    pub fn toggle_current_field_prev(&mut self)
        ensures
            final(self)@ == old(self)@.toggled_prev(),
    {
        let field_opt = self.selected_form_field();
        match field_opt {
            Some(FormField::ProcessingMode) => self.processing_mode.prev(),
            Some(FormField::Classification) => self.classification.prev(),
            Some(FormField::MonthFormat) => self.month_format.prev(),
            Some(FormField::FileOperation) => self.operation.prev(),
            Some(FormField::Deduplication) => self.deduplicate.prev(),
            Some(FormField::DryRun) => self.dry_run.prev(),
            Some(FormField::ClassifyByType) => self.classify_by_type.prev(),
            Some(FormField::UnifyFilenames) => self.unify_filenames.prev(),
            Some(FormField::PreserveStandardNames) => self.preserve_standard_names.prev(),
            _ => {},
        }
    }

    /// Stores `value` in the selected text field.
    pub fn update_field_from_input(&mut self, value: String)
        ensures
            final(self)@ == old(self)@.updated_field(value@),
    {
        let field_opt = self.selected_form_field();
        match field_opt {
            Some(FormField::ConfigName) => self.config_name = value,
            Some(FormField::InputDirs) => self.input_dirs = value,
            Some(FormField::OutputDir) => self.output_dir = value,
            Some(FormField::ExcludeDirs) => self.exclude_dirs = value,
            _ => {},
        }
    }

    /// Starts editing the selected text field with its current value.
    pub fn enter_input_mode_for_field(&mut self)
        ensures
            final(self)@ == old(self)@.entered_input(),
    {
        let field_opt = self.selected_form_field();
        let value = match field_opt {
            Some(FormField::ConfigName) => owned(self.config_name.as_str()),
            Some(FormField::InputDirs) => owned(self.input_dirs.as_str()),
            Some(FormField::OutputDir) => owned(self.output_dir.as_str()),
            Some(FormField::ExcludeDirs) => owned(self.exclude_dirs.as_str()),
            _ => {
                return ;
            },
        };
        self.form_state.enter_input_mode(value.as_str());
    }

    /// The text being edited.
    pub fn input_buffer(&self) -> (r: String)
        ensures
            r@ == self@.form.input.text,
    {
        self.form_state.input_value()
    }

    /// The cursor of the text being edited.
    pub fn input_cursor(&self) -> (r: usize)
        ensures
            r as nat == self@.form.input.cursor,
    {
        self.form_state.input_cursor()
    }

    /// Replaces the text being edited.
    pub fn set_input_buffer(&mut self, buffer: String, cursor: usize)
        ensures
            final(self)@ == old(self)@.with_input(
                InputView {
                    text: buffer@,
                    cursor: if cursor <= buffer@.len() {
                        cursor as nat
                    } else {
                        buffer@.len()
                    },
                },
            ),
    {
        self.form_state.input.set_buffer(buffer, cursor);
    }

    /// Stores the edited text in its field and stops editing.
    pub fn exit_input_mode_apply(&mut self)
        ensures
            final(self)@ == old(self)@.applied_input(),
    {
        let value = self.form_state.input_value();
        self.update_field_from_input(value);
        self.form_state.exit_input_mode();
    }

    /// Stops editing without storing the text.
    pub fn exit_input_mode_cancel(&mut self)
        ensures
            final(self)@ == old(self)@.cancelled_input(),
    {
        self.form_state.exit_input_mode();
    }

    /// The visible fields, in display order.
    pub fn get_visible_fields(&self) -> (r: Vec<FormField>)
        ensures
            r@ == self@.visible_fields(),
    {
        let all = FormField::all();
        let mut r: Vec<FormField> = Vec::new();
        let mut i: usize = 0;
        while i < all.len()
            invariant
                i <= all@.len(),
                all@ == all_fields(),
                r@ == visible_among(self@, all@.subrange(0, i as int)),
            decreases all@.len() - i,
        {
            let ghost prev = all@.subrange(0, i as int);
            let ghost next = all@.subrange(0, i + 1);
            assert(next.drop_last() =~= prev);
            assert(next.last() == all@[i as int]);
            if all[i].is_visible(self) {
                r.push(all[i]);
            }
            i = i + 1;
        }
        assert(all@.subrange(0, all@.len() as int) =~= all@);
        r
    }

    /// The field in the selected row, if the row is a field.
    pub fn selected_form_field(&self) -> (r: Option<FormField>)
        ensures
            r == self@.selected_form_field(),
    {
        let visible_fields = self.get_visible_fields();
        if self.form_state.selected_field < visible_fields.len() {
            Some(visible_fields[self.form_state.selected_field])
        } else {
            None
        }
    }

    pub fn is_in_input_mode(&self) -> (r: bool)
        ensures
            r == self@.form.in_input_mode,
    {
        self.form_state.in_input_mode
    }

    pub fn input_insert_char(&mut self, c: char)
        ensures
            final(self)@ == old(self)@.with_input(
                InputView {
                    text: old(self)@.form.input.text.insert(old(self)@.form.input.cursor as int, c),
                    cursor: old(self)@.form.input.cursor + 1,
                },
            ),
    {
        self.form_state.input.insert_char(c);
    }

    pub fn input_backspace(&mut self)
        ensures
            final(self)@ == old(self)@.with_input(backspaced(old(self)@.form.input)),
    {
        self.form_state.input.delete_before_cursor();
    }

    pub fn input_delete(&mut self)
        ensures
            final(self)@ == old(self)@.with_input(deleted(old(self)@.form.input)),
    {
        self.form_state.input.delete_after_cursor();
    }

    pub fn input_move_left(&mut self)
        ensures
            final(self)@ == old(self)@.with_input(
                InputView {
                    cursor: if old(self)@.form.input.cursor > 0 {
                        (old(self)@.form.input.cursor - 1) as nat
                    } else {
                        0
                    },
                    ..old(self)@.form.input
                },
            ),
    {
        self.form_state.input.move_cursor_left();
    }

    pub fn input_move_right(&mut self)
        ensures
            final(self)@ == old(self)@.with_input(
                InputView {
                    cursor: if old(self)@.form.input.cursor < old(self)@.form.input.text.len() {
                        old(self)@.form.input.cursor + 1
                    } else {
                        old(self)@.form.input.cursor
                    },
                    ..old(self)@.form.input
                },
            ),
    {
        self.form_state.input.move_cursor_right();
    }

    pub fn input_move_to_start(&mut self)
        ensures
            final(self)@ == old(self)@.with_input(InputView { cursor: 0, ..old(self)@.form.input }),
    {
        self.form_state.input.move_cursor_to_start();
    }

    pub fn input_move_to_end(&mut self)
        ensures
            final(self)@ == old(self)@.with_input(
                InputView { cursor: old(self)@.form.input.text.len(), ..old(self)@.form.input },
            ),
    {
        self.form_state.input.move_cursor_to_end();
    }
}

impl Default for ConfigWizardState {
    fn default() -> (r: Self)
        ensures
            r@ == default_wizard(),
    {
        ConfigWizardState::new()
    }
}

/// The input after a backspace.
pub open spec fn backspaced(i: InputView) -> InputView {
    if i.cursor > 0 {
        InputView { text: i.text.remove(i.cursor - 1), cursor: (i.cursor - 1) as nat }
    } else {
        i
    }
}

/// The input after a delete.
pub open spec fn deleted(i: InputView) -> InputView {
    if i.cursor < i.text.len() {
        InputView { text: i.text.remove(i.cursor as int), cursor: i.cursor }
    } else {
        i
    }
}

} // verus!
