//! Application state and the wizard transition function.
//!
//! [`transition`] only changes the state and returns the side effects to
//! perform; loading, saving and running are done by the caller.

use vstd::prelude::*;
use crate::config::{Config, ConfigView, EnumOption};
use crate::text::owned;
use crate::tui::events::TuiEvent;
use crate::tui::input::InputView;
use crate::tui::wizard::{
    backspaced, default_form, default_wizard, deleted, is_input_field_spec, ConfigFormState,
    ConfigStep, ConfigWizardState, WizardFlow, WizardView,
};

verus! {

/// The screen being shown.
#[derive(Clone, Copy, Debug, PartialEq, Eq, Structural)]
pub enum Screen {
    MainMenu,
    ConfigWizard,
    Progress,
    Summary,
    Exit,
}

/// State of the interface that the wizard transition reads and changes.
#[derive(Debug)]
pub struct AppState {
    pub current_screen: Screen,
    pub should_exit: bool,
    pub config_wizard: ConfigWizardState,
}

/// The mathematical content of an [`AppState`].
pub struct AppView {
    pub current_screen: Screen,
    pub should_exit: bool,
    pub wizard: WizardView,
}

impl View for AppState {
    type V = AppView;

    open spec fn view(&self) -> AppView {
        AppView {
            current_screen: self.current_screen,
            should_exit: self.should_exit,
            wizard: self.config_wizard@,
        }
    }
}

impl Default for AppState {
    fn default() -> (r: Self)
        ensures
            r@ == (AppView {
                current_screen: Screen::MainMenu,
                should_exit: false,
                wizard: default_wizard(),
            }),
    {
        AppState {
            current_screen: Screen::MainMenu,
            should_exit: false,
            config_wizard: ConfigWizardState::new(),
        }
    }
}

/// Back to the main menu with a fresh wizard.
pub open spec fn reset_app(a: AppView) -> AppView {
    AppView { current_screen: Screen::MainMenu, wizard: default_wizard(), ..a }
}

/// Returns to the main menu and discards the wizard's contents.
pub fn reset_to_main_menu(state: &mut AppState)
    ensures
        final(state)@ == reset_app(old(state)@),
{
    state.current_screen = Screen::MainMenu;
    state.config_wizard = ConfigWizardState::new();
}

/// A side effect requested by the wizard.
#[derive(Debug)]
pub enum Effect {
    /// Load the configuration file at this path.
    LoadConfig(String),
    /// Save a configuration under a name; the configuration is a snapshot
    /// taken when the effect was issued.
    SaveConfig { name: String, config: Box<Config> },
    /// Re-scan the saved configurations.
    RefreshConfigs,
    /// Run processing with a configuration.
    RunProcessing { config: Box<Config>, config_name: Option<String> },
}

/// The mathematical content of an [`Effect`].
pub enum EffectView {
    LoadConfig(Seq<char>),
    SaveConfig { name: Seq<char>, config: ConfigView },
    RefreshConfigs,
    RunProcessing { config: ConfigView, config_name: Option<Seq<char>> },
}

impl View for Effect {
    type V = EffectView;

    open spec fn view(&self) -> EffectView {
        match self {
            Effect::LoadConfig(p) => EffectView::LoadConfig(p@),
            Effect::SaveConfig { name, config } => EffectView::SaveConfig {
                name: name@,
                config: config@,
            },
            Effect::RefreshConfigs => EffectView::RefreshConfigs,
            Effect::RunProcessing { config, config_name } => EffectView::RunProcessing {
                config: config@,
                config_name: match config_name {
                    Some(n) => Some(n@),
                    None => None,
                },
            },
        }
    }
}

/// The views of a list of effects.
pub open spec fn effect_views(effects: Seq<Effect>) -> Seq<EffectView> {
    effects.map_values(|e: Effect| e@)
}

/// `a` with wizard `w`.
pub open spec fn with_wizard(a: AppView, w: WizardView) -> AppView {
    AppView { wizard: w, ..a }
}

/// Up: cursor to the start while editing; otherwise the previous form row,
/// or the previous option on the selection and confirmation steps.
pub open spec fn on_up(a: AppView) -> AppView {
    let w = a.wizard;
    if w.form.in_input_mode {
        with_wizard(a, w.with_input(InputView { cursor: 0, ..w.form.input }))
    } else {
        match w.step {
            ConfigStep::ConfigForm => with_wizard(a, w.form_prev()),
            ConfigStep::ConfigSelect | ConfigStep::ConfirmRun => with_wizard(a, w.navigated_prev()),
            _ => a,
        }
    }
}

/// Down: cursor to the end while editing; otherwise the next form row, or
/// the next option.
pub open spec fn on_down(a: AppView) -> AppView {
    let w = a.wizard;
    if w.form.in_input_mode {
        with_wizard(a, w.with_input(InputView { cursor: w.form.input.text.len(), ..w.form.input }))
    } else {
        match w.step {
            ConfigStep::ConfigForm => with_wizard(a, w.form_next()),
            ConfigStep::ConfigSelect | ConfigStep::ConfirmRun => with_wizard(a, w.navigated_next()),
            _ => a,
        }
    }
}

/// Left: cursor left while editing; otherwise the previous value of the
/// selected option field, or the previous option.
pub open spec fn on_left(a: AppView) -> AppView {
    let w = a.wizard;
    if w.form.in_input_mode {
        with_wizard(
            a,
            w.with_input(
                InputView {
                    cursor: if w.form.input.cursor > 0 {
                        (w.form.input.cursor - 1) as nat
                    } else {
                        0
                    },
                    ..w.form.input
                },
            ),
        )
    } else {
        match w.step {
            ConfigStep::ConfigForm => if !w.is_next_selected() {
                with_wizard(a, w.toggled_prev())
            } else {
                a
            },
            ConfigStep::ConfigSelect | ConfigStep::ConfirmRun => with_wizard(a, w.navigated_prev()),
            _ => a,
        }
    }
}

/// Right: cursor right while editing; otherwise the next value of the
/// selected option field, or the next option.
pub open spec fn on_right(a: AppView) -> AppView {
    let w = a.wizard;
    if w.form.in_input_mode {
        with_wizard(
            a,
            w.with_input(
                InputView {
                    cursor: if w.form.input.cursor < w.form.input.text.len() {
                        w.form.input.cursor + 1
                    } else {
                        w.form.input.cursor
                    },
                    ..w.form.input
                },
            ),
        )
    } else {
        match w.step {
            ConfigStep::ConfigForm => if !w.is_next_selected() {
                with_wizard(a, w.toggled_next())
            } else {
                a
            },
            ConfigStep::ConfigSelect | ConfigStep::ConfirmRun => with_wizard(a, w.navigated_next()),
            _ => a,
        }
    }
}

/// Tab outside editing: like Down; nothing while editing.
pub open spec fn on_tab(a: AppView) -> AppView {
    let w = a.wizard;
    if w.form.in_input_mode {
        a
    } else {
        match w.step {
            ConfigStep::ConfigForm => with_wizard(a, w.form_next()),
            ConfigStep::ConfigSelect | ConfigStep::ConfirmRun => with_wizard(a, w.navigated_next()),
            _ => a,
        }
    }
}

/// Escape: cancels editing; otherwise goes one step back (to the main menu
/// from the first step).
pub open spec fn on_escape(a: AppView) -> AppView {
    let w = a.wizard;
    if w.form.in_input_mode {
        with_wizard(a, w.cancelled_input())
    } else {
        match w.step {
            ConfigStep::ConfirmRun => with_wizard(a, WizardView { step: ConfigStep::Summary, ..w }),
            ConfigStep::ConfigForm => if w.is_select_config() {
                with_wizard(a, WizardView { step: ConfigStep::ConfigSelect, ..w })
            } else {
                reset_app(a)
            },
            ConfigStep::Summary => if w.is_select_config() && w.needs_modify_confirm() {
                with_wizard(a, WizardView { step: ConfigStep::ConfigSelect, ..w })
            } else {
                with_wizard(a, WizardView { step: ConfigStep::ConfigForm, ..w })
            },
            ConfigStep::ConfigSelect => reset_app(a),
        }
    }
}

/// A run of the form's configuration under a name.
pub open spec fn run_effect(w: WizardView, config_name: Option<Seq<char>>) -> EffectView {
    EffectView::RunProcessing { config: w.built_config(), config_name }
}

/// A save of the form's configuration under its name.
pub open spec fn save_effect(w: WizardView) -> EffectView {
    EffectView::SaveConfig { name: w.config_name, config: w.built_config() }
}

/// Enter on each step.
pub open spec fn on_enter(a: AppView) -> (AppView, Seq<EffectView>) {
    let w = a.wizard;
    let none = Seq::<EffectView>::empty();
    match w.step {
        ConfigStep::ConfigSelect => if !w.can_confirm_config_select() {
            (a, none)
        } else {
            let w1 = w.ensured();
            let sel = w1.selected_value();
            if sel < w1.available_configs.len() {
                (with_wizard(a, w1), seq![EffectView::LoadConfig(w1.available_configs[sel as int])])
            } else {
                (with_wizard(a, w1), none)
            }
        },
        ConfigStep::ConfirmRun => {
            let w1 = w.ensured();
            let sel = w1.selected_value();
            if w1.is_select_config() {
                if sel == 0 {
                    (
                        with_wizard(
                            a,
                            WizardView {
                                flow: WizardFlow::RunFromConfig { need_modify_confirm: false },
                                form: default_form(),
                                step: ConfigStep::ConfigForm,
                                ..w1
                            },
                        ),
                        none,
                    )
                } else {
                    (with_wizard(a, w1), seq![run_effect(w1, Some(w1.config_name))])
                }
            } else if sel == 0 {
                (with_wizard(a, w1), seq![save_effect(w1), run_effect(w1, Some(w1.config_name))])
            } else {
                (reset_app(with_wizard(a, w1)), seq![save_effect(w1)])
            }
        },
        ConfigStep::ConfigForm => if w.form.in_input_mode {
            (with_wizard(a, w.applied_input()), none)
        } else if w.is_next_selected() {
            if w.form_errors().len() == 0 {
                (with_wizard(a, WizardView { step: ConfigStep::Summary, ..w }), none)
            } else {
                (with_wizard(a, WizardView { error_message: Some(w.form_error_message()), ..w }), none)
            }
        } else {
            match w.selected_form_field() {
                Some(f) => if is_input_field_spec(f) {
                    (with_wizard(a, w.entered_input()), none)
                } else {
                    (a, none)
                },
                None => (a, none),
            }
        },
        ConfigStep::Summary => if w.is_run_direct() || (w.is_select_config()
            && !w.needs_modify_confirm()) {
            (
                a,
                seq![
                    run_effect(
                        w,
                        if w.is_run_direct() {
                            None
                        } else {
                            Some(w.config_name)
                        },
                    ),
                ],
            )
        } else {
            let w1 = WizardView { step: ConfigStep::ConfirmRun, ..w };
            let w2 = if w1.is_select_config() {
                w1.with_selected(1)
            } else {
                w1
            };
            (with_wizard(a, w2.ensured()), none)
        },
    }
}

/// The wizard's response to an event: the new state and the effects to
/// perform, in order.
pub open spec fn transition_spec(a: AppView, event: TuiEvent) -> (AppView, Seq<EffectView>) {
    let w = a.wizard;
    let none = Seq::<EffectView>::empty();
    let editing = w.form.in_input_mode;
    match event {
        TuiEvent::Up => (on_up(a), none),
        TuiEvent::Down => (on_down(a), none),
        TuiEvent::Left => (on_left(a), none),
        TuiEvent::Right => (on_right(a), none),
        TuiEvent::Enter => on_enter(a),
        TuiEvent::Escape => (on_escape(a), none),
        TuiEvent::Tab => (on_tab(a), none),
        TuiEvent::Char(c) => if editing {
            (
                with_wizard(
                    a,
                    w.with_input(
                        InputView {
                            text: w.form.input.text.insert(w.form.input.cursor as int, c),
                            cursor: w.form.input.cursor + 1,
                        },
                    ),
                ),
                none,
            )
        } else {
            (a, none)
        },
        TuiEvent::Backspace => if editing {
            (with_wizard(a, w.with_input(backspaced(w.form.input))), none)
        } else {
            (a, none)
        },
        TuiEvent::Delete => if editing {
            (with_wizard(a, w.with_input(deleted(w.form.input))), none)
        } else {
            (a, none)
        },
        TuiEvent::Home => if editing {
            (with_wizard(a, w.with_input(InputView { cursor: 0, ..w.form.input })), none)
        } else {
            (a, none)
        },
        TuiEvent::End => if editing {
            (
                with_wizard(
                    a,
                    w.with_input(InputView { cursor: w.form.input.text.len(), ..w.form.input }),
                ),
                none,
            )
        } else {
            (a, none)
        },
        _ => (a, none),
    }
}

fn handle_up(state: &mut AppState)
    ensures
        final(state)@ == on_up(old(state)@),
{
    if state.config_wizard.is_in_input_mode() {
        state.config_wizard.input_move_to_start();
    } else {
        match state.config_wizard.step {
            ConfigStep::ConfigForm => state.config_wizard.navigate_form_prev(),
            ConfigStep::ConfigSelect | ConfigStep::ConfirmRun => state.config_wizard.navigate_prev(),
            _ => {},
        }
    }
}

fn handle_down(state: &mut AppState)
    ensures
        final(state)@ == on_down(old(state)@),
{
    if state.config_wizard.is_in_input_mode() {
        state.config_wizard.input_move_to_end();
    } else {
        match state.config_wizard.step {
            ConfigStep::ConfigForm => state.config_wizard.navigate_form_next(),
            ConfigStep::ConfigSelect | ConfigStep::ConfirmRun => state.config_wizard.navigate_next(),
            _ => {},
        }
    }
}

fn handle_left(state: &mut AppState)
    ensures
        final(state)@ == on_left(old(state)@),
{
    if state.config_wizard.is_in_input_mode() {
        state.config_wizard.input_move_left();
    } else {
        match state.config_wizard.step {
            ConfigStep::ConfigForm => {
                if !state.config_wizard.is_next_selected() {
                    state.config_wizard.toggle_current_field_prev();
                }
            },
            ConfigStep::ConfigSelect | ConfigStep::ConfirmRun => {
                state.config_wizard.navigate_prev();
            },
            _ => {},
        }
    }
}

fn handle_right(state: &mut AppState)
    ensures
        final(state)@ == on_right(old(state)@),
{
    if state.config_wizard.is_in_input_mode() {
        state.config_wizard.input_move_right();
    } else {
        match state.config_wizard.step {
            ConfigStep::ConfigForm => {
                if !state.config_wizard.is_next_selected() {
                    state.config_wizard.toggle_current_field_next();
                }
            },
            ConfigStep::ConfigSelect | ConfigStep::ConfirmRun => {
                state.config_wizard.navigate_next();
            },
            _ => {},
        }
    }
}

fn handle_tab(state: &mut AppState)
    ensures
        final(state)@ == on_tab(old(state)@),
{
    if !state.config_wizard.is_in_input_mode() {
        match state.config_wizard.step {
            ConfigStep::ConfigForm => state.config_wizard.navigate_form_next(),
            ConfigStep::ConfigSelect | ConfigStep::ConfirmRun => state.config_wizard.navigate_next(),
            _ => {},
        }
    }
}

fn handle_escape(state: &mut AppState)
    ensures
        final(state)@ == on_escape(old(state)@),
{
    if state.config_wizard.is_in_input_mode() {
        state.config_wizard.exit_input_mode_cancel();
    } else {
        match state.config_wizard.step {
            ConfigStep::ConfirmRun => {
                state.config_wizard.step = ConfigStep::Summary;
            },
            ConfigStep::ConfigForm => {
                if state.config_wizard.is_select_config_flow() {
                    state.config_wizard.step = ConfigStep::ConfigSelect;
                } else {
                    reset_to_main_menu(state);
                }
            },
            ConfigStep::Summary => {
                if state.config_wizard.is_select_config_flow()
                    && state.config_wizard.needs_modify_confirm() {
                    state.config_wizard.step = ConfigStep::ConfigSelect;
                } else {
                    state.config_wizard.step = ConfigStep::ConfigForm;
                }
            },
            ConfigStep::ConfigSelect => reset_to_main_menu(state),
        }
    }
}

fn handle_enter_select(state: &mut AppState) -> (effects: Vec<Effect>)
    requires
        old(state)@.wizard.step == ConfigStep::ConfigSelect,
    ensures
        (final(state)@, effect_views(effects@)) == on_enter(old(state)@),
{
    let mut effects: Vec<Effect> = Vec::new();
    if !state.config_wizard.can_confirm_config_select() {
        assert(effect_views(effects@) =~= Seq::<EffectView>::empty());
        return effects;
    }
    state.config_wizard.ensure_selection();
    let selected = state.config_wizard.selected_value();
    if selected < state.config_wizard.available_configs.len() {
        let path = owned(state.config_wizard.available_configs[selected].as_str());
        effects.push(Effect::LoadConfig(path));
        assert(effect_views(effects@) =~= seq![
            EffectView::LoadConfig(state@.wizard.available_configs[selected as int]),
        ]);
    } else {
        assert(effect_views(effects@) =~= Seq::<EffectView>::empty());
    }
    effects
}

fn handle_enter_confirm(state: &mut AppState) -> (effects: Vec<Effect>)
    requires
        old(state)@.wizard.step == ConfigStep::ConfirmRun,
    ensures
        (final(state)@, effect_views(effects@)) == on_enter(old(state)@),
{
    let mut effects: Vec<Effect> = Vec::new();
    state.config_wizard.ensure_selection();
    let selected = state.config_wizard.selected_value();
    let ghost w1 = state@.wizard;
    if state.config_wizard.is_select_config_flow() {
        if selected == 0 {
            state.config_wizard.flow = WizardFlow::RunFromConfig { need_modify_confirm: false };
            state.config_wizard.form_state = ConfigFormState::new();
            state.config_wizard.step = ConfigStep::ConfigForm;
            assert(effect_views(effects@) =~= Seq::<EffectView>::empty());
        } else {
            let config = state.config_wizard.build_config();
            let name = owned(state.config_wizard.config_name.as_str());
            effects.push(Effect::RunProcessing { config: Box::new(config), config_name: Some(name) });
            assert(effect_views(effects@) =~= seq![run_effect(w1, Some(w1.config_name))]);
        }
    } else {
        let config = state.config_wizard.build_config();
        let snapshot = config.duplicate();
        let name = owned(state.config_wizard.config_name.as_str());
        effects.push(Effect::SaveConfig { name, config: Box::new(snapshot) });
        if selected == 0 {
            let run_name = owned(state.config_wizard.config_name.as_str());
            effects.push(Effect::RunProcessing { config: Box::new(config), config_name: Some(run_name) });
            assert(effect_views(effects@) =~= seq![save_effect(w1), run_effect(w1, Some(w1.config_name))]);
        } else {
            reset_to_main_menu(state);
            assert(effect_views(effects@) =~= seq![save_effect(w1)]);
        }
    }
    effects
}

fn handle_enter_form(state: &mut AppState)
    requires
        old(state)@.wizard.step == ConfigStep::ConfigForm,
    ensures
        final(state)@ == on_enter(old(state)@).0,
{
    if state.config_wizard.is_in_input_mode() {
        state.config_wizard.exit_input_mode_apply();
    } else if state.config_wizard.is_next_selected() {
        match state.config_wizard.validate_form() {
            Ok(()) => {
                state.config_wizard.step = ConfigStep::Summary;
            },
            Err(message) => {
                state.config_wizard.error_message = Some(message);
            },
        }
    } else {
        match state.config_wizard.selected_form_field() {
            Some(field) => {
                if field.is_input_field() {
                    state.config_wizard.enter_input_mode_for_field();
                }
            },
            None => {},
        }
    }
}

#[verifier::rlimit(80)]
fn handle_enter_summary(state: &mut AppState) -> (effects: Vec<Effect>)
    requires
        old(state)@.wizard.step == ConfigStep::Summary,
    ensures
        (final(state)@, effect_views(effects@)) == on_enter(old(state)@),
{
    let mut effects: Vec<Effect> = Vec::new();
    if state.config_wizard.is_run_direct_flow() || (state.config_wizard.is_select_config_flow()
        && !state.config_wizard.needs_modify_confirm()) {
        let config = state.config_wizard.build_config();
        let config_name = if state.config_wizard.is_run_direct_flow() {
            None
        } else {
            Some(owned(state.config_wizard.config_name.as_str()))
        };
        effects.push(Effect::RunProcessing { config: Box::new(config), config_name });
        let ghost w = state@.wizard;
        assert(effect_views(effects@) =~= seq![
            run_effect(
                w,
                if w.is_run_direct() {
                    None
                } else {
                    Some(w.config_name)
                },
            ),
        ]);
    } else {
        state.config_wizard.step = ConfigStep::ConfirmRun;
        if state.config_wizard.is_select_config_flow() {
            state.config_wizard.set_selected(1);
        }
        state.config_wizard.ensure_selection();
        assert(effect_views(effects@) =~= Seq::<EffectView>::empty());
    }
    effects
}

/// Applies one event to the wizard and returns the effects it requests.
pub fn transition(state: &mut AppState, event: TuiEvent) -> (effects: Vec<Effect>)
    ensures
        (final(state)@, effect_views(effects@)) == transition_spec(old(state)@, event),
{
    let mut effects: Vec<Effect> = Vec::new();
    proof {
        assert(effect_views(effects@) =~= Seq::<EffectView>::empty());
    }
    match event {
        TuiEvent::Up => handle_up(state),
        TuiEvent::Down => handle_down(state),
        TuiEvent::Left => handle_left(state),
        TuiEvent::Right => handle_right(state),
        TuiEvent::Enter => {
            match state.config_wizard.step {
                ConfigStep::ConfigSelect => {
                    effects = handle_enter_select(state);
                },
                ConfigStep::ConfirmRun => {
                    effects = handle_enter_confirm(state);
                },
                ConfigStep::ConfigForm => {
                    handle_enter_form(state);
                },
                ConfigStep::Summary => {
                    effects = handle_enter_summary(state);
                },
            }
        },
        TuiEvent::Escape => handle_escape(state),
        TuiEvent::Tab => handle_tab(state),
        TuiEvent::Char(c) => {
            if state.config_wizard.is_in_input_mode() {
                state.config_wizard.input_insert_char(c);
            }
        },
        TuiEvent::Backspace => {
            if state.config_wizard.is_in_input_mode() {
                state.config_wizard.input_backspace();
            }
        },
        TuiEvent::Delete => {
            if state.config_wizard.is_in_input_mode() {
                state.config_wizard.input_delete();
            }
        },
        TuiEvent::Home => {
            if state.config_wizard.is_in_input_mode() {
                state.config_wizard.input_move_to_start();
            }
        },
        TuiEvent::End => {
            if state.config_wizard.is_in_input_mode() {
                state.config_wizard.input_move_to_end();
            }
        },
        _ => {},
    }
    effects
}

// ---------------------------------------------------------------------------
// Main menu, summary and exit screens
// ---------------------------------------------------------------------------

/// An entry of the main menu, in the order the menu lists them.
#[derive(Clone, Copy, Debug, PartialEq, Eq, Structural)]
pub enum MenuItem {
    /// Fill in a form and run it without saving.
    RunDirect,
    /// Pick a saved configuration and run it.
    RunConfig,
    /// Fill in a form and save it as a configuration.
    CreateConfig,
    Exit,
}

impl EnumOption for MenuItem {
    open spec fn index_of(self) -> nat {
        match self {
            MenuItem::RunDirect => 0,
            MenuItem::RunConfig => 1,
            MenuItem::CreateConfig => 2,
            MenuItem::Exit => 3,
        }
    }

    open spec fn count_spec() -> nat {
        4
    }

    open spec fn at_index(i: nat) -> Self {
        if i == 1 {
            MenuItem::RunConfig
        } else if i == 2 {
            MenuItem::CreateConfig
        } else if i == 3 {
            MenuItem::Exit
        } else {
            MenuItem::RunDirect
        }
    }

    open spec fn default_spec() -> Self {
        MenuItem::RunDirect
    }

    proof fn lemma_index_round_trip(x: Self) {
    }

    proof fn lemma_at_index(i: nat) {
    }

    fn to_index(&self) -> (r: usize) {
        match self {
            MenuItem::RunDirect => 0,
            MenuItem::RunConfig => 1,
            MenuItem::CreateConfig => 2,
            MenuItem::Exit => 3,
        }
    }

    fn from_index(i: usize) -> (r: Self) {
        if i == 1 {
            MenuItem::RunConfig
        } else if i == 2 {
            MenuItem::CreateConfig
        } else if i == 3 {
            MenuItem::Exit
        } else {
            MenuItem::RunDirect
        }
    }

    fn variant_count() -> (r: usize) {
        4
    }

    fn default_option() -> (r: Self) {
        MenuItem::RunDirect
    }
}

/// The state after choosing a main-menu entry, whether the application
/// quits, and the effects requested: each wizard entry opens a fresh
/// wizard on the form (run directly, create) or on the list of saved
/// configurations (run from a configuration, which also asks for the list
/// to be refreshed).
pub open spec fn menu_chosen(a: AppView, item: MenuItem) -> (AppView, bool, Seq<EffectView>) {
    match item {
        MenuItem::Exit => (a, true, Seq::empty()),
        MenuItem::RunDirect => (AppView {
            current_screen: Screen::ConfigWizard,
            wizard: WizardView { step: ConfigStep::ConfigForm, flow: WizardFlow::RunDirect, ..default_wizard() },
            ..a
        }, false, Seq::empty()),
        MenuItem::RunConfig => (AppView {
            current_screen: Screen::ConfigWizard,
            wizard: WizardView {
                step: ConfigStep::ConfigSelect,
                flow: WizardFlow::RunFromConfig { need_modify_confirm: true },
                ..default_wizard()
            },
            ..a
        }, false, seq![EffectView::RefreshConfigs]),
        MenuItem::CreateConfig => (AppView {
            current_screen: Screen::ConfigWizard,
            wizard: WizardView { step: ConfigStep::ConfigForm, flow: WizardFlow::CreateConfig, ..default_wizard() },
            ..a
        }, false, Seq::empty()),
    }
}

/// Carries out a main-menu choice (see [`menu_chosen`]); returns whether
/// the application quits.
pub fn choose_menu_item(state: &mut AppState, item: MenuItem, effects: &mut Vec<Effect>) -> (quit: bool)
    ensures
        (final(state)@, quit, effect_views(final(effects)@)) == {
            let m = menu_chosen(old(state)@, item);
            (m.0, m.1, effect_views(old(effects)@) + m.2)
        },
{
    match item {
        MenuItem::Exit => {
            assert(effect_views(effects@) =~= effect_views(effects@) + Seq::<EffectView>::empty());
            true
        },
        MenuItem::RunDirect => {
            state.current_screen = Screen::ConfigWizard;
            state.config_wizard = ConfigWizardState::new();
            state.config_wizard.step = ConfigStep::ConfigForm;
            state.config_wizard.flow = WizardFlow::RunDirect;
            assert(effect_views(effects@) =~= effect_views(effects@) + Seq::<EffectView>::empty());
            false
        },
        MenuItem::RunConfig => {
            state.current_screen = Screen::ConfigWizard;
            state.config_wizard = ConfigWizardState::new();
            state.config_wizard.step = ConfigStep::ConfigSelect;
            state.config_wizard.flow = WizardFlow::RunFromConfig { need_modify_confirm: true };
            let ghost before = effects@;
            effects.push(Effect::RefreshConfigs);
            assert(effect_views(effects@) =~= effect_views(before) + seq![EffectView::RefreshConfigs]);
            false
        },
        MenuItem::CreateConfig => {
            state.current_screen = Screen::ConfigWizard;
            state.config_wizard = ConfigWizardState::new();
            state.config_wizard.step = ConfigStep::ConfigForm;
            state.config_wizard.flow = WizardFlow::CreateConfig;
            assert(effect_views(effects@) =~= effect_views(effects@) + Seq::<EffectView>::empty());
            false
        },
    }
}

/// On the summary screen, Enter or Esc returns to the main menu.
pub open spec fn summary_event(a: AppView, event: TuiEvent) -> AppView {
    if event == TuiEvent::Enter || event == TuiEvent::Escape {
        reset_app(a)
    } else {
        a
    }
}

/// Handles an event on the summary screen (see [`summary_event`]).
pub fn handle_summary_event(state: &mut AppState, event: TuiEvent)
    ensures
        final(state)@ == summary_event(old(state)@, event),
{
    match event {
        TuiEvent::Enter | TuiEvent::Escape => reset_to_main_menu(state),
        _ => {},
    }
}

/// On the exit screen, `y` confirms quitting; `n` or Esc returns to the
/// main menu.
pub open spec fn exit_event(a: AppView, event: TuiEvent) -> (AppView, bool) {
    if event == TuiEvent::Char('y') || event == TuiEvent::Char('Y') {
        (a, true)
    } else if event == TuiEvent::Char('n') || event == TuiEvent::Char('N') || event == TuiEvent::Escape {
        (AppView { current_screen: Screen::MainMenu, should_exit: false, ..a }, false)
    } else {
        (a, false)
    }
}

/// Handles an event on the exit screen (see [`exit_event`]); returns
/// whether the application quits.
pub fn handle_exit_event(state: &mut AppState, event: TuiEvent) -> (quit: bool)
    ensures
        (final(state)@, quit) == exit_event(old(state)@, event),
{
    match event {
        TuiEvent::Char('y') | TuiEvent::Char('Y') => true,
        TuiEvent::Char('n') | TuiEvent::Char('N') | TuiEvent::Escape => {
            state.current_screen = Screen::MainMenu;
            state.should_exit = false;
            false
        },
        _ => false,
    }
}

} // verus!
