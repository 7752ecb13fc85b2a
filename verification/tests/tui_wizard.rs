use gallery_sorter::tui::events::TuiEvent;
use gallery_sorter::tui::transition::{
    choose_menu_item, handle_exit_event, handle_summary_event, transition, AppState, Effect, MenuItem, Screen,
};
use gallery_sorter::config::{ClassificationRule, Config, FileOperation, MonthFormat, ProcessingMode};
use gallery_sorter::tui::wizard::{BoolSelection, ConfigStep, ConfigWizardState, EnumSelection, FormField, WizardFlow};

#[derive(Debug, Clone, Copy, PartialEq)]
enum Flow {
    RunDirect,
    RunFromConfig,
    CreateConfig,
}

#[derive(Debug, Clone, PartialEq)]
enum EffectKind {
    LoadConfig,
    SaveConfig,
    RefreshConfigs,
    RunProcessing { has_name: bool },
}

#[derive(Debug)]
struct Expected {
    step: ConfigStep,
    effects: Vec<EffectKind>,
    resets_main_menu: bool,
}

fn state_for(flow: Flow, step: ConfigStep) -> AppState {
    let wizard_flow = match flow {
        Flow::RunDirect => WizardFlow::RunDirect,
        Flow::RunFromConfig => WizardFlow::RunFromConfig { need_modify_confirm: true },
        Flow::CreateConfig => WizardFlow::CreateConfig,
    };
    AppState {
        current_screen: Screen::ConfigWizard,
        config_wizard: ConfigWizardState { step, flow: wizard_flow, ..Default::default() },
        ..Default::default()
    }
}

fn all_events() -> Vec<TuiEvent> {
    vec![
        TuiEvent::Up,
        TuiEvent::Down,
        TuiEvent::Left,
        TuiEvent::Right,
        TuiEvent::Enter,
        TuiEvent::Escape,
        TuiEvent::Tab,
        TuiEvent::Char('x'),
        TuiEvent::Backspace,
        TuiEvent::Delete,
        TuiEvent::Home,
        TuiEvent::End,
    ]
}

fn effect_kinds(effects: &[Effect]) -> Vec<EffectKind> {
    effects
        .iter()
        .map(|effect| match effect {
            Effect::LoadConfig(_) => EffectKind::LoadConfig,
            Effect::SaveConfig { .. } => EffectKind::SaveConfig,
            Effect::RefreshConfigs => EffectKind::RefreshConfigs,
            Effect::RunProcessing { config_name, .. } => EffectKind::RunProcessing { has_name: config_name.is_some() },
        })
        .collect()
}

fn expected_for(flow: Flow, step: ConfigStep, event: TuiEvent) -> Expected {
    let inert = Expected { step: step.clone(), effects: Vec::new(), resets_main_menu: false };

    match (&step, event) {
        (ConfigStep::ConfigSelect, TuiEvent::Escape) => {
            Expected { step: ConfigStep::ConfigSelect, effects: vec![], resets_main_menu: true }
        }
        (ConfigStep::ConfigSelect, _) => inert,
        (ConfigStep::ConfigForm, TuiEvent::Enter) => {
            Expected { step: ConfigStep::ConfigForm, effects: vec![], resets_main_menu: false }
        }
        (ConfigStep::ConfigForm, TuiEvent::Escape) => match flow {
            Flow::RunFromConfig => Expected { step: ConfigStep::ConfigSelect, effects: vec![], resets_main_menu: false },
            _ => Expected { step: ConfigStep::ConfigSelect, effects: vec![], resets_main_menu: true },
        },
        (ConfigStep::ConfigForm, _) => inert,
        (ConfigStep::Summary, TuiEvent::Enter) => match flow {
            Flow::RunDirect => Expected {
                step: ConfigStep::Summary,
                effects: vec![EffectKind::RunProcessing { has_name: false }],
                resets_main_menu: false,
            },
            Flow::RunFromConfig | Flow::CreateConfig => {
                Expected { step: ConfigStep::ConfirmRun, effects: vec![], resets_main_menu: false }
            }
        },
        (ConfigStep::Summary, TuiEvent::Escape) => match flow {
            Flow::RunFromConfig => Expected { step: ConfigStep::ConfigSelect, effects: vec![], resets_main_menu: false },
            _ => Expected { step: ConfigStep::ConfigForm, effects: vec![], resets_main_menu: false },
        },
        (ConfigStep::Summary, _) => inert,
        (ConfigStep::ConfirmRun, TuiEvent::Enter) => match flow {
            Flow::RunFromConfig => Expected { step: ConfigStep::ConfigForm, effects: vec![], resets_main_menu: false },
            Flow::RunDirect | Flow::CreateConfig => Expected {
                step: ConfigStep::ConfirmRun,
                effects: vec![EffectKind::SaveConfig, EffectKind::RunProcessing { has_name: true }],
                resets_main_menu: false,
            },
        },
        (ConfigStep::ConfirmRun, TuiEvent::Escape) => {
            Expected { step: ConfigStep::Summary, effects: vec![], resets_main_menu: false }
        }
        (ConfigStep::ConfirmRun, _) => inert,
    }
}

#[test]
fn test_transition_table_all_flow_step_event_combinations() {
    let flows = [Flow::RunDirect, Flow::RunFromConfig, Flow::CreateConfig];
    let steps = [ConfigStep::ConfigSelect, ConfigStep::ConfigForm, ConfigStep::Summary, ConfigStep::ConfirmRun];

    for flow in flows {
        for step in steps.clone() {
            for event in all_events() {
                let mut state = state_for(flow, step.clone());
                let effects = transition(&mut state, event.clone());
                let expected = expected_for(flow, step.clone(), event.clone());

                assert_eq!(state.config_wizard.step, expected.step, "flow={flow:?} step={step:?} event={event:?}");
                assert_eq!(effect_kinds(&effects), expected.effects, "flow={flow:?} step={step:?} event={event:?}");
                assert_eq!(
                    state.current_screen == Screen::MainMenu,
                    expected.resets_main_menu,
                    "flow={flow:?} step={step:?} event={event:?}"
                );
            }
        }
    }
}

#[test]
fn test_config_select_enter_emits_load_config_effect() {
    let mut state = state_for(Flow::RunFromConfig, ConfigStep::ConfigSelect);
    state.config_wizard.available_configs = vec!["C:/configs/album.toml".to_string()];

    let effects = transition(&mut state, TuiEvent::Enter);

    assert_eq!(effect_kinds(&effects), vec![EffectKind::LoadConfig]);
    assert_eq!(state.config_wizard.step, ConfigStep::ConfigSelect);
}

#[test]
fn test_run_from_config_summary_modified_confirm_runs_directly() {
    let mut state = state_for(Flow::RunFromConfig, ConfigStep::Summary);
    state.config_wizard.flow = WizardFlow::RunFromConfig { need_modify_confirm: false };
    state.config_wizard.config_name = "album".to_string();

    let effects = transition(&mut state, TuiEvent::Enter);

    assert_eq!(effect_kinds(&effects), vec![EffectKind::RunProcessing { has_name: true }]);
    assert_eq!(state.config_wizard.step, ConfigStep::Summary);
}

#[test]
fn test_run_from_config_confirm_run_selected_run_emits_effect() {
    let mut state = state_for(Flow::RunFromConfig, ConfigStep::ConfirmRun);
    state.config_wizard.config_name = "album".to_string();
    state.config_wizard.set_selected(1);

    let effects = transition(&mut state, TuiEvent::Enter);

    assert_eq!(effect_kinds(&effects), vec![EffectKind::RunProcessing { has_name: true }]);
    assert_eq!(state.config_wizard.step, ConfigStep::ConfirmRun);
}

#[test]
fn test_create_config_confirm_run_decline_resets_to_main_menu() {
    let mut state = state_for(Flow::CreateConfig, ConfigStep::ConfirmRun);
    state.config_wizard.config_name = "album".to_string();
    state.config_wizard.set_selected(1);

    let effects = transition(&mut state, TuiEvent::Enter);

    assert_eq!(effect_kinds(&effects), vec![EffectKind::SaveConfig]);
    assert_eq!(state.current_screen, Screen::MainMenu);
}

#[test]
fn test_create_config_confirm_run_decline_saves_config_snapshot() {
    let mut state = state_for(Flow::CreateConfig, ConfigStep::ConfirmRun);
    state.config_wizard.config_name = "album".to_string();
    state.config_wizard.input_dirs = "D:/photos".to_string();
    state.config_wizard.output_dir = "D:/sorted".to_string();
    state.config_wizard.set_selected(1);

    let effects = transition(&mut state, TuiEvent::Enter);

    assert_eq!(state.current_screen, Screen::MainMenu);
    match &effects[0] {
        Effect::SaveConfig { name, config } => {
            assert_eq!(name, "album");
            assert_eq!(config.input_dirs, vec!["D:/photos".to_string()]);
            assert_eq!(config.output_dir, "D:/sorted".to_string());
        }
        other => panic!("expected SaveConfig effect, got {other:?}"),
    }
}

#[test]
fn test_config_form_next_validates_and_advances_to_summary() {
    let mut state = state_for(Flow::CreateConfig, ConfigStep::ConfigForm);
    state.config_wizard.config_name = "album".to_string();
    state.config_wizard.input_dirs = "D:/photos".to_string();
    state.config_wizard.output_dir = "D:/sorted".to_string();
    state.config_wizard.form_state.selected_field = 12;
    assert!(state.config_wizard.is_next_selected());

    let effects = transition(&mut state, TuiEvent::Enter);

    assert_eq!(state.config_wizard.step, ConfigStep::Summary);
    assert!(effects.is_empty());
}

#[test]
fn test_config_form_next_invalid_sets_error_message() {
    let mut state = state_for(Flow::CreateConfig, ConfigStep::ConfigForm);
    state.config_wizard.form_state.selected_field = 12;

    let effects = transition(&mut state, TuiEvent::Enter);

    assert_eq!(state.config_wizard.step, ConfigStep::ConfigForm);
    assert!(state.config_wizard.error_message.is_some());
    assert!(effects.is_empty());
}

#[test]
fn test_preserve_standard_names_visible_only_when_unify_enabled() {
    let mut state = state_for(Flow::CreateConfig, ConfigStep::ConfigForm);

    assert!(!FormField::PreserveStandardNames.is_visible(&state.config_wizard));

    state.config_wizard.unify_filenames.select_by_index(1);
    assert!(FormField::PreserveStandardNames.is_visible(&state.config_wizard));
}

#[test]
fn test_config_form_input_mode_interactions() {
    let mut state = state_for(Flow::RunDirect, ConfigStep::ConfigForm);

    transition(&mut state, TuiEvent::Enter);
    assert!(state.config_wizard.is_in_input_mode());

    transition(&mut state, TuiEvent::Char('h'));
    transition(&mut state, TuiEvent::Char('i'));
    assert_eq!(state.config_wizard.input_buffer(), "hi");
    assert_eq!(state.config_wizard.input_cursor(), 2);

    transition(&mut state, TuiEvent::Home);
    assert_eq!(state.config_wizard.input_cursor(), 0);
    transition(&mut state, TuiEvent::End);
    assert_eq!(state.config_wizard.input_cursor(), 2);

    transition(&mut state, TuiEvent::Backspace);
    assert_eq!(state.config_wizard.input_buffer(), "h");
    assert_eq!(state.config_wizard.input_cursor(), 1);

    transition(&mut state, TuiEvent::Char('e'));
    assert_eq!(state.config_wizard.input_buffer(), "he");
    transition(&mut state, TuiEvent::Left);
    assert_eq!(state.config_wizard.input_cursor(), 1);
    transition(&mut state, TuiEvent::Delete);
    assert_eq!(state.config_wizard.input_buffer(), "h");

    transition(&mut state, TuiEvent::Escape);
    assert!(!state.config_wizard.is_in_input_mode());
    assert_eq!(state.config_wizard.input_dirs, "");

    transition(&mut state, TuiEvent::Enter);
    assert!(state.config_wizard.is_in_input_mode());
    transition(&mut state, TuiEvent::Char('D'));
    transition(&mut state, TuiEvent::Enter);
    assert!(!state.config_wizard.is_in_input_mode());
    assert_eq!(state.config_wizard.input_dirs, "D");
}

#[test]
fn main_menu_choices_open_the_wizard() {
    let mut state = AppState::default();
    let mut effects = Vec::new();
    assert!(!choose_menu_item(&mut state, MenuItem::RunConfig, &mut effects));
    assert_eq!(state.current_screen, Screen::ConfigWizard);
    assert_eq!(state.config_wizard.step, ConfigStep::ConfigSelect);
    assert_eq!(effect_kinds(&effects), vec![EffectKind::RefreshConfigs]);

    let mut state = AppState::default();
    let mut effects = Vec::new();
    assert!(!choose_menu_item(&mut state, MenuItem::RunDirect, &mut effects));
    assert_eq!(state.config_wizard.step, ConfigStep::ConfigForm);
    assert_eq!(state.config_wizard.flow, WizardFlow::RunDirect);
    assert!(effects.is_empty());
    assert!(choose_menu_item(&mut state, MenuItem::Exit, &mut effects));
}

#[test]
fn summary_and_exit_screens() {
    let mut state = state_for(Flow::CreateConfig, ConfigStep::Summary);
    state.current_screen = Screen::Summary;
    handle_summary_event(&mut state, TuiEvent::Char('x'));
    assert_eq!(state.current_screen, Screen::Summary);
    handle_summary_event(&mut state, TuiEvent::Enter);
    assert_eq!(state.current_screen, Screen::MainMenu);

    state.current_screen = Screen::Exit;
    state.should_exit = true;
    assert!(!handle_exit_event(&mut state, TuiEvent::Char('n')));
    assert_eq!(state.current_screen, Screen::MainMenu);
    assert!(!state.should_exit);
    assert!(handle_exit_event(&mut state, TuiEvent::Char('Y')));
}

#[test]
fn a_configuration_loaded_into_the_wizard_builds_back_the_same() {
    let config = Config {
        input_dirs: vec!["D:/Photos".to_string(), "D:/Videos".to_string()],
        output_dir: "D:/Sorted".to_string(),
        exclude_dirs: vec![".sync".to_string()],
        processing_mode: ProcessingMode::Full,
        classification: ClassificationRule::Year,
        month_format: MonthFormat::Combined,
        classify_by_type: true,
        operation: FileOperation::Move,
        deduplicate: false,
        dry_run: true,
        unify_filenames: true,
        preserve_standard_names: true,
        threads: 8,
        verbose: true,
        ..Default::default()
    };
    let mut wizard = ConfigWizardState::new();
    wizard.init_from_config(&config, "D:/Config/album.toml");
    assert_eq!(wizard.input_dirs, "D:/Photos; D:/Videos");
    assert_eq!(wizard.config_name, "album");

    let built = wizard.build_config();
    assert_eq!(built.input_dirs, config.input_dirs);
    assert_eq!(built.output_dir, config.output_dir);
    assert_eq!(built.exclude_dirs, config.exclude_dirs);
    assert_eq!(built.processing_mode, ProcessingMode::Full);
    assert_eq!(built.classification, ClassificationRule::Year);
    assert_eq!(built.month_format, MonthFormat::Combined);
    assert!(built.classify_by_type);
    assert_eq!(built.operation, FileOperation::Move);
    assert!(!built.deduplicate);
    assert!(built.dry_run);
    assert!(built.unify_filenames);
    assert!(built.preserve_standard_names);
    // Settings the wizard does not show take their defaults.
    assert_eq!(built.threads, Config::default().threads);
    assert!(!built.verbose);
}

#[test]
fn option_selections_step_forward_and_back() {
    let mut s: EnumSelection<ProcessingMode> = EnumSelection::new();
    for _ in 0..s.count() {
        let before = s.selected();
        s.next();
        s.prev();
        assert_eq!(s.selected(), before);
        s.prev();
        s.next();
        assert_eq!(s.selected(), before);
        s.next();
    }
    assert_eq!(s.selected(), ProcessingMode::default());
    let start = s.selected();
    for _ in 0..s.count() {
        s.next();
    }
    assert_eq!(s.selected(), start);
    let mut b = BoolSelection::new(false);
    b.next();
    assert!(b.value());
    b.prev();
    assert!(!b.value());
}

#[test]
fn the_main_menu_lists_its_entries_in_order_and_wraps() {
    let mut menu: EnumSelection<MenuItem> = EnumSelection::new();
    assert_eq!(menu.count(), 4);
    assert_eq!(menu.selected(), MenuItem::RunDirect);
    menu.next();
    assert_eq!(menu.selected(), MenuItem::RunConfig);
    menu.next();
    assert_eq!(menu.selected(), MenuItem::CreateConfig);
    menu.next();
    assert_eq!(menu.selected(), MenuItem::Exit);
    menu.next();
    assert_eq!(menu.selected(), MenuItem::RunDirect);
    menu.prev();
    assert_eq!(menu.selected(), MenuItem::Exit);
    assert_eq!(menu.index(), 3);
}
