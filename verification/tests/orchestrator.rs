use zelp::commands::ZellijCommand;
use zelp::model::{BootstrapError, Settings, State, TabStep};
use zelp::orchestrator::{Action, Orchestrator, Outcome};
use zelp::session_config::{SessionConfig, TabConfig};

/// What a driver did, with nothing borrowed.
#[derive(Debug, Clone, PartialEq, Eq)]
enum Did {
    List,
    Launch(String),
    NewTab,
    GoToTab(usize),
    RenameTab(String),
    WriteChars(String),
    Sleep(u64),
    WaitForExit,
}

/// How a bootstrap ended.
#[derive(Debug, Clone, PartialEq, Eq)]
enum End {
    Finished,
    Aborted(BootstrapError),
}

fn tab(name: &str, focus: bool, commands: &[&str]) -> TabConfig {
    TabConfig {
        name: name.to_string(),
        focus,
        commands: commands.iter().map(|c| c.to_string()).collect(),
    }
}

fn plain_tabs(count: usize) -> Vec<TabConfig> {
    (0..count).map(|i| tab(&format!("tab{}", i), false, &[])).collect()
}

fn config(tabs: Vec<TabConfig>) -> SessionConfig {
    SessionConfig::new("dev".to_string(), String::new(), tabs)
}

fn scenario() -> SessionConfig {
    config(vec![tab("editor", true, &["vim"]), tab("shell", false, &[])])
}

fn record(action: Action<'_>) -> Did {
    match action {
        Action::ListSessions => Did::List,
        Action::Launch { session_name } => Did::Launch(session_name.to_string()),
        Action::Invoke(command) => {
            assert_eq!(command.session_name(), "dev");
            match command {
                ZellijCommand::NewTab { tab_name, .. } => {
                    assert_eq!(tab_name, None);
                    Did::NewTab
                }
                ZellijCommand::GoToTab { tab_index, .. } => Did::GoToTab(tab_index),
                ZellijCommand::RenameTab { new_name, .. } => Did::RenameTab(new_name.to_string()),
                ZellijCommand::WriteChars { chars, .. } => {
                    let args = command.args();
                    assert_eq!(args[4], format!("{}\n", chars));
                    Did::WriteChars(args[4].clone())
                }
            }
        }
        Action::Sleep { millis } => Did::Sleep(millis),
        Action::WaitForExit => Did::WaitForExit,
        Action::Finish => unreachable!(),
        Action::Abort(_) => unreachable!(),
    }
}

/// Drives a bootstrap to its end. The queries are answered from `listings`
/// in turn, and with the last of them once they run out. The action number
/// `fail_at` (from 0), if any, is reported as failed.
fn drive(
    config: SessionConfig,
    settings: Settings,
    listings: &[&str],
    fail_at: Option<usize>,
) -> (Vec<Did>, End) {
    let mut orchestrator = Orchestrator::new(config, settings);
    let mut done: Vec<Did> = Vec::new();
    let mut queries = 0;
    loop {
        let outcome = match orchestrator.action() {
            Action::Finish => return (done, End::Finished),
            Action::Abort(error) => return (done, End::Aborted(error)),
            action => {
                let did = record(action);
                let outcome = if fail_at == Some(done.len()) {
                    Outcome::Failed
                } else if did == Did::List {
                    let listing = listings[queries.min(listings.len() - 1)];
                    queries += 1;
                    Outcome::Sessions(listing)
                } else {
                    Outcome::Completed
                };
                done.push(did);
                outcome
            }
        };
        orchestrator.advance(outcome);
        assert!(done.len() < 10_000);
    }
}

fn commands_of(done: &[Did]) -> Vec<Did> {
    done.iter()
        .filter(|did| !matches!(did, Did::List | Did::Launch(_) | Did::Sleep(_) | Did::WaitForExit))
        .cloned()
        .collect()
}

fn count(done: &[Did], what: &Did) -> usize {
    done.iter().filter(|did| *did == what).count()
}

#[test]
fn default_settings() {
    let settings = Settings::default();
    assert_eq!(settings.max_retries, 5);
    assert_eq!(settings.poll_interval_ms, 50);
    assert_eq!(settings.settle_delay_ms, 150);
}

#[test]
fn a_new_orchestrator_is_idle_and_asks_for_the_listing() {
    let orchestrator = Orchestrator::new(scenario(), Settings::default());
    assert_eq!(orchestrator.state(), State::Idle);
    assert_eq!(orchestrator.action(), Action::ListSessions);
    assert!(!orchestrator.is_terminal());
    assert_eq!(orchestrator.config(), &scenario());
    assert_eq!(orchestrator.settings(), Settings::default());
}

#[test]
fn the_action_stays_until_an_outcome_is_reported() {
    let mut orchestrator = Orchestrator::new(scenario(), Settings::default());
    assert_eq!(orchestrator.action(), orchestrator.action());
    orchestrator.advance(Outcome::Sessions(""));
    assert_eq!(orchestrator.action(), Action::Launch { session_name: "dev" });
    assert_eq!(orchestrator.action(), Action::Launch { session_name: "dev" });
}

#[test]
fn two_tabs_with_one_command() {
    let (done, end) = drive(scenario(), Settings::default(), &["", "dev\n"], None);
    assert_eq!(end, End::Finished);
    assert_eq!(
        done,
        vec![
            Did::List,
            Did::Launch("dev".to_string()),
            Did::List,
            Did::NewTab,
            Did::Sleep(150),
            Did::GoToTab(1),
            Did::Sleep(150),
            Did::RenameTab("editor".to_string()),
            Did::Sleep(150),
            Did::WriteChars("vim\n".to_string()),
            Did::Sleep(150),
            Did::GoToTab(2),
            Did::Sleep(150),
            Did::RenameTab("shell".to_string()),
            Did::Sleep(150),
            Did::GoToTab(1),
            Did::WaitForExit,
        ]
    );
    assert_eq!(
        commands_of(&done),
        vec![
            Did::NewTab,
            Did::GoToTab(1),
            Did::RenameTab("editor".to_string()),
            Did::WriteChars("vim\n".to_string()),
            Did::GoToTab(2),
            Did::RenameTab("shell".to_string()),
            Did::GoToTab(1),
        ]
    );
}

#[test]
fn states_of_the_two_tab_bootstrap() {
    let mut orchestrator = Orchestrator::new(scenario(), Settings::default());
    let mut states = vec![orchestrator.state()];
    let outcomes = [Outcome::Sessions("main\n"), Outcome::Completed, Outcome::Sessions("main\ndev\n")];
    for outcome in outcomes {
        orchestrator.advance(outcome);
        states.push(orchestrator.state());
    }
    while !orchestrator.is_terminal() {
        orchestrator.advance(Outcome::Completed);
        states.push(orchestrator.state());
    }
    let configuring = |tab, step, settling| State::ConfiguringTabs { tab, step, settling };
    assert_eq!(
        states,
        vec![
            State::Idle,
            State::Launching,
            State::WaitingForSession { polls: 0, pausing: false },
            State::CreatingTabs { created: 0 },
            State::CreatingTabs { created: 1 },
            configuring(0, TabStep::Focus, false),
            configuring(0, TabStep::Focus, true),
            configuring(0, TabStep::Rename, false),
            configuring(0, TabStep::Rename, true),
            configuring(0, TabStep::Command(0), false),
            configuring(0, TabStep::Command(0), true),
            configuring(1, TabStep::Focus, false),
            configuring(1, TabStep::Focus, true),
            configuring(1, TabStep::Rename, false),
            configuring(1, TabStep::Rename, true),
            State::RestoringFocus,
            State::Attached,
            State::Exited,
        ]
    );
    assert_eq!(orchestrator.action(), Action::Finish);
}

#[test]
fn one_new_tab_less_than_tabs() {
    for tabs in 1..=6usize {
        let (done, end) = drive(config(plain_tabs(tabs)), Settings::default(), &["", "dev"], None);
        assert_eq!(end, End::Finished);
        assert_eq!(count(&done, &Did::NewTab), tabs - 1);
        assert_eq!(commands_of(&done)[..tabs - 1], vec![Did::NewTab; tabs - 1][..]);
    }
}

#[test]
fn no_tabs_configured() {
    let (done, end) = drive(config(vec![]), Settings::default(), &["", "dev"], None);
    assert_eq!(end, End::Finished);
    assert_eq!(
        done,
        vec![
            Did::List,
            Did::Launch("dev".to_string()),
            Did::List,
            Did::Sleep(150),
            Did::GoToTab(1),
            Did::WaitForExit,
        ]
    );
}

#[test]
fn a_single_tab_needs_no_new_tab() {
    let (done, end) = drive(config(vec![tab("only", false, &[])]), Settings::default(), &["", "dev"], None);
    assert_eq!(end, End::Finished);
    assert_eq!(
        commands_of(&done),
        vec![Did::GoToTab(1), Did::RenameTab("only".to_string()), Did::GoToTab(1)]
    );
}

#[test]
fn tab_at_position_i_is_addressed_as_i_plus_one() {
    for tabs in 1..=5usize {
        let (done, _) = drive(config(plain_tabs(tabs)), Settings::default(), &["", "dev"], None);
        let commands = commands_of(&done);
        let setup = &commands[tabs - 1..commands.len() - 1];
        assert_eq!(setup.len(), 2 * tabs);
        for i in 0..tabs {
            assert_eq!(setup[2 * i], Did::GoToTab(i + 1));
            assert_eq!(setup[2 * i + 1], Did::RenameTab(format!("tab{}", i)));
        }
    }
}

#[test]
fn commands_of_a_tab_follow_its_name_in_order() {
    let tabs = vec![
        tab("a", false, &["one", "two", "three"]),
        tab("b", false, &[]),
        tab("c", false, &["four"]),
    ];
    let (done, end) = drive(config(tabs), Settings::default(), &["", "dev"], None);
    assert_eq!(end, End::Finished);
    assert_eq!(
        commands_of(&done),
        vec![
            Did::NewTab,
            Did::NewTab,
            Did::GoToTab(1),
            Did::RenameTab("a".to_string()),
            Did::WriteChars("one\n".to_string()),
            Did::WriteChars("two\n".to_string()),
            Did::WriteChars("three\n".to_string()),
            Did::GoToTab(2),
            Did::RenameTab("b".to_string()),
            Did::GoToTab(3),
            Did::RenameTab("c".to_string()),
            Did::WriteChars("four\n".to_string()),
            Did::GoToTab(1),
        ]
    );
}

#[test]
fn shared_command_comes_before_the_tabs_own() {
    let tabs = vec![tab("a", false, &["vim"]), tab("b", false, &[])];
    let with_before = SessionConfig::new("dev".to_string(), "cd /srv".to_string(), tabs);
    let (done, end) = drive(with_before, Settings::default(), &["", "dev"], None);
    assert_eq!(end, End::Finished);
    assert_eq!(
        commands_of(&done),
        vec![
            Did::NewTab,
            Did::GoToTab(1),
            Did::RenameTab("a".to_string()),
            Did::WriteChars("cd /srv\n".to_string()),
            Did::WriteChars("vim\n".to_string()),
            Did::GoToTab(2),
            Did::RenameTab("b".to_string()),
            Did::WriteChars("cd /srv\n".to_string()),
            Did::GoToTab(1),
        ]
    );
}

#[test]
fn every_command_of_a_tab_is_followed_by_the_settling_pause() {
    let settings = Settings { max_retries: 3, poll_interval_ms: 7, settle_delay_ms: 11 };
    let tabs = vec![tab("a", true, &["x", "y"]), tab("b", false, &["z"])];
    let (done, _) = drive(config(tabs), settings, &["", "dev"], None);
    let first = done.iter().position(|did| *did == Did::GoToTab(1)).unwrap();
    let setup = &done[first..done.len() - 2];
    assert_eq!(setup.len(), 2 * 7);
    for (i, did) in setup.iter().enumerate() {
        assert_eq!(*did == Did::Sleep(11), i % 2 == 1);
    }
    assert_eq!(done[first - 1], Did::Sleep(11));
    assert_eq!(done[first - 2], Did::NewTab);
    assert_eq!(done[done.len() - 2..], [Did::GoToTab(1), Did::WaitForExit]);
}

#[test]
fn focus_is_restored_to_the_marked_tab() {
    for marked in 0..4usize {
        let mut tabs = plain_tabs(4);
        tabs[marked].focus = true;
        let (done, end) = drive(config(tabs), Settings::default(), &["", "dev"], None);
        assert_eq!(end, End::Finished);
        assert_eq!(commands_of(&done).last(), Some(&Did::GoToTab(marked + 1)));
    }
}

#[test]
fn focus_is_restored_to_the_first_tab_when_none_is_marked() {
    let (done, _) = drive(config(plain_tabs(3)), Settings::default(), &["", "dev"], None);
    assert_eq!(commands_of(&done).last(), Some(&Did::GoToTab(1)));
}

#[test]
fn focus_is_restored_to_the_last_tab_marked() {
    let mut tabs = plain_tabs(5);
    tabs[0].focus = true;
    tabs[1].focus = true;
    tabs[3].focus = true;
    let (done, _) = drive(config(tabs), Settings::default(), &["", "dev"], None);
    assert_eq!(commands_of(&done).last(), Some(&Did::GoToTab(4)));
}

#[test]
fn a_session_of_the_same_name_stops_everything() {
    let (done, end) = drive(scenario(), Settings::default(), &["main\ndev\n"], None);
    assert_eq!(end, End::Aborted(BootstrapError::SessionExists));
    assert_eq!(done, vec![Did::List]);
}

#[test]
fn a_session_whose_name_holds_the_name_stops_everything_too() {
    let (done, end) = drive(scenario(), Settings::default(), &["devops [Created 3m ago]\n"], None);
    assert_eq!(end, End::Aborted(BootstrapError::SessionExists));
    assert_eq!(done, vec![Did::List]);
}

#[test]
fn nothing_leads_out_of_a_collision() {
    let mut orchestrator = Orchestrator::new(scenario(), Settings::default());
    orchestrator.advance(Outcome::Sessions("dev"));
    let aborted = State::Aborted(BootstrapError::SessionExists);
    for outcome in [Outcome::Completed, Outcome::Failed, Outcome::Sessions("")] {
        orchestrator.advance(outcome);
        assert_eq!(orchestrator.state(), aborted);
        assert_eq!(orchestrator.action(), Action::Abort(BootstrapError::SessionExists));
        assert!(orchestrator.is_terminal());
    }
}

#[test]
fn a_session_seen_at_once_is_queried_once() {
    let (done, end) = drive(scenario(), Settings::default(), &["", "dev"], None);
    assert_eq!(end, End::Finished);
    assert_eq!(count(&done, &Did::List), 2);
    assert_eq!(count(&done, &Did::Sleep(50)), 0);
}

#[test]
fn a_session_seen_at_the_third_query() {
    let (done, end) = drive(scenario(), Settings::default(), &["", "", "", "dev"], None);
    assert_eq!(end, End::Finished);
    assert_eq!(
        done[..8],
        [
            Did::List,
            Did::Launch("dev".to_string()),
            Did::List,
            Did::Sleep(50),
            Did::List,
            Did::Sleep(50),
            Did::List,
            Did::NewTab,
        ]
    );
}

#[test]
fn a_session_never_seen_is_queried_five_times() {
    let (done, end) = drive(scenario(), Settings::default(), &[""], None);
    assert_eq!(end, End::Finished);
    assert_eq!(count(&done, &Did::List), 1 + 5);
    assert_eq!(count(&done, &Did::Sleep(50)), 5);
    assert_eq!(
        done[..13],
        [
            Did::List,
            Did::Launch("dev".to_string()),
            Did::List,
            Did::Sleep(50),
            Did::List,
            Did::Sleep(50),
            Did::List,
            Did::Sleep(50),
            Did::List,
            Did::Sleep(50),
            Did::List,
            Did::Sleep(50),
            Did::NewTab,
        ]
    );
    let (seen, _) = drive(scenario(), Settings::default(), &["", "dev"], None);
    assert_eq!(commands_of(&done), commands_of(&seen));
}

#[test]
fn the_budget_of_queries_is_a_setting() {
    for budget in 0..8usize {
        let settings = Settings { max_retries: budget, poll_interval_ms: 1, settle_delay_ms: 2 };
        let (done, end) = drive(scenario(), settings, &[""], None);
        assert_eq!(end, End::Finished);
        assert_eq!(count(&done, &Did::List), 1 + budget);
        assert_eq!(count(&done, &Did::Sleep(1)), budget);
    }
}

#[test]
fn without_a_budget_the_tabs_follow_the_launch() {
    let settings = Settings { max_retries: 0, poll_interval_ms: 50, settle_delay_ms: 150 };
    let mut orchestrator = Orchestrator::new(scenario(), settings);
    orchestrator.advance(Outcome::Sessions(""));
    orchestrator.advance(Outcome::Completed);
    assert_eq!(orchestrator.state(), State::CreatingTabs { created: 0 });
}

#[test]
fn a_failure_stops_the_bootstrap_wherever_it_happens() {
    let (whole, _) = drive(scenario(), Settings::default(), &["", "dev"], None);
    for at in 0..whole.len() - 1 {
        let (done, end) = drive(scenario(), Settings::default(), &["", "dev"], Some(at));
        assert_eq!(end, End::Aborted(BootstrapError::LaunchFailed));
        assert_eq!(done[..], whole[..at + 1]);
    }
}

#[test]
fn a_failed_wait_for_the_exit_still_ends_in_exited() {
    let (whole, _) = drive(scenario(), Settings::default(), &["", "dev"], None);
    let (done, end) = drive(scenario(), Settings::default(), &["", "dev"], Some(whole.len() - 1));
    assert_eq!(end, End::Finished);
    assert_eq!(done, whole);
}

#[test]
fn a_failed_launch_gives_launch_failed() {
    let mut orchestrator = Orchestrator::new(scenario(), Settings::default());
    orchestrator.advance(Outcome::Sessions(""));
    orchestrator.advance(Outcome::Failed);
    assert_eq!(orchestrator.state(), State::Aborted(BootstrapError::LaunchFailed));
    assert_eq!(orchestrator.action(), Action::Abort(BootstrapError::LaunchFailed));
}

#[test]
fn a_completion_where_a_listing_is_due_is_unexpected() {
    let mut orchestrator = Orchestrator::new(scenario(), Settings::default());
    orchestrator.advance(Outcome::Completed);
    assert_eq!(orchestrator.state(), State::Aborted(BootstrapError::UnexpectedOutcome));
    assert_eq!(orchestrator.action(), Action::Abort(BootstrapError::UnexpectedOutcome));
}

#[test]
fn a_listing_where_a_completion_is_due_is_unexpected() {
    let mut orchestrator = Orchestrator::new(scenario(), Settings::default());
    orchestrator.advance(Outcome::Sessions(""));
    assert_eq!(orchestrator.state(), State::Launching);
    orchestrator.advance(Outcome::Sessions(""));
    assert_eq!(orchestrator.state(), State::Aborted(BootstrapError::UnexpectedOutcome));
}

#[test]
fn nothing_leads_out_of_exited() {
    let mut orchestrator = Orchestrator::new(config(vec![]), Settings::default());
    orchestrator.advance(Outcome::Sessions(""));
    while !orchestrator.is_terminal() {
        let outcome = match orchestrator.action() {
            Action::ListSessions => Outcome::Sessions("dev"),
            _ => Outcome::Completed,
        };
        orchestrator.advance(outcome);
    }
    for outcome in [Outcome::Completed, Outcome::Failed, Outcome::Sessions("dev")] {
        orchestrator.advance(outcome);
        assert_eq!(orchestrator.state(), State::Exited);
        assert_eq!(orchestrator.action(), Action::Finish);
    }
}

#[test]
fn an_empty_shared_command_is_not_typed() {
    let tabs = vec![tab("a", false, &[])];
    let (done, _) = drive(config(tabs), Settings::default(), &["", "dev"], None);
    assert_eq!(count(&done, &Did::WriteChars("\n".to_string())), 0);
}

#[test]
fn an_empty_command_of_a_tab_is_typed_as_a_line_feed() {
    let tabs = vec![tab("a", false, &[""])];
    let (done, _) = drive(config(tabs), Settings::default(), &["", "dev"], None);
    assert_eq!(count(&done, &Did::WriteChars("\n".to_string())), 1);
}
