use chunked_download::events::{should_emit_event, Verbosity};
use chunked_download::gastown::{determine_session_health, session_detail, SessionHealth, TmuxPane, TmuxSession};
use chunked_download::self_test::{default_test_cases, select_test_cases, verdict_passed, SelfTestSession, TestResult};
use chunked_download::setup::{
    check_bd, check_git, check_go, check_gt, check_tmux, compare_versions, generate_voice_guidance,
    setup_status, DependencyInfo, brew_tmux_result, go_install_result, install_route, manual_install_result, InstallRoute,
};
use chunked_download::voice::{get_persona_prompt, get_voice_personas, AgentPersona};

fn dep(name: &str, installed: bool) -> DependencyInfo {
    DependencyInfo {
        name: name.to_string(),
        installed,
        version: None,
        path: None,
        install_url: String::new(),
        install_instructions: String::new(),
    }
}

fn pane(cmd: &str) -> TmuxPane {
    TmuxPane {
        session_name: "main".into(),
        window_index: 0,
        window_name: "w".into(),
        pane_index: 0,
        pane_id: "%1".into(),
        pane_active: true,
        pane_current_command: cmd.into(),
        pane_pid: 42,
    }
}

fn tmux(activity: Option<u64>, attached: bool) -> TmuxSession {
    TmuxSession { name: "main".into(), windows: 1, attached, activity }
}

#[test]
fn versions_compare_part_by_part() {
    assert_eq!(compare_versions("0.43.0", "0.43.0"), 0);
    assert_eq!(compare_versions("0.42.9", "0.43.0"), -1);
    assert_eq!(compare_versions("1.0", "0.43.0"), 1);
    assert_eq!(compare_versions("1.2", "1.2.0"), 0);
    assert_eq!(compare_versions("1.a.3", "1.0.3"), 1);
    assert_eq!(compare_versions("0.10.0", "0.9.0"), 1);
    assert_eq!(compare_versions("+1.0", "1"), 0);
    assert_eq!(compare_versions("", "0"), 0);
    assert_eq!(compare_versions("4294967296", "1"), -1);
}

#[test]
fn gt_needs_its_minimum_version() {
    let ok = check_gt(true, Some("gt version 0.1.0".into()), Some("/go/bin/gt".into()));
    assert!(ok.installed);
    assert_eq!(ok.name, "gt (Gas Town CLI)");
    assert_eq!(ok.install_instructions, "Install gt: `go install github.com/txgsync/gastown/cmd/gt@latest`");
    let old = check_gt(true, Some("gt version 0.0.9".into()), None);
    assert!(!old.installed);
    assert!(old.install_instructions.starts_with("Update gt:"));
    let none = check_gt(false, None, None);
    assert!(!none.installed);
    assert!(none.install_instructions.starts_with("Install gt:"));
    let no_digits = check_gt(true, Some("gt dev build".into()), None);
    assert!(!no_digits.installed);
}

#[test]
fn bd_needs_its_minimum_version() {
    assert!(check_bd(true, Some("bd version 0.43.1 (abc)".into()), None).installed);
    let old = check_bd(true, Some("bd version 0.42.0".into()), None);
    assert!(!old.installed);
    assert_eq!(
        old.install_instructions,
        "Update bd: `go install github.com/mbarnson/beads/cmd/bd@latest` (current version outdated, need >= 0.43.0)"
    );
}

#[test]
fn plain_tools_report_their_lookup() {
    let go = check_go(true, Some("go version go1.22".into()), Some("/usr/bin/go".into()));
    assert_eq!((go.name.as_str(), go.installed), ("Go", true));
    assert_eq!(go.install_url, "https://go.dev/dl/");
    assert_eq!(go.path.as_deref(), Some("/usr/bin/go"));
    assert_eq!(check_git(false, None, None).name, "Git");
    assert!(!check_git(false, None, None).installed);
    assert_eq!(check_tmux(true, None, None).install_url, "https://github.com/tmux/tmux");
}

#[test]
fn guidance_for_each_situation() {
    let all = vec![dep("Git", true), dep("Go", true)];
    assert!(generate_voice_guidance(&all, true).starts_with("All set!"));
    assert!(generate_voice_guidance(&all, false).starts_with("Tools are installed, but"));
    let no_go = vec![dep("Git", true), dep("Go", false)];
    assert_eq!(
        generate_voice_guidance(&no_go, true),
        "You're missing Go. Go is the foundation - you'll need that first. Want me to walk you through the installation?"
    );
    let three = vec![dep("Git", false), dep("tmux", false), dep("gt (Gas Town CLI)", false), dep("Go", true)];
    assert_eq!(
        generate_voice_guidance(&three, true),
        "You're missing Git, tmux, and gt (Gas Town CLI). The Gas Town tools need Go installed first, which you have. Say 'install gt' or 'install bd' to continue."
    );
    let two = vec![dep("Git", false), dep("tmux", false)];
    assert_eq!(
        generate_voice_guidance(&two, false),
        "You're missing Git and tmux. Let me know which one you want to install first."
    );
}

#[test]
fn setup_is_ready_only_when_complete() {
    let s = setup_status(vec![dep("Git", true), dep("Go", false)], true, Some("/home/u/gt".into()));
    assert!(!s.ready);
    assert_eq!(s.missing_count, 1);
    assert!(s.voice_guidance.starts_with("You're missing Go."));
    let t = setup_status(vec![dep("Git", true)], true, None);
    assert!(t.ready);
    assert_eq!(t.missing_count, 0);
}

#[test]
fn health_follows_activity_and_panes() {
    let now = 10_000;
    assert_eq!(determine_session_health(&tmux(Some(now - 5), false), &[pane("zsh")], now), SessionHealth::Active);
    assert_eq!(determine_session_health(&tmux(Some(now - 30), false), &[pane("NVIM")], now), SessionHealth::Processing);
    assert_eq!(determine_session_health(&tmux(Some(now - 30), false), &[pane("ZSH")], now), SessionHealth::Idle);
    assert_eq!(determine_session_health(&tmux(Some(now - 100), false), &[pane("htop")], now), SessionHealth::Processing);
    assert_eq!(determine_session_health(&tmux(Some(now - 1000), false), &[pane("cargo")], now), SessionHealth::Stuck);
    assert_eq!(determine_session_health(&tmux(Some(now - 1000), false), &[pane("bash")], now), SessionHealth::Idle);
    assert_eq!(determine_session_health(&tmux(Some(now - 1000), true), &[pane("htop")], now), SessionHealth::Active);
    assert_eq!(determine_session_health(&tmux(None, false), &[pane("htop")], now), SessionHealth::Processing);
    assert_eq!(determine_session_health(&tmux(Some(now + 50), false), &[pane("htop")], now), SessionHealth::Active);
}

#[test]
fn detail_carries_attach_command() {
    let d = session_detail(tmux(None, true), vec![pane("zsh")], 0);
    assert_eq!(d.connection_string, "tmux attach -t main");
    assert_eq!(d.health, SessionHealth::Active);
    assert_eq!(d.panes.len(), 1);
}

#[test]
fn persona_prompts_end_with_commands() {
    let mayor = get_persona_prompt(AgentPersona::Mayor, None);
    assert!(mayor.starts_with("You are the Mayor of Gas Town - smooth, composed"));
    assert!(mayor.ends_with("- \"How much today?\" - Cost summary"));
    assert!(mayor.contains("\n\nVoice commands you understand:\n"));
    let toast = get_persona_prompt(AgentPersona::Polecat, Some("toast"));
    assert!(toast.starts_with("You are toast, a Polecat in Gas Town"));
    let unknown = get_persona_prompt(AgentPersona::Polecat, None);
    assert!(unknown.starts_with("You are Unknown, a Polecat"));
}

#[test]
fn personas_are_listed_in_order() {
    let ids: Vec<String> = get_voice_personas().into_iter().map(|p| p.id).collect();
    assert_eq!(ids, vec!["default", "mayor", "witness", "refinery", "deacon", "polecat", "crew"]);
}

#[test]
fn default_cases_and_stopping() {
    let cases = default_test_cases();
    let ids: Vec<&str> = cases.iter().map(|c| c.id.as_str()).collect();
    assert_eq!(ids, vec!["nav-dashboard", "convoy-status", "check-blockers", "ready-work", "help-command"]);
    assert_eq!(cases[1].command, "What are the convoys?");
    let mut s = SelfTestSession::idle("s1".into());
    assert_eq!(s.status, "idle");
    s.stop();
    assert_eq!(s.status, "idle");
    s.status = "running".into();
    s.current_test = Some("nav-dashboard".into());
    s.stop();
    assert_eq!(s.status, "stopped");
    assert!(s.current_test.is_none());
}

#[test]
fn verbosity_filters_events() {
    assert_eq!(Verbosity::default(), Verbosity::Normal);
    assert!(should_emit_event("stuck", Verbosity::Quiet));
    assert!(!should_emit_event("mail", Verbosity::Quiet));
    assert!(should_emit_event("mail", Verbosity::Normal));
    assert!(!should_emit_event("nudge", Verbosity::Normal));
    assert!(should_emit_event("nudge", Verbosity::Chatty));
}

#[test]
fn self_test_run_bookkeeping() {
    let all = default_test_cases();
    assert_eq!(select_test_cases(&all, None).len(), 5);
    let ids = vec!["ready-work".to_string(), "nav-dashboard".to_string(), "nope".to_string()];
    let chosen: Vec<String> = select_test_cases(&all, Some(&ids)).into_iter().map(|c| c.id).collect();
    assert_eq!(chosen, vec!["nav-dashboard".to_string(), "ready-work".to_string()]);
    assert!(verdict_passed("pass: dashboard shown"));
    assert!(verdict_passed("PASS"));
    assert!(!verdict_passed("FAIL: nothing"));
    assert!(!verdict_passed(" pass"));
    let mut s = SelfTestSession::running("r1".into(), 2);
    let result = |passed: bool| TestResult {
        test_id: "t".into(),
        command: "c".into(),
        passed,
        tester_output: "c".into(),
        verifier_output: "v".into(),
        duration_ms: 3,
    };
    s.record_result(result(true));
    s.record_result(result(false));
    s.finish(10);
    assert_eq!((s.passed_tests, s.failed_tests, s.results.len()), (1, 1, 2));
    assert_eq!(s.status, "completed");
    assert_eq!(s.duration_ms, 10);
}

#[test]
fn install_routes_and_answers() {
    assert_eq!(install_route("Go"), InstallRoute::GuideGo);
    assert_eq!(install_route("GASTOWN"), InstallRoute::GoInstallGt);
    assert_eq!(install_route("beads"), InstallRoute::GoInstallBd);
    assert_eq!(install_route("TMUX"), InstallRoute::Tmux);
    assert_eq!(install_route("cargo"), InstallRoute::Unknown);
    let go = manual_install_result(InstallRoute::GuideGo, "go");
    assert!(!go.success);
    assert_eq!(go.next_step.as_deref(), Some("https://go.dev/dl/"));
    let unknown = manual_install_result(InstallRoute::Unknown, "cargo");
    assert_eq!(unknown.message, "Unknown dependency: cargo");
    assert_eq!(unknown.voice_response, "I don't know how to install 'cargo'. Check the setup screen for available options.");
    assert!(brew_tmux_result().success);
    let failed = go_install_result(false, false, "go: not found\r\nmore", None);
    assert_eq!(failed.message, "gt installation failed: go: not found\r\nmore");
    assert_eq!(
        failed.voice_response,
        "Hmm, gt installation failed. Error: go: not found. Make sure Go is properly installed and your GOPATH is set."
    );
    let silent = go_install_result(true, false, "", None);
    assert_eq!(silent.voice_response, "bd installation hit a snag: unknown error. Check that Go is working correctly.");
    let warned = go_install_result(true, true, "", Some("Add /h/go/bin to your PATH"));
    assert!(warned.success);
    assert_eq!(warned.next_step.as_deref(), Some("create workspace"));
    assert!(warned.voice_response.starts_with("bd is installed, but you may need to add Go's bin directory to your PATH. Add /h/go/bin"));
    assert_eq!(go_install_result(false, true, "", None).next_step.as_deref(), Some("install bd"));
}
