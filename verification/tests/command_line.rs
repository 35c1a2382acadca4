use akkhara::cli::{
    check_outcome, install_download, parse_command, suggestions, CheckOutcome, Command, Fetch,
    InstallDownload, Suggestions,
};
use akkhara::prompt::{
    confirm_step, spinner_frame, typed_yes, ConfirmEvent, ConfirmKey, ConfirmStep,
};

fn args(v: &[&str]) -> Vec<String> {
    v.iter().map(|s| s.to_string()).collect()
}

#[test]
fn command_line_is_read() {
    assert!(matches!(parse_command(&args(&["akk"])), Command::Usage));
    assert!(matches!(parse_command(&args(&["akk", "-v"])), Command::Version));
    assert!(matches!(parse_command(&args(&["akk", "version"])), Command::Version));
    assert!(matches!(parse_command(&args(&["akk", "--help"])), Command::Help));
    assert!(matches!(parse_command(&args(&["akk", "check"])), Command::Check));
    assert!(matches!(parse_command(&args(&["akk", "install"])), Command::InstallUsage));
    assert!(matches!(parse_command(&args(&["akk", "install", "json"])), Command::Install(n) if n == "json"));
    assert!(matches!(parse_command(&args(&["akk", "update"])), Command::Update(None)));
    assert!(matches!(parse_command(&args(&["akk", "update", "1.2"])), Command::Update(Some(v)) if v == "1.2"));
    assert!(matches!(parse_command(&args(&["akk", "uninstall"])), Command::Uninstall));
    assert!(matches!(parse_command(&args(&["akk", "prog.akk", "x"])), Command::Run(f) if f == "prog.akk"));
}

#[test]
fn release_check_outcomes() {
    assert!(matches!(check_outcome("", "1.0.0"), CheckOutcome::NoRelease));
    assert!(matches!(check_outcome("v1.0.0", "1.0.0"), CheckOutcome::UpToDate(v) if v == "1.0.0"));
    assert!(matches!(check_outcome("vv2.0", "1.0.0"), CheckOutcome::Different(v) if v == "2.0"));
    assert!(matches!(check_outcome("1.0.0", "1.0.0"), CheckOutcome::UpToDate(_)));
}

#[test]
fn suggestions_prefer_related_names() {
    let names = args(&["JSON-Tools", "http", "yaml"]);
    match suggestions(&names, "json") {
        Suggestions::DidYouMean(v) => assert_eq!(v, args(&["JSON-Tools"])),
        _ => panic!("expected related names"),
    }
    // The query may hold the name too.
    match suggestions(&names, "HTTPS") {
        Suggestions::DidYouMean(v) => assert_eq!(v, args(&["http"])),
        _ => panic!("expected related names"),
    }
    match suggestions(&names, "zzz") {
        Suggestions::Available(v) => assert_eq!(v, names),
        _ => panic!("expected the available names"),
    }
    assert!(matches!(suggestions(&Vec::new(), "x"), Suggestions::Nothing));
}

#[test]
fn suggestions_show_at_most_twenty() {
    let names: Vec<String> = (0..25).map(|i| format!("p{}", i)).collect();
    match suggestions(&names, "zzz") {
        Suggestions::Available(v) => assert_eq!(v, names[..20].to_vec()),
        _ => panic!("expected the available names"),
    }
}

#[test]
fn install_download_outcomes() {
    assert!(matches!(
        install_download(Fetch::Body("src".to_string()), Some("{}".to_string())),
        InstallDownload::Downloaded { source, metadata: Some(m) } if source == "src" && m == "{}"
    ));
    assert!(matches!(install_download(Fetch::Status(404, "nf".to_string()), None), InstallDownload::NotFound));
    assert!(matches!(
        install_download(Fetch::Status(500, "boom".to_string()), None),
        InstallDownload::NetworkError(e) if e == "boom"
    ));
    assert!(matches!(
        install_download(Fetch::Failed("dns".to_string()), None),
        InstallDownload::NetworkError(e) if e == "dns"
    ));
    assert!(matches!(
        install_download(Fetch::Unreadable("utf8".to_string()), None),
        InstallDownload::ReadError(e) if e == "utf8"
    ));
}

fn key(k: ConfirmKey) -> ConfirmEvent {
    ConfirmEvent::Key(k)
}

#[test]
fn confirm_keys() {
    assert!(matches!(confirm_step(true, key(ConfirmKey::Right)), ConfirmStep::Asking(false)));
    assert!(matches!(confirm_step(false, key(ConfirmKey::Up)), ConfirmStep::Asking(true)));
    assert!(matches!(confirm_step(true, key(ConfirmKey::Tab)), ConfirmStep::Asking(false)));
    assert!(matches!(confirm_step(false, key(ConfirmKey::Enter)), ConfirmStep::Answered(false)));
    assert!(matches!(confirm_step(false, key(ConfirmKey::Char('Y', false))), ConfirmStep::Answered(true)));
    assert!(matches!(confirm_step(true, key(ConfirmKey::Char('n', false))), ConfirmStep::Answered(false)));
    assert!(matches!(confirm_step(true, key(ConfirmKey::Char('c', true))), ConfirmStep::Answered(false)));
    assert!(matches!(confirm_step(true, key(ConfirmKey::Char('c', false))), ConfirmStep::Asking(true)));
    assert!(matches!(confirm_step(true, key(ConfirmKey::Esc)), ConfirmStep::Answered(false)));
    assert!(matches!(confirm_step(false, ConfirmEvent::Ignored), ConfirmStep::Asking(false)));
    assert!(matches!(confirm_step(true, ConfirmEvent::ReadFailed), ConfirmStep::Answered(true)));
}

#[test]
fn confirm_tab_twice_then_enter() {
    let s = match confirm_step(true, key(ConfirmKey::Tab)) {
        ConfirmStep::Asking(s) => s,
        _ => panic!(),
    };
    let s = match confirm_step(s, key(ConfirmKey::Tab)) {
        ConfirmStep::Asking(s) => s,
        _ => panic!(),
    };
    assert!(matches!(confirm_step(s, key(ConfirmKey::Enter)), ConfirmStep::Answered(true)));
}

#[test]
fn typed_answers() {
    assert!(typed_yes(""));
    assert!(typed_yes("\n"));
    assert!(typed_yes("y\n"));
    assert!(typed_yes("  YES "));
    assert!(typed_yes("Y"));
    assert!(!typed_yes("no"));
    assert!(!typed_yes("yeah"));
}

#[test]
fn spinner_frames_repeat() {
    assert_eq!(spinner_frame(0), "⠋");
    assert_eq!(spinner_frame(9), "⠏");
    assert_eq!(spinner_frame(10), "⠋");
    assert_eq!(spinner_frame(23), "⠸");
}
