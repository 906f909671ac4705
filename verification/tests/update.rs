use forest_ear_bot::steamcmd::{
    console_log_path, default_steamcmd_path, invalid_reason, render_result, running_notice,
    timeout_secs, truncate_invocation, update_arguments, validate_executable, Outcome,
};

fn args(words: &[&str]) -> Vec<String> {
    words.iter().map(|w| w.to_string()).collect()
}

#[test]
fn invalid_reason_flags_missing_quit() {
    assert!(invalid_reason(&args(&[])).is_some());
    assert!(invalid_reason(&args(&["+login", "anonymous"])).is_some());
    assert!(invalid_reason(&args(&["+login", "anonymous", "+quit"])).is_none());
}

#[test]
fn console_log_path_sits_in_logs_next_to_the_exe() {
    let exe = "C:/Games/steamcmd/steamcmd.exe";
    assert_eq!(
        console_log_path(exe, false),
        "C:/Games/steamcmd/logs/console_log.txt"
    );
}

#[test]
fn console_log_path_of_a_bare_name_is_relative() {
    assert_eq!(console_log_path("steamcmd.exe", false), "logs/console_log.txt");
    assert_eq!(console_log_path("/", false), "./logs/console_log.txt");
    assert_eq!(
        console_log_path("C:\\steam\\steamcmd.exe", true),
        "C:\\steam\\logs\\console_log.txt"
    );
}

#[test]
fn arguments_split_on_any_whitespace() {
    assert_eq!(
        update_arguments("  +login anonymous\t+app_update 2394010 validate\n+quit "),
        args(&["+login", "anonymous", "+app_update", "2394010", "validate", "+quit"])
    );
    assert!(update_arguments(" \u{3000} ").is_empty());
}

#[test]
fn refusal_messages_name_the_problem() {
    assert!(invalid_reason(&args(&[])).unwrap().starts_with("No arguments given."));
    assert!(invalid_reason(&args(&["+login"])).unwrap().starts_with("Missing `+quit`."));
}

#[test]
fn timeout_reads_the_variable_like_parse() {
    assert_eq!(timeout_secs(None), 1800);
    assert_eq!(timeout_secs(Some("600".to_string())), 600);
    assert_eq!(timeout_secs(Some("+90".to_string())), 90);
    assert_eq!(timeout_secs(Some(" 90".to_string())), 1800);
    assert_eq!(timeout_secs(Some("-1".to_string())), 1800);
    assert_eq!(timeout_secs(Some("+".to_string())), 1800);
    assert_eq!(timeout_secs(Some("".to_string())), 1800);
    assert_eq!(timeout_secs(Some("18446744073709551615".to_string())), u64::MAX);
    assert_eq!(timeout_secs(Some("18446744073709551616".to_string())), 1800);
    for s in ["0", "007", "12a", "99999999999999999999", "+0"] {
        let expected = s.parse::<u64>().ok().unwrap_or(1800);
        assert_eq!(timeout_secs(Some(s.to_string())), expected, "input {}", s);
    }
}

#[test]
fn running_notice_states_minutes() {
    assert_eq!(
        running_notice(1800),
        "Running SteamCMD (killed if it runs past 30 minutes)\u{2026}"
    );
    assert_eq!(
        running_notice(59),
        "Running SteamCMD (killed if it runs past 0 minutes)\u{2026}"
    );
}

#[test]
fn executable_checks_report_each_failure() {
    assert_eq!(validate_executable("/x/steamcmd.exe".to_string(), true, true), Ok("/x/steamcmd.exe".to_string()));
    assert_eq!(
        validate_executable("/x/steamcmd.exe".to_string(), false, false),
        Err("SteamCMD not found at /x/steamcmd.exe. Set STEAMCMD_PATH, or place it at Desktop/steamcmd/steamcmd.exe.".to_string())
    );
    assert_eq!(
        validate_executable("/x".to_string(), true, false),
        Err("/x is not a file.".to_string())
    );
    assert_eq!(default_steamcmd_path("/home/u/Desktop", false), "/home/u/Desktop/steamcmd/steamcmd.exe");
}

#[test]
fn long_invocations_are_clipped_by_characters() {
    let long = "\u{e9}".repeat(2000);
    let clipped = truncate_invocation(&long);
    assert_eq!(clipped.chars().count(), 1500);
    assert!(clipped.ends_with('\u{2026}'));
    assert_eq!(truncate_invocation("+quit"), "+quit");
    let exact = "x".repeat(1500);
    assert_eq!(truncate_invocation(&exact), exact);
}

#[test]
fn report_lines_and_attachments() {
    let a = args(&["+login", "anonymous", "+quit"]);
    let ok = render_result(&a, Outcome::Ran { code: Some(0), stdout: b"out".to_vec(), stderr: Vec::new() }, b"log".to_vec());
    assert_eq!(ok.content, "SteamCMD (`+login anonymous +quit`) finished successfully.");
    let names: Vec<&str> = ok.files.iter().map(|f| f.name).collect();
    assert_eq!(names, ["stdout.log", "steamcmd_console.log"]);
    assert_eq!(ok.files[0].bytes, b"out");

    let failed = render_result(&a, Outcome::Ran { code: Some(-7), stdout: Vec::new(), stderr: b"e".to_vec() }, Vec::new());
    assert_eq!(failed.content, "SteamCMD (`+login anonymous +quit`) exited with code -7.");
    assert_eq!(failed.files.len(), 1);
    assert_eq!(failed.files[0].name, "stderr.log");

    let signal = render_result(&a, Outcome::Ran { code: None, stdout: Vec::new(), stderr: Vec::new() }, Vec::new());
    assert_eq!(signal.content, "SteamCMD (`+login anonymous +quit`) was terminated by a signal.");
    assert!(signal.files.is_empty());

    let timed_out = render_result(&a, Outcome::TimedOut, Vec::new());
    assert_eq!(timed_out.content, "SteamCMD (`+login anonymous +quit`) did not finish and was killed after timing out.");

    let start = render_result(&a, Outcome::FailedToStart("not found".to_string()), b"x".to_vec());
    assert_eq!(start.content, "Could not start SteamCMD (`+login anonymous +quit`): not found");
    assert_eq!(start.files.len(), 1);
}

#[test]
fn validate_executable_accepts_a_real_file() {
    let exe = "/tmp/update_test/steamcmd.exe".to_string();
    assert_eq!(validate_executable(exe.clone(), true, true), Ok(exe));
}

#[test]
fn validate_executable_rejects_a_missing_path() {
    assert!(validate_executable("/tmp/definitely_not_here_steamcmd.exe".to_string(), false, false).is_err());
}

#[test]
fn validate_executable_rejects_a_directory() {
    assert!(validate_executable("/tmp".to_string(), true, false).is_err());
}

#[test]
fn status_lines_stay_under_the_message_limit() {
    let long: Vec<String> = (0..400).map(|i| format!("+arg{}", i)).chain(["+quit".to_string()]).collect();
    for outcome in [
        Outcome::TimedOut,
        Outcome::Ran { code: Some(i32::MIN), stdout: Vec::new(), stderr: Vec::new() },
        Outcome::Ran { code: None, stdout: Vec::new(), stderr: Vec::new() },
    ] {
        let report = render_result(&long, outcome, Vec::new());
        assert!(report.content.chars().count() <= 1561, "too long: {}", report.content.chars().count());
    }
    let report = render_result(&long, Outcome::FailedToStart("not found".to_string()), Vec::new());
    assert!(report.content.chars().count() <= 1561 + 9);
}
