use orion_core::commands::{launch_plan, CommandExecutor};
use orion_core::models::Action;

#[test]
fn bang_commands_start_with_the_mark() {
    let executor = CommandExecutor::new();
    assert!(executor.is_bang_command("!w rust"));
    assert!(executor.is_bang_command("  !g maps"));
    assert!(!executor.is_bang_command("weather"));
    assert!(!executor.is_bang_command(""));
    assert!(!executor.is_bang_command("   "));
}

#[test]
fn bang_queries_split_into_bang_and_term() {
    let executor = CommandExecutor::new();
    assert_eq!(
        executor.parse_bang_command("!w rust language"),
        Some(("!w".to_string(), "rust language".to_string()))
    );
    assert_eq!(executor.parse_bang_command("!w "), None);
    assert_eq!(executor.parse_bang_command("plain words"), None);
    assert_eq!(executor.parse_bang_command("!solo"), None);
}

#[test]
fn file_and_url_actions_use_the_desktop_opener() {
    let file_plan = launch_plan(&Action::OpenFile("/tmp/a.txt".to_string())).unwrap();
    assert_eq!(file_plan.program, "xdg-open");
    assert_eq!(file_plan.args, vec!["/tmp/a.txt".to_string()]);

    let url_plan = launch_plan(&Action::OpenUrl("https://example.org".to_string())).unwrap();
    assert_eq!(url_plan.program, "xdg-open");
    assert_eq!(url_plan.args, vec!["https://example.org".to_string()]);
}

#[test]
fn shell_commands_go_through_the_shell() {
    let plan = launch_plan(&Action::ExecuteCommand("ls -l".to_string())).unwrap();
    assert_eq!(plan.program, "sh");
    assert_eq!(plan.args, vec!["-c".to_string(), "ls -l".to_string()]);
}

#[test]
fn custom_actions_launch_nothing() {
    assert!(launch_plan(&Action::Custom("anything".to_string())).is_none());
}
