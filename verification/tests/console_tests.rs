use sea_lantern::console::{
    ban_command, deop_command, join_log_lines, kick_command, op_command, pardon_command,
    player_command, reasoned_command, sent_notice, whitelist_add_command, whitelist_remove_command,
};

#[test]
fn commands_about_one_player() {
    assert_eq!(whitelist_add_command("Steve"), "whitelist add Steve");
    assert_eq!(whitelist_remove_command("Steve"), "whitelist remove Steve");
    assert_eq!(pardon_command("Alex"), "pardon Alex");
    assert_eq!(op_command("Alex"), "op Alex");
    assert_eq!(deop_command("Alex"), "deop Alex");
    assert_eq!(player_command("say", ""), "say ");
}

#[test]
fn reason_is_left_out_when_empty() {
    assert_eq!(ban_command("Steve", ""), "ban Steve");
    assert_eq!(ban_command("Steve", "griefing the spawn"), "ban Steve griefing the spawn");
    assert_eq!(kick_command("Alex", ""), "kick Alex");
    assert_eq!(kick_command("Alex", "afk"), "kick Alex afk");
    assert_eq!(reasoned_command("ban", "Steve", " "), "ban Steve  ");
}

#[test]
fn notice_of_a_sent_command() {
    assert_eq!(sent_notice("op Alex"), "Sent: op Alex");
    assert_eq!(sent_notice(&ban_command("Steve", "")), "Sent: ban Steve");
}

#[test]
fn log_lines_are_joined_by_line_feeds() {
    let lines: Vec<String> = vec!["one".to_string(), "".to_string(), "three".to_string()];
    assert_eq!(join_log_lines(&lines), lines.join("\n"));
    assert_eq!(join_log_lines(&lines), "one\n\nthree");
    assert_eq!(join_log_lines(&Vec::new()), "");
    assert_eq!(join_log_lines(&vec!["only".to_string()]), "only");
    assert_eq!(join_log_lines(&vec![String::new(), String::new()]), "\n");
}
