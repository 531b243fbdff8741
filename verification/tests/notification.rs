use parkplatz::notification::{escape_applescript, notify_command, ps_quote, Platform};

#[test]
fn applescript_escaping_quotes_backslashes() {
    assert_eq!(escape_applescript(r#"a"b\c"#), r#"a\"b\\c"#);
}

#[test]
fn powershell_escaping_single_quotes() {
    assert_eq!(ps_quote("it's"), "it''s");
}

#[test]
fn empty_strings_pass_through() {
    assert_eq!(escape_applescript(""), "");
    assert_eq!(ps_quote(""), "");
}

#[test]
fn applescript_escaping_leaves_plain_text_alone() {
    assert_eq!(escape_applescript("feature/x Grüße"), "feature/x Grüße");
    assert_eq!(escape_applescript("\\\\\""), "\\\\\\\\\\\"");
}

#[test]
fn powershell_quoting_doubles_every_quote() {
    assert_eq!(ps_quote("''a'"), "''''a''");
    assert_eq!(ps_quote("no quotes"), "no quotes");
}

#[test]
fn linux_passes_title_and_body_as_separate_arguments() {
    let cmd = notify_command(Platform::Linux, "feature/x", "a \"b\"; rm -rf ~").unwrap();
    assert_eq!(cmd.program, "notify-send");
    assert_eq!(
        cmd.args,
        vec![
            "--app-name=Parkplatz".to_string(),
            "feature/x".to_string(),
            "a \"b\"; rm -rf ~".to_string()
        ]
    );
}

#[test]
fn macos_script_escapes_title_and_body() {
    let cmd = notify_command(Platform::MacOs, "br\"anch", "say \\ \"hi\"").unwrap();
    assert_eq!(cmd.program, "osascript");
    assert_eq!(cmd.args.len(), 2);
    assert_eq!(cmd.args[0], "-e");
    assert_eq!(
        cmd.args[1],
        "display notification \"say \\\\ \\\"hi\\\"\" with title \"br\\\"anch\""
    );
}

#[test]
fn windows_script_quotes_title_and_body() {
    let cmd = notify_command(Platform::Windows, "it's", "don't").unwrap();
    assert_eq!(cmd.program, "powershell");
    assert_eq!(cmd.args.len(), 4);
    assert_eq!(cmd.args[0], "-NoProfile");
    assert_eq!(cmd.args[1], "-NonInteractive");
    assert_eq!(cmd.args[2], "-Command");
    let script = &cmd.args[3];
    assert!(script.starts_with("$ErrorActionPreference = 'SilentlyContinue'\n[Windows.UI.Notifications.ToastNotificationManager"));
    assert!(script.contains("$toastXml.GetElementsByTagName('text')[0].InnerText = 'it''s'\n$toastXml.GetElementsByTagName('text')[1].InnerText = 'don''t'\n$toast = "));
    assert!(script.ends_with("CreateToastNotifier('Parkplatz').Show($toast)"));
    assert_eq!(script.lines().count(), 9);
}

#[test]
fn other_platforms_have_no_notifier() {
    assert!(notify_command(Platform::Other, "t", "b").is_none());
}

#[test]
fn powershell_quoting_doubles_typographic_quotes() {
    assert_eq!(ps_quote("\u{2019}"), "\u{2019}\u{2019}");
    assert_eq!(ps_quote("a\u{2018}b\u{201a}c\u{201b}"), "a\u{2018}\u{2018}b\u{201a}\u{201a}c\u{201b}\u{201b}");
    assert_eq!(ps_quote("\u{201c}"), "\u{201c}");
}
