use avahi_tui::cli::{cli_definition, cli_from_args, parse_args, ArgsError, CliCommand};
use avahi_tui::config::matcher_dirs;
use avahi_tui::service::ServiceRecord;

#[test]
fn fields_read_by_predicates() {
    let mut record = ServiceRecord::new("nas", "_http._tcp", "local");
    record.hostname = Some("nas.local".to_string());
    record.port = Some(8080);
    record.set_txt("path", "/admin");
    assert_eq!(record.field("name").as_deref(), Some("nas"));
    assert_eq!(record.field("service_type").as_deref(), Some("_http._tcp"));
    assert_eq!(record.field("domain").as_deref(), Some("local"));
    assert_eq!(record.field("hostname").as_deref(), Some("nas.local"));
    assert_eq!(record.field("address"), None);
    assert_eq!(record.field("port").as_deref(), Some("8080"));
    assert_eq!(record.field("txt.path").as_deref(), Some("/admin"));
    assert_eq!(record.field("txt.missing"), None);
    assert_eq!(record.field("other"), None);
    assert_eq!(record.searchable_text(), "nas _http._tcp local nas.local");
    let record = record.with_instance_id();
    assert_eq!(record.id.registration_key(), "nas|_http._tcp|local");
    assert_eq!(record.id.instance, "nas.local||8080");
}

#[test]
fn command_line_settings() {
    let cli = cli_from_args(None, None, true, None, vec!["a".to_string()], vec![]).unwrap();
    assert_eq!(cli.domain, "local");
    assert_eq!(cli.command, CliCommand::Run);
    assert_eq!(cli.config_dirs, vec!["a".to_string()]);
    assert!(cli.fake_discovery);
    let cli = cli_from_args(
        Some("lan".to_string()),
        Some("_ssh._tcp".to_string()),
        false,
        Some("list-commands".to_string()),
        vec!["a".to_string()],
        vec!["b".to_string()],
    )
    .unwrap();
    assert_eq!(cli.domain, "lan");
    assert_eq!(cli.command, CliCommand::ListCommands);
    assert_eq!(cli.config_dirs, vec!["b".to_string()]);
    let layered = vec!["/etc".to_string(), "b".to_string()];
    assert_eq!(matcher_dirs(&cli, &layered), vec!["b".to_string()]);
    let err = cli_from_args(None, None, false, Some("bogus".to_string()), vec![], vec![]).unwrap_err();
    assert_eq!(
        err.message(),
        "unknown subcommand `bogus`; use `list-commands` to see available commands\n"
    );
    let run = cli_from_args(None, None, false, None, vec![], vec![]).unwrap();
    assert_eq!(matcher_dirs(&run, &layered), layered);
}

fn args(list: &[&str]) -> Vec<String> {
    list.iter().map(|s| s.to_string()).collect()
}

#[test]
fn command_line_read_with_clap() {
    let cli = parse_args(&args(&["avahi-tui"])).unwrap();
    assert_eq!(cli.command, CliCommand::Run);
    assert_eq!(cli.domain, "local");
    assert!(cli.config_dirs.is_empty());
    assert_eq!(cli.service_type, None);
    assert!(!cli.fake_discovery);

    let cli = parse_args(&args(&[
        "avahi-tui", "-d", "lan", "--config-dir", "a", "--config-dir", "b", "--service-type",
        "_ssh._tcp", "--fake-discovery",
    ]))
    .unwrap();
    assert_eq!(cli.command, CliCommand::Run);
    assert_eq!(cli.domain, "lan");
    assert_eq!(cli.config_dirs, vec!["a", "b"]);
    assert_eq!(cli.service_type.as_deref(), Some("_ssh._tcp"));
    assert!(cli.fake_discovery);

    let cli = parse_args(&args(&["avahi-tui", "list-commands", "--config-dir", "x"])).unwrap();
    assert_eq!(cli.command, CliCommand::ListCommands);
    assert_eq!(cli.config_dirs, vec!["x"]);

    let cli = parse_args(&args(&["avahi-tui", "--config-dir", "top", "list-commands"])).unwrap();
    assert_eq!(cli.command, CliCommand::ListCommands);
    assert!(cli.config_dirs.is_empty());
}

#[test]
fn command_line_refusals_and_help() {
    match parse_args(&args(&["avahi-tui", "--bogus"])) {
        Err(ArgsError::Stopped(stop)) => {
            assert!(stop.to_stderr);
            assert_eq!(stop.exit_code, 2);
            assert!(stop.message.contains("--bogus"));
        }
        other => panic!("unexpected {other:?}"),
    }
    match parse_args(&args(&["avahi-tui", "nope"])) {
        Err(ArgsError::Stopped(stop)) => assert!(stop.message.contains("nope")),
        other => panic!("unexpected {other:?}"),
    }
    match parse_args(&args(&["avahi-tui", "--help"])) {
        Err(ArgsError::Stopped(stop)) => {
            assert!(!stop.to_stderr);
            assert_eq!(stop.exit_code, 0);
            assert!(stop.message.contains("--fake-discovery"));
            assert!(stop.message.contains("list-commands"));
        }
        other => panic!("unexpected {other:?}"),
    }
    assert_eq!(cli_definition().args.len(), 4);
}
