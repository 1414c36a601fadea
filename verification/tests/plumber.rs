use avahi_tui::plumber::{
    command_files, config_dirs, is_instance_field, parse_command_config, ActionMode,
    MatcherBuilder, Predicate, SYSTEM_CONFIG_DIR,
};
use avahi_tui::command_file::{split_array, strip_comment};
use avahi_tui::service::{ServiceGroup, ServiceRecord};

fn command_toml(name: &str, command: &str) -> String {
    format!(
        r#"
[metadata]
name = "{name}"

[match.service_type]
equals = "_ssh._tcp"

[action]
command = "{command}"
mode = "execute"
"#
    )
}

#[test]
fn later_layers_override_earlier_commands() {
    let mut builder = MatcherBuilder::new();
    builder.start_layer(); // system
    builder
        .add_str("system/ssh", &command_toml("ssh", "ssh system"))
        .unwrap();
    builder
        .add_str("system/mosh", &command_toml("mosh", "mosh system"))
        .unwrap();
    builder.start_layer(); // user overlay
    builder
        .add_str("user/ssh", &command_toml("ssh", "ssh user"))
        .unwrap();

    let matcher = builder.build();
    assert_eq!(matcher.command_count(), 2);
    // The override keeps the command in its original position.
    assert_eq!(matcher.commands()[0].name, "ssh");
    assert_eq!(matcher.commands()[0].action.command, "ssh user");
    assert_eq!(matcher.commands()[1].name, "mosh");
}

#[test]
fn duplicate_within_one_layer_is_rejected() {
    let mut builder = MatcherBuilder::new();
    builder.start_layer();
    builder.add_str("a", &command_toml("ssh", "ssh a")).unwrap();
    let err = builder
        .add_str("b", &command_toml("ssh", "ssh b"))
        .unwrap_err();
    assert!(err.message().contains("duplicate command name"));
}

#[test]
fn config_dirs_layer_system_then_user_then_extras() {
    let extra = "/tmp/avahi-extra".to_string();
    let dirs = config_dirs(None, Some("/home/user"), std::slice::from_ref(&extra));
    assert_eq!(dirs.first(), Some(&SYSTEM_CONFIG_DIR.to_string()));
    assert_eq!(dirs.last(), Some(&extra));
}

#[test]
fn parses_structured_matcher() {
    let mut builder = MatcherBuilder::new();
    builder
        .add_str(
            "test",
            r#"
[metadata]
name = "ssh"

[match.service_type]
equals = "_ssh._tcp"

[action]
command = "ssh {hostname}"
mode = "execute"
"#,
        )
        .unwrap();

    let matcher = builder.build();
    assert_eq!(matcher.command_count(), 1);

    let command = &matcher.commands()[0];
    assert_eq!(command.name, "ssh");
    assert_eq!(command.description, None);
    assert!(command.requirements.is_empty());
    assert_eq!(command.predicates.len(), 1);
    let predicate = &command.predicates[0];
    assert_eq!(predicate.field, "service_type");
    match &predicate.predicate {
        Predicate::Equals(value) => assert_eq!(value, "_ssh._tcp"),
        _ => panic!("unexpected predicate type"),
    }
    assert_eq!(command.action.description, None);
    assert_eq!(command.action.command, "ssh {hostname}");
    assert_eq!(command.action.mode, ActionMode::Execute);
}

#[test]
fn matcher_filters_records() {
    let mut builder = MatcherBuilder::new();
    builder
        .add_str(
            "ssh",
            r#"
[metadata]
name = "ssh"

[match.service_type]
equals = "_ssh._tcp"

[action]
command = "ssh {hostname}"
mode = "execute"
"#,
        )
        .unwrap();
    let matcher = builder.build();
    let mut record = ServiceRecord::new("alpha", "_ssh._tcp", "local");
    record.hostname = Some("alpha.local".to_string());
    let group = ServiceGroup {
        instances: vec![record],
    };
    assert_eq!(matcher.matches_group(&group).len(), 1);
}

#[test]
fn lists_loaded_command_names() {
    let mut builder = MatcherBuilder::new();
    builder
        .add_str(
            "ssh",
            r#"
[metadata]
name = "ssh"

[match.service_type]
equals = "_ssh._tcp"

[action]
command = "ssh {hostname}"
mode = "execute"
"#,
        )
        .unwrap();
    builder
        .add_str(
            "open-http",
            r#"
[metadata]
name = "open-http"

[match.service_type]
equals = "_http._tcp"

[action]
command = "xdg-open http://{hostname}:{port}"
mode = "execute"
"#,
        )
        .unwrap();

    let matcher = builder.build();
    let names = matcher
        .commands()
        .iter()
        .map(|command| command.name.as_str())
        .collect::<Vec<_>>();
    assert_eq!(names, vec!["ssh", "open-http"]);
}

fn error_of(source: &str) -> String {
    parse_command_config("f.toml", source).unwrap_err().message()
}

#[test]
fn full_command_file_with_comments_arrays_and_escapes() {
    let source = r#"
# a command
[metadata]
name = "web" # trailing comment
description = "Open \"web\" page\tnow"
requirements = ["xdg-open", "a,b", "c#d"]

[match.service_type]
equals = "_http._tcp"
contains = "http"

[match.match.hostname]
regex = "^nas"

[action]
description = "browser"
command = "xdg-open http://{address}:{port}"
mode = "fork"
"#;
    let command = parse_command_config("web.toml", source).unwrap();
    assert_eq!(command.name, "web");
    assert_eq!(command.description.as_deref(), Some("Open \"web\" page\tnow"));
    assert_eq!(command.requirements, vec!["xdg-open", "a,b", "c#d"]);
    // fields in ascending order, kinds in ascending order within a field
    let fields: Vec<&str> = command.predicates.iter().map(|p| p.field.as_str()).collect();
    assert_eq!(fields, vec!["hostname", "service_type", "service_type"]);
    match &command.predicates[0].predicate {
        Predicate::Regex(p) => assert_eq!(p.as_str(), "^nas"),
        _ => panic!("expected a regex"),
    }
    match &command.predicates[1].predicate {
        Predicate::Contains(v) => assert_eq!(v, "http"),
        _ => panic!("expected contains"),
    }
    assert_eq!(command.action.mode, ActionMode::Fork);
    assert_eq!(command.action.mode.label(), "fork");
    assert_eq!(command.action.description.as_deref(), Some("browser"));
    assert!(command.needs_instance());
}

#[test]
fn exec_is_an_alias_of_execute_and_later_keys_win() {
    let source = "[metadata]\nname = \"a\"\nname = \"b\"\n[match.name]\nequals = \"x\"\n[action]\ncommand = \"c\"\nmode = \"exec\"\n";
    let command = parse_command_config("s", source).unwrap();
    assert_eq!(command.name, "b");
    assert_eq!(command.action.mode, ActionMode::Execute);
    assert_eq!(command.action.mode.label(), "execute");
}

#[test]
fn each_error_is_reported_with_its_place() {
    assert_eq!(
        error_of("[metadata]\n[bogus]\n"),
        "f.toml:2: unsupported section `bogus`"
    );
    assert_eq!(error_of("[metadata]\nname\n"), "f.toml:2: expected key = value");
    assert_eq!(error_of("name = \"x\"\n"), "f.toml:1: key outside a section");
    assert_eq!(
        error_of("[metadata]\nname = x\n"),
        "f.toml:2: only quoted strings and string arrays are supported"
    );
    assert_eq!(
        error_of("[metadata]\nname = \"x\" y\n"),
        "f.toml:2: expected quoted string"
    );
    assert_eq!(
        error_of("[metadata]\nname = [\"a\", b]\n"),
        "f.toml:2: expected quoted string"
    );
    assert_eq!(
        error_of("[metadata]\nname = \"x\\\"\n"),
        "f.toml:2: trailing string escape"
    );
    assert_eq!(error_of("[action]\ncommand = \"c\"\n"), "f.toml: missing `name`");
    assert_eq!(error_of("[metadata]\nname = [\"a\"]\n"), "`name` must be a string");
    assert_eq!(
        error_of("[metadata]\nname = \"a\"\nrequirements = \"r\"\n"),
        "`requirements` must be an array"
    );
    assert_eq!(
        error_of("[metadata]\nname = \"a\"\n[action]\ncommand = \"c\"\nmode = \"run\"\n"),
        "f.toml: invalid action mode `run`"
    );
    assert_eq!(
        error_of("[metadata]\nname = \"a\"\n[action]\ncommand = \"c\"\nmode = \"fork\"\n[match.port]\nequals = [\"1\"]\n"),
        "f.toml: match `port.equals` must be a string"
    );
    assert_eq!(
        error_of("[metadata]\nname = \"a\"\n[action]\ncommand = \"c\"\nmode = \"fork\"\n[match.port]\nabove = \"1\"\n"),
        "f.toml: unsupported predicate `port.above`"
    );
    assert_eq!(
        error_of("[metadata]\nname = \"a\"\n[action]\ncommand = \"c\"\nmode = \"fork\"\n"),
        "f.toml: command `a` has no match predicates"
    );
    assert!(!error_of(
        "[metadata]\nname = \"a\"\n[action]\ncommand = \"c\"\nmode = \"fork\"\n[match.name]\nregex = \"(\"\n"
    )
    .is_empty());
    assert_eq!(error_of("[action]\nmode = \"fork\"\n[metadata]\nname = \"a\"\n"), "f.toml: missing `command`");
}

#[test]
fn matching_reads_fields_and_counts_instances() {
    let source = "[metadata]\nname = \"ssh\"\n[match.service_type]\nequals = \"_ssh._tcp\"\n[match.txt.path]\ncontains = \"adm\"\n[action]\ncommand = \"ssh {address}\"\nmode = \"execute\"\n";
    let mut builder = MatcherBuilder::new();
    builder.add_str("ssh", source).unwrap();
    let matcher = builder.build();
    let mut a = ServiceRecord::new("w", "_ssh._tcp", "local");
    a.set_txt("path", "/admin");
    let mut b = a.clone();
    b.address = Some("192.168.1.21".to_string());
    let c = ServiceRecord::new("w", "_ssh._tcp", "local");
    let group = ServiceGroup {
        instances: vec![a, b, c],
    };
    let matches = matcher.matches_group(&group);
    assert_eq!(matches.len(), 1);
    assert_eq!(matches[0].matching_records.len(), 2);
    assert!(matches[0].needs_instance);
    let empty = ServiceGroup { instances: vec![] };
    assert!(matcher.matches_group(&empty).is_empty());
}

#[test]
fn instance_fields_and_command_files() {
    assert!(is_instance_field("address"));
    assert!(is_instance_field("port"));
    assert!(!is_instance_field("hostname"));
    let names: Vec<String> = ["b.toml", ".toml", "a.toml", "c.txt", "x.TOML", "a..toml"]
        .iter()
        .map(|s| s.to_string())
        .collect();
    assert_eq!(command_files(&names), vec!["a..toml", "a.toml", "b.toml"]);
}

#[test]
fn config_dirs_prefer_xdg_config_home() {
    let dirs = config_dirs(Some("/x/"), Some("/home/u"), &[]);
    assert_eq!(
        dirs,
        vec![SYSTEM_CONFIG_DIR.to_string(), "/x/avahi-tui/commands".to_string()]
    );
    let dirs = config_dirs(None, Some("/home/u"), &[]);
    assert_eq!(dirs[1], "/home/u/.config/avahi-tui/commands");
    let dirs = config_dirs(None, None, &["a".to_string(), "b".to_string()]);
    assert_eq!(dirs, vec![SYSTEM_CONFIG_DIR.to_string(), "a".to_string(), "b".to_string()]);
}

fn chars(s: &str) -> Vec<char> {
    s.chars().collect()
}

fn text(cs: &[char]) -> String {
    cs.iter().collect()
}

#[test]
fn comments_and_array_items_respect_quotes() {
    assert_eq!(text(&strip_comment(&chars("name = \"a#b\" # note"))), "name = \"a#b\" ");
    assert_eq!(text(&strip_comment(&chars("key = \"x\\\"#y\""))), "key = \"x\\\"#y\"");
    assert_eq!(text(&strip_comment(&chars("# all comment"))), "");
    let items: Vec<String> = split_array(&chars("\"a\", \"b,c\",\"d\\\",e\""))
        .iter()
        .map(|item| text(item))
        .collect();
    assert_eq!(items, vec!["\"a\"", " \"b,c\"", "\"d\\\",e\""]);
    assert_eq!(split_array(&chars("")).len(), 1);
}

#[test]
fn reader_laws_on_examples() {
    let line = chars("name = \"a#b\" # note");
    let once = strip_comment(&line);
    assert_eq!(strip_comment(&once), once);
    assert!(line.starts_with(&once));

    let body = "\"a\", \"b,c\" ,\"d\"";
    let items: Vec<String> = split_array(&chars(body)).iter().map(|item| text(item)).collect();
    assert_eq!(items.join(","), body);

    let plain = parse_command_config("plain.toml", &command_toml("tidy", "ssh {hostname}")).unwrap();
    let with_blanks = format!("# leading comment\n\n{}\n   # trailing\n", command_toml("tidy", "ssh {hostname}"));
    let blanks = parse_command_config("plain.toml", &with_blanks).unwrap();
    assert_eq!(blanks.name, plain.name);
    assert_eq!(blanks.action.command, plain.action.command);
    assert_eq!(blanks.predicates.len(), plain.predicates.len());

    let twice = format!("{}command = \"later\"\n", command_toml("tidy", "ssh {hostname}"));
    let later = parse_command_config("twice.toml", &twice).unwrap();
    assert_eq!(later.action.command, "later");
}
