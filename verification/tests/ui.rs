use avahi_tui::discovery::fake_records;
use avahi_tui::plumber::{ActionMode, CommandAction, CommandConfig, MatchResult};
use avahi_tui::service::ServiceRecord;
use avahi_tui::ui::{
    action_row, details_lines, grouping_row, header_title, help_lines, instance_row, instance_summary,
    no_selection_lines, no_services_line, no_types_line, popup_margin, service_row, status_line,
    txt_lines, type_filter_row, AppMode, GroupDetails,
};

fn offer(action_description: Option<&str>, description: Option<&str>, records: usize, needs: bool) -> MatchResult {
    let record = ServiceRecord::new("nas", "_http._tcp", "local");
    MatchResult {
        command: CommandConfig {
            name: "open".to_string(),
            description: description.map(str::to_string),
            requirements: vec![],
            predicates: vec![],
            action: CommandAction {
                description: action_description.map(str::to_string),
                command: "xdg-open http://{hostname}".to_string(),
                mode: ActionMode::Fork,
            },
        },
        matching_records: (0..records).map(|_| record.clone()).collect(),
        needs_instance: needs,
    }
}

#[test]
fn header_shows_domain_mode_grouping_and_search() {
    assert_eq!(
        header_title("local", AppMode::TypeFilter, "service", ""),
        "domain: local | mode: type filter | group: service | search: <none>"
    );
    assert_eq!(
        header_title("lan", AppMode::Search, "host", "nas"),
        "domain: lan | mode: search | group: host | search: nas"
    );
    assert_eq!(AppMode::ActionPicker.label(), "actions");
    assert_eq!(AppMode::InstancePicker.label(), "instances");
}

#[test]
fn list_rows_carry_the_selection_marker() {
    assert_eq!(service_row(true, "nas", "_http._tcp", "2 instances"), "> nas  [_http._tcp]  2 instances");
    assert_eq!(service_row(false, "nas", "_http._tcp", "1"), "  nas  [_http._tcp]  1");
    assert_eq!(type_filter_row(true, true, "_ssh._tcp"), "> [x] _ssh._tcp");
    assert_eq!(type_filter_row(false, false, "_ssh._tcp"), "  [ ] _ssh._tcp");
    assert_eq!(grouping_row(false, true, "service"), "  service *");
    assert_eq!(grouping_row(true, false, "host"), "> host");
}

#[test]
fn status_line_counts() {
    assert_eq!(
        status_line("browsing", 12, 3, 4),
        "browsing | 12 records | 3 rows | 4 type filters | / search | t types | g group | enter actions | ? help"
    );
}

#[test]
fn action_rows_prefer_the_action_description() {
    assert_eq!(action_row(true, &offer(Some("web ui"), Some("open"), 1, false)), "> open - web ui");
    assert_eq!(action_row(false, &offer(None, Some("browser"), 1, false)), "  open - browser");
    assert_eq!(action_row(false, &offer(None, None, 1, true)), "  open - ");
    assert_eq!(
        action_row(false, &offer(None, None, 2, true)),
        "  open -  | choose instance"
    );
    assert_eq!(action_row(false, &offer(None, None, 2, false)), "  open - ");
}

#[test]
fn instance_rows_and_summary() {
    let records = fake_records("local");
    assert_eq!(
        instance_row(true, &records[0]),
        "> workstation _ssh._tcp host=workstation.local addr=192.168.1.20 port=22"
    );
    let many: Vec<ServiceRecord> = (0..10).map(|_| records[4].clone()).collect();
    let summary = instance_summary(&many);
    assert_eq!(summary.len(), 9);
    assert_eq!(summary[0], "pending-printer _ipp._tcp host=<pending> addr=<pending> port=<pending>");
    assert_eq!(summary[8], "... 2 more");
    assert_eq!(instance_summary(&records[..2]).len(), 2);
    assert!(instance_summary(&[]).is_empty());
}

#[test]
fn txt_part_of_details() {
    let records = fake_records("local");
    assert!(txt_lines(&records[0].txt).is_empty());
    let mut record = records[2].clone();
    record.set_txt("a", "1");
    assert_eq!(txt_lines(&record.txt), vec!["TXT:", "  a=1", "  path=/admin", ""]);
}

#[test]
fn help_and_popup_geometry() {
    let help = help_lines();
    assert_eq!(help.len(), 7);
    assert_eq!(help[0], "j/down, k/up: move selection");
    assert_eq!(help[6], "esc: close modal or search");
    assert_eq!(popup_margin(60), 20);
    assert_eq!(popup_margin(55), 22);
    assert_eq!(popup_margin(100), 0);
}

#[test]
fn details_pane_lines() {
    let records = fake_records("local");
    let group = GroupDetails {
        label: "workstation".to_string(),
        id: "workstation|_ssh._tcp|local".to_string(),
        mode: "service".to_string(),
        raw_name: "workstation".to_string(),
        display_name: "workstation".to_string(),
        service_type: "_ssh._tcp".to_string(),
        domain: "local".to_string(),
        hostname: Some("workstation.local".to_string()),
        port: Some(22),
        last_seen_secs: 7,
    };
    let lines = details_lines(&group, &records[0].txt, &records[..2]);
    assert_eq!(
        lines,
        vec![
            "Group: workstation",
            "Id: workstation|_ssh._tcp|local",
            "Mode: service",
            "Name: workstation",
            "Type: _ssh._tcp",
            "Domain: local",
            "Host: workstation.local",
            "Port: 22",
            "Instances: 2",
            "Last seen: 7s ago",
            "",
            "workstation _ssh._tcp host=workstation.local addr=192.168.1.20 port=22",
            "workstation _ssh._tcp host=workstation.local addr=192.168.1.21 port=22",
        ]
    );
    let pending = GroupDetails {
        raw_name: "printer\\032one".to_string(),
        display_name: "printer one".to_string(),
        hostname: None,
        port: None,
        ..group
    };
    let lines = details_lines(&pending, &records[2].txt, &[]);
    assert_eq!(lines[3], "Name: printer one");
    assert_eq!(lines[4], "Raw name: printer\\032one");
    assert_eq!(lines[7], "Host: <pending>");
    assert_eq!(lines[8], "Port: <pending>");
    assert_eq!(lines[9], "Instances: 0");
    assert_eq!(&lines[12..], &["TXT:", "  path=/admin", ""]);
}

#[test]
fn empty_states() {
    assert_eq!(no_selection_lines(), vec!["No service selected"]);
    assert_eq!(no_services_line(), "No services match the active filters");
    assert_eq!(no_types_line(), "No service types discovered yet");
}
