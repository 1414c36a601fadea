use avahi_tui::discovery::{
    browse_status, events_for_found, fake_records, id_from_removal, records_from_discovery,
    sample_discovery, txt_map, upsert_record, DiscoveredServiceInfo, DiscoveryEvent,
    RemovedServiceInfo, TxtEntry,
};
use avahi_tui::table::Table;
use avahi_tui::ui::instance_line;

fn discovered(name: &str, addresses: &[&str]) -> DiscoveredServiceInfo {
    DiscoveredServiceInfo {
        name: name.to_string(),
        service_type: "_ssh._tcp".to_string(),
        domain: "local".to_string(),
        host_name: "workstation.local".to_string(),
        port: 22,
        addresses: addresses.iter().map(|a| a.to_string()).collect(),
        txt_records: vec![TxtEntry {
            key: "path".to_string(),
            value: Some(b"/admin".to_vec()),
        }],
    }
}

#[test]
fn builds_resolved_record_from_browse_fields() {
    let mut txt = Table::new();
    txt.insert_str("path", "/admin".to_string());

    let record = upsert_record(
        "nas",
        "_http._tcp",
        "local",
        Some("nas.local"),
        Some("192.168.1.30"),
        Some(8080),
        txt,
    );

    assert_eq!(record.name, "nas");
    assert_eq!(record.hostname.as_deref(), Some("nas.local"));
    assert_eq!(record.address.as_deref(), Some("192.168.1.30"));
    assert_eq!(record.port, Some(8080));
    assert_eq!(record.txt_value("path").as_deref(), Some("/admin"));
    assert!(record.has_instance_data());
}

#[test]
fn blank_host_and_zero_port_become_unresolved() {
    let record = upsert_record(
        "pending",
        "_ipp._tcp",
        "local",
        Some(""),
        Some(""),
        Some(0),
        Table::new(),
    );

    assert_eq!(record.hostname, None);
    assert_eq!(record.address, None);
    assert_eq!(record.port, None);
    assert!(!record.has_instance_data());
}

#[test]
fn multiple_addresses_become_distinct_records() {
    let service = discovered("workstation", &["192.168.1.20", "192.168.1.21"]);
    let records = records_from_discovery(&service);

    assert_eq!(records.len(), 2);
    assert_eq!(records[0].name, "workstation");
    assert_eq!(records[0].port, Some(22));
    assert_eq!(records[0].txt_value("path").as_deref(), Some("/admin"));
    let addresses = records
        .iter()
        .filter_map(|record| record.address.clone())
        .collect::<Vec<_>>();
    assert!(addresses.contains(&"192.168.1.20".to_string()));
    assert!(addresses.contains(&"192.168.1.21".to_string()));
}

#[test]
fn addressless_service_still_yields_one_record() {
    let service = discovered("workstation", &[]);
    let records = records_from_discovery(&service);

    assert_eq!(records.len(), 1);
    assert_eq!(records[0].hostname.as_deref(), Some("workstation.local"));
    assert_eq!(records[0].address, None);
    assert!(records[0].has_instance_data());
}

#[test]
fn removal_id_matches_pending_registration_key() {
    let removed = RemovedServiceInfo {
        name: "workstation".to_string(),
        service_type: "_ssh._tcp".to_string(),
        domain: "local".to_string(),
    };

    let id = id_from_removal(&removed);
    assert_eq!(id.registration_key(), "workstation|_ssh._tcp|local");
}

#[test]
fn key_only_txt_entry_maps_to_empty_value() {
    let records = vec![TxtEntry {
        key: "flag".to_string(),
        value: None,
    }];
    let map = txt_map(&records);
    assert_eq!(map.get_str("flag").map(String::as_str), Some(""));
}

#[test]
fn later_txt_entries_win_and_bytes_decode() {
    let records = vec![
        TxtEntry { key: "k".to_string(), value: Some(b"one".to_vec()) },
        TxtEntry { key: "k".to_string(), value: Some(vec![0x74, 0xff]) },
    ];
    let map = txt_map(&records);
    assert_eq!(map.get_str("k").map(String::as_str), Some("t\u{FFFD}"));
    assert_eq!(map.len(), 1);
}

#[test]
fn sample_records_and_service_type_limit() {
    let records = fake_records("local");
    assert_eq!(records.len(), 5);
    assert_eq!(records[0].name, "workstation");
    assert_eq!(records[1].address.as_deref(), Some("192.168.1.21"));
    assert_eq!(records[2].txt_value("path").as_deref(), Some("/admin"));
    assert!(!records[4].has_instance_data());
    assert_eq!(records[0].id.registration_key(), "workstation|_ssh._tcp|local");
    assert_ne!(records[0].id.instance, records[1].id.instance);
    assert_eq!(records[4].id.instance, "");
    let ssh = sample_discovery("local", Some("_ssh._tcp"));
    assert_eq!(ssh.len(), 2);
    assert_eq!(sample_discovery("lan", None)[3].domain, "lan");
}

#[test]
fn found_events_and_status_lines() {
    let service = discovered("workstation", &["192.168.1.20", "192.168.1.21"]);
    let events = events_for_found(&service);
    assert_eq!(events.len(), 2);
    assert!(matches!(&events[1], DiscoveryEvent::Upsert(r) if r.address.as_deref() == Some("192.168.1.21")));
    assert_eq!(browse_status(Some("_ssh._tcp")), "browsing _ssh._tcp over mDNS");
    assert_eq!(browse_status(None), "browsing all service types over mDNS");
}

#[test]
fn instance_line_shows_pending_fields() {
    let records = fake_records("local");
    assert_eq!(
        instance_line(&records[0]),
        "workstation _ssh._tcp host=workstation.local addr=192.168.1.20 port=22"
    );
    assert_eq!(
        instance_line(&records[4]),
        "pending-printer _ipp._tcp host=<pending> addr=<pending> port=<pending>"
    );
}
