use avahi_tui::filter::{fuzzy_match, is_subsequence_chars, FilterState};
use avahi_tui::service::ServiceRecord;

#[test]
fn fuzzy_match_accepts_subsequence() {
    assert!(fuzzy_match("Kitchen Printer _ipp._tcp", "kpr"));
    assert!(!fuzzy_match("Kitchen Printer", "zx"));
}

#[test]
fn type_filter_and_text_filter_combine() {
    let ssh = ServiceRecord::new("alpha", "_ssh._tcp", "local");
    let http = ServiceRecord::new("beta", "_http._tcp", "local");
    let mut filter = FilterState::default();
    filter.sync_service_types(&[ssh.clone(), http.clone()]);
    filter.toggle_service_type("_http._tcp");
    filter.text_query = "alp".to_string();

    let visible = filter.apply(&[ssh, http]);
    assert_eq!(visible.len(), 1);
    assert_eq!(visible[0].name, "alpha");
}

#[test]
fn fuzzy_match_ignores_case_and_needs_order() {
    assert!(fuzzy_match("ALPHA", "alp"));
    assert!(fuzzy_match("anything", ""));
    assert!(!fuzzy_match("abc", "cba"));
    assert!(!fuzzy_match("", "a"));
    assert!(fuzzy_match("same text", "same text"));
}

#[test]
fn toggling_twice_restores_the_type() {
    let records = [ServiceRecord::new("alpha", "_ssh._tcp", "local")];
    let mut filter = FilterState::default();
    filter.sync_service_types(&records);
    assert!(filter.enabled_service_types.contains("_ssh._tcp"));
    filter.toggle_service_type("_ssh._tcp");
    assert!(!filter.enabled_service_types.contains("_ssh._tcp"));
    assert!(filter.disabled_service_types.contains("_ssh._tcp"));
    filter.toggle_service_type("_ssh._tcp");
    assert!(filter.enabled_service_types.contains("_ssh._tcp"));
    assert!(!filter.disabled_service_types.contains("_ssh._tcp"));
}

#[test]
fn sync_does_not_reenable_disabled_types() {
    let records = [
        ServiceRecord::new("alpha", "_ssh._tcp", "local"),
        ServiceRecord::new("beta", "_http._tcp", "local"),
    ];
    let mut filter = FilterState::default();
    filter.sync_service_types(&records);
    filter.toggle_service_type("_http._tcp");
    filter.sync_service_types(&records);
    assert!(filter.enabled_service_types.contains("_ssh._tcp"));
    assert!(!filter.enabled_service_types.contains("_http._tcp"));
    assert_eq!(filter.enabled_service_types.len(), 1);
}

#[test]
fn discovered_types_are_sorted_and_distinct() {
    let records = [
        ServiceRecord::new("a", "_ssh._tcp", "local"),
        ServiceRecord::new("b", "_http._tcp", "local"),
        ServiceRecord::new("c", "_ssh._tcp", "local"),
    ];
    assert_eq!(
        FilterState::discovered_types(&records),
        vec!["_http._tcp".to_string(), "_ssh._tcp".to_string()]
    );
}

#[test]
fn blank_query_shows_all_enabled_and_apply_is_idempotent() {
    let records = [
        ServiceRecord::new("alpha", "_ssh._tcp", "local"),
        ServiceRecord::new("beta", "_http._tcp", "local"),
    ];
    let mut filter = FilterState::default();
    filter.sync_service_types(&records);
    filter.text_query = "   ".to_string();
    let shown = filter.apply(&records);
    assert_eq!(shown.len(), 2);
    filter.text_query = "bet".to_string();
    let once = filter.apply(&records);
    let twice = filter.apply(&once);
    assert_eq!(once.len(), 1);
    assert_eq!(twice.len(), 1);
    assert_eq!(twice[0].name, "beta");
    filter.clear_text();
    assert_eq!(filter.text_query, "");
}

#[test]
fn fuzzy_match_survives_surrounding_text_and_filter_splits() {
    assert!(fuzzy_match("xyz printer abc", "prn"));
    assert!(fuzzy_match("printer", "prn"));
    let a = vec![
        ServiceRecord::new("alpha", "_ssh._tcp", "local"),
        ServiceRecord::new("beta", "_http._tcp", "local"),
    ];
    let b = vec![ServiceRecord::new("alpine", "_ssh._tcp", "local")];
    let mut filter = FilterState::default();
    let all: Vec<ServiceRecord> = a.iter().chain(b.iter()).cloned().collect();
    filter.sync_service_types(&all);
    filter.text_query = "alp".to_string();
    let whole: Vec<String> = filter.apply(&all).into_iter().map(|r| r.name).collect();
    let mut parts: Vec<String> = filter.apply(&a).into_iter().map(|r| r.name).collect();
    parts.extend(filter.apply(&b).into_iter().map(|r| r.name));
    assert_eq!(whole, parts);
    assert_eq!(whole, vec!["alpha", "alpine"]);
}

#[test]
fn subsequence_check_on_characters() {
    let chars = |s: &str| s.chars().collect::<Vec<char>>();
    assert!(is_subsequence_chars(&chars("prn"), &chars("printer")));
    assert!(is_subsequence_chars(&chars(""), &chars("")));
    assert!(!is_subsequence_chars(&chars("Prn"), &chars("printer")));
    assert!(!is_subsequence_chars(&chars("nrp"), &chars("printer")));
    assert!(fuzzy_match("PRINTER", "prn") && fuzzy_match("printer", "PRN"));
}

#[test]
fn switched_off_type_stays_off_through_syncs() {
    let ssh = ServiceRecord::new("alpha", "_ssh._tcp", "local");
    let mut filter = FilterState::default();
    filter.sync_service_types(&[ssh.clone()]);
    assert!(filter.enabled_service_types.contains("_ssh._tcp"));
    filter.toggle_service_type("_ssh._tcp");
    for _ in 0..3 {
        filter.sync_service_types(&[ssh.clone(), ServiceRecord::new("b", "_ssh._tcp", "local")]);
    }
    assert!(!filter.enabled_service_types.contains("_ssh._tcp"));
}
