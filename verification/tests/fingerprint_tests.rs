use nerum_core::fingerprint::{
    get_approximate_fingerprints, get_default_services, get_http_ports, get_https_ports,
    get_os_family, get_os_ttl, get_wellknown_services, resolve_os, resolve_service,
    search_os_fingerprints, OsFingerprint, OsTtl, PortTag, TcpService,
};

fn entry(name: &str, generation: &str, device: &str, window: u16, pattern: &str) -> OsFingerprint {
    OsFingerprint {
        cpe: format!("cpe:/o:{}", name),
        os_name: String::from(name),
        os_vendor: String::from("vendor"),
        os_family: String::from(name),
        os_generation: String::from(generation),
        device_type: String::from(device),
        tcp_window_size: window,
        tcp_option_pattern: String::from(pattern),
    }
}

fn service(port: u16, name: &str, wellknown: bool, default: bool) -> TcpService {
    TcpService {
        port,
        service_name: String::from(name),
        service_description: String::from(name),
        wellknown_flag: wellknown,
        default_flag: default,
    }
}

#[test]
fn exact_match_found_by_search() {
    let corpus = vec![
        entry("linux", "5", "general purpose", 64240, "MSS,NOP,WS,SACK"),
        entry("windows", "10", "general purpose", 65535, "MSS,NOP,WS"),
    ];
    let hits = search_os_fingerprints(&corpus, 65535, &String::from("MSS,NOP,WS"));
    assert_eq!(hits.len(), 1);
    assert_eq!(hits[0].os_name, "windows");
}

#[test]
fn exact_match_is_preferred_over_approximate() {
    // an exact row and a tempting approximate row: only the exact one comes back
    let corpus = vec![
        entry("approx-os", "99", "general purpose", 65530, "MSS"),
        entry("exact-os", "1", "general purpose", 65535, "MSS,NOP,WS"),
    ];
    let r = resolve_os(&corpus, 65535, &String::from("MSS,NOP,WS"));
    assert_eq!(r.len(), 1);
    assert_eq!(r[0].os_name, "exact-os");
}

#[test]
fn approximate_match_scenario_window_and_prefix() {
    // no exact row for window 65535 and pattern "MSS,NOP,WS"
    let corpus = vec![
        entry("in-band-old", "7", "general purpose", 64535, "MSS,NOP"),
        entry("in-band-new", "8", "general purpose", 65535, "MSS"),
        entry("out-of-band", "12", "general purpose", 64000, "MSS"),
        entry("wrong-prefix", "13", "general purpose", 65535, "WS,MSS"),
        entry("appliance", "14", "router", 65535, "MSS"),
    ];
    let query = String::from("MSS,NOP,WS");
    let r = resolve_os(&corpus, 65535, &query);
    assert_eq!(r.len(), 2);
    // ordered newest generation first
    assert_eq!(r[0].os_name, "in-band-new");
    assert_eq!(r[1].os_name, "in-band-old");
    for c in &r {
        let w = i64::from(c.tcp_window_size);
        assert!((w - 65535).abs() <= 1000);
        assert!(query.starts_with(c.tcp_option_pattern.as_str()));
        assert_eq!(c.device_type, "general purpose");
    }
}

#[test]
fn approximate_match_never_leaves_tolerance_band() {
    let corpus = vec![
        entry("band-top", "1", "general purpose", 9000, "A"),
        entry("band-bottom", "2", "general purpose", 7000, "A"),
        entry("just-above", "3", "general purpose", 9001, "A"),
        entry("just-below", "4", "general purpose", 6999, "A"),
    ];
    let r = get_approximate_fingerprints(&corpus, 8000, &String::from("AB"));
    assert_eq!(r.len(), 2);
    for c in &r {
        let w = i64::from(c.tcp_window_size);
        assert!((w - 8000).abs() <= 1000);
    }
}

#[test]
fn approximate_generation_order_is_by_text() {
    let corpus = vec![
        entry("seven", "7", "general purpose", 100, "A"),
        entry("ten", "10", "general purpose", 100, "A"),
        entry("eight", "8", "general purpose", 100, "A"),
    ];
    let r = get_approximate_fingerprints(&corpus, 100, &String::from("AB"));
    let names: Vec<&str> = r.iter().map(|c| c.os_name.as_str()).collect();
    // character-wise descending: "8" over "7" over "10"
    assert_eq!(names, vec!["eight", "seven", "ten"]);
}

#[test]
fn os_family_by_ttl_last_row_wins() {
    let table = vec![
        OsTtl { os_family: String::from("linux"), os_description: String::from("old"), initial_ttl: 64 },
        OsTtl { os_family: String::from("windows"), os_description: String::from("nt"), initial_ttl: 128 },
        OsTtl { os_family: String::from("unix"), os_description: String::from("new"), initial_ttl: 64 },
    ];
    let hit = get_os_family(&table, 64);
    assert_eq!(hit.os_family, "unix");
    let miss = get_os_family(&table, 255);
    assert_eq!(miss.os_family, "");
    assert_eq!(miss.initial_ttl, 0);
}

#[test]
fn service_resolution_first_row_wins_and_unknown_falls_back() {
    let services = vec![
        service(80, "http", true, true),
        service(443, "https", true, true),
        service(80, "http-alt", false, false),
    ];
    assert_eq!(resolve_service(&services, 80), "http");
    assert_eq!(resolve_service(&services, 443), "https");
    assert_eq!(resolve_service(&services, 4444), "unknown");
}

#[test]
fn default_and_wellknown_subsets() {
    let services = vec![
        service(22, "ssh", true, true),
        service(8080, "http-proxy", false, true),
        service(7, "echo", true, false),
        service(65000, "custom", false, false),
    ];
    let defaults = get_default_services(&services);
    let names: Vec<&str> = defaults.iter().map(|s| s.service_name.as_str()).collect();
    assert_eq!(names, vec!["ssh", "http-proxy"]);
    let wellknown = get_wellknown_services(&services);
    let names: Vec<&str> = wellknown.iter().map(|s| s.service_name.as_str()).collect();
    assert_eq!(names, vec!["ssh", "echo"]);
}

#[test]
fn tagged_port_lookups() {
    let tags = vec![
        PortTag { port: 80, tag: String::from("http") },
        PortTag { port: 443, tag: String::from("https") },
        PortTag { port: 8080, tag: String::from("http") },
        PortTag { port: 8443, tag: String::from("https") },
    ];
    assert_eq!(get_http_ports(&tags), vec![80, 8080]);
    assert_eq!(get_https_ports(&tags), vec![443, 8443]);
}

#[test]
fn os_ttl_table_from_rows() {
    let rows = vec![
        (String::from("linux"), String::from("Linux 2.4 and later"), 64u8),
        (String::from("windows"), String::from("Windows NT family"), 128u8),
    ];
    let table = get_os_ttl(&rows);
    assert_eq!(table.len(), 2);
    assert_eq!(table[0].os_family, "linux");
    assert_eq!(table[0].initial_ttl, 64);
    assert_eq!(table[1].os_description, "Windows NT family");
}
