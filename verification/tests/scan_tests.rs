use netscan::event::{Event, Key};
use netscan::scan::{
    lookup_service, probe_result, setting_at, wants_http_probe, ActiveSetting, ConnType,
    IpAddress, Port, PortsAction, PortsContent, ProbeOutcome, ScanLabelStatus, ScanPlanner,
};

fn key(page: &mut PortsContent, k: Key) -> PortsAction {
    page.update(Event::Key(k))
}

fn typed(page: &mut PortsContent, text: &str) {
    for c in text.chars() {
        key(page, Key::Char(c));
    }
}

fn open_setting(page: &mut PortsContent, downs: usize) {
    key(page, Key::F(9));
    for _ in 0..downs {
        key(page, Key::Down);
    }
    key(page, Key::Enter);
}

fn port(n: u16) -> Port {
    Port {
        port: n,
        state: "Open".to_string(),
        service: lookup_service(n).to_string(),
        banner: String::new(),
        conn_type: ConnType::Tcp,
    }
}

#[test]
fn service_table() {
    assert_eq!(lookup_service(21), "ftp");
    assert_eq!(lookup_service(22), "ssh");
    assert_eq!(lookup_service(23), "telnet");
    assert_eq!(lookup_service(25), "smtp");
    assert_eq!(lookup_service(53), "dns");
    assert_eq!(lookup_service(80), "http");
    assert_eq!(lookup_service(443), "https");
    assert_eq!(lookup_service(8080), "http-proxy");
    assert_eq!(lookup_service(8081), "unknown");
    assert!(wants_http_probe(80) && wants_http_probe(8080) && !wants_http_probe(443));
}

#[test]
fn conn_type_labels() {
    assert_eq!(ConnType::Tcp.as_str(), "TCP");
    assert_eq!(ConnType::Udp.as_str(), "UDP");
}

#[test]
fn probe_outcomes_to_records() {
    let filtered = probe_result(443, ProbeOutcome::TimedOut).err().expect("no answer");
    assert_eq!(filtered.port, 443);
    assert_eq!(filtered.state, "Filtered");
    assert_eq!(filtered.service, "https");
    assert_eq!(filtered.banner, "No response (Firewall)");
    for outcome in [ProbeOutcome::Refused, ProbeOutcome::Failed] {
        let closed = probe_result(23, outcome).ok().expect("answered");
        assert_eq!(closed.state, "Closed");
        assert_eq!(closed.banner, "-");
        assert_eq!(closed.service, "telnet");
    }
    let open = probe_result(22, ProbeOutcome::Connected { banner: "SSH-2.0".to_string() })
        .ok()
        .expect("answered");
    assert_eq!(open.state, "Open");
    assert_eq!(open.banner, "SSH-2.0");
    assert!(matches!(open.conn_type, ConnType::Tcp));
}

#[test]
fn planner_hands_out_each_port_once() {
    let mut p = ScanPlanner::new(6);
    assert_eq!(p.initial_ports(2), vec![1, 2]);
    assert_eq!(p.in_flight(), 2);
    assert_eq!(p.on_task_done(false), Some(3));
    assert_eq!(p.progress(), 16);
    assert_eq!(p.on_task_done(false), Some(4));
    assert_eq!(p.on_task_done(true), Some(5));
    assert_eq!(p.pkts_per_second(), 3);
    assert_eq!(p.on_task_done(false), None);
    assert_eq!(p.on_task_done(false), None);
    assert_eq!(p.in_flight(), 0);
    assert_eq!(p.progress(), 83);
    assert_eq!(p.next_port(), None);
}

#[test]
fn planner_more_workers_than_ports() {
    let mut p = ScanPlanner::new(4);
    assert_eq!(p.initial_ports(200), vec![1, 2, 3]);
    let mut empty = ScanPlanner::new(1);
    assert!(empty.initial_ports(5).is_empty());
    let mut none = ScanPlanner::new(0);
    assert_eq!(none.next_port(), None);
}

#[test]
fn new_page_defaults() {
    let page = PortsContent::new();
    let s = &page.state;
    assert_eq!(s.scan_state, ScanLabelStatus::Waiting);
    assert_eq!(s.range_end, 10000);
    assert_eq!(s.max_speed, 200);
    assert!(matches!(s.ip_address, IpAddress::V4([127, 0, 0, 1])));
    assert_eq!(s.traffic_history, vec![0u64; 30]);
    assert_eq!(s.current_probe, "READY");
    assert!(s.ports.is_empty());
    assert!(s.list_selected.is_none());
    assert!(!page.captures_input());
    assert_eq!(page.instructions(), vec!["[F5: Scan]".to_string(), "[F9: Settings]".to_string()]);
    assert_eq!(page.buttons.len(), 2);
}

#[test]
fn f5_starts_once() {
    let mut page = PortsContent::new();
    page.update(Event::PortFound(port(80)));
    match key(&mut page, Key::F(5)) {
        PortsAction::StartScan(q) => {
            assert_eq!(q.range_end, 10000);
            assert_eq!(q.max_workers, 200);
            assert!(matches!(q.ip, IpAddress::V4([127, 0, 0, 1])));
        }
        other => panic!("expected a scan, got {:?}", other),
    }
    assert_eq!(page.state.scan_state, ScanLabelStatus::Scanning);
    assert!(page.state.ports.is_empty());
    assert_eq!(page.state.current_probe, "INITIALIZING NODE...");
    assert!(matches!(key(&mut page, Key::F(5)), PortsAction::Nothing));
    page.update(Event::ScanFinished);
    assert_eq!(page.state.scan_state, ScanLabelStatus::Finished);
    assert_eq!(page.state.scan_progress, 100);
    assert_eq!(page.state.current_probe, "SCAN COMPLETE.");
    assert!(matches!(key(&mut page, Key::F(5)), PortsAction::StartScan(_)));
}

#[test]
fn workers_truncate_to_u16() {
    let mut page = PortsContent::new();
    open_setting(&mut page, 3);
    typed(&mut page, "70000");
    key(&mut page, Key::Enter);
    assert_eq!(page.state.max_speed, 70000);
    match key(&mut page, Key::F(5)) {
        PortsAction::StartScan(q) => assert_eq!(q.max_workers, 70000u32 as u16),
        other => panic!("expected a scan, got {:?}", other),
    }
}

#[test]
fn traffic_history_keeps_forty_newest() {
    let mut page = PortsContent::new();
    for i in 0..15u64 {
        page.update(Event::ScanProgress {
            progress: i as u32,
            current_probe: format!("probe {}", i),
            pkts_s: i + 1,
        });
    }
    assert_eq!(page.state.traffic_history.len(), 40);
    assert_eq!(*page.state.traffic_history.last().unwrap(), 15);
    assert_eq!(page.state.traffic_history[39 - 14], 1);
    assert_eq!(page.state.scan_progress, 14);
    assert_eq!(page.state.current_probe, "probe 14");
}

#[test]
fn found_ports_list_wraps() {
    let mut page = PortsContent::new();
    key(&mut page, Key::Down);
    assert!(page.state.list_selected.is_none());
    page.update(Event::PortFound(port(22)));
    page.update(Event::PortFound(port(80)));
    page.update(Event::PortFound(port(443)));
    assert_eq!(page.state.list_selected, Some(2));
    key(&mut page, Key::Down);
    assert_eq!(page.state.list_selected, Some(0));
    key(&mut page, Key::Char('k'));
    assert_eq!(page.state.list_selected, Some(2));
    key(&mut page, Key::Up);
    assert_eq!(page.state.list_selected, Some(1));
    key(&mut page, Key::Char('j'));
    assert_eq!(page.state.list_selected, Some(2));
}

#[test]
fn settings_list_navigation() {
    let mut page = PortsContent::new();
    key(&mut page, Key::F(9));
    assert!(page.captures_input());
    assert!(matches!(page.state.settings_popup_state, Some(None)));
    key(&mut page, Key::Enter);
    assert!(matches!(page.state.settings_popup_state, Some(None)));
    key(&mut page, Key::Up);
    assert_eq!(page.state.settings_selected, Some(0));
    key(&mut page, Key::Up);
    assert_eq!(page.state.settings_selected, Some(2));
    key(&mut page, Key::Down);
    assert_eq!(page.state.settings_selected, Some(0));
    key(&mut page, Key::Char('j'));
    assert_eq!(page.state.settings_selected, Some(1));
    key(&mut page, Key::Enter);
    assert!(matches!(page.state.settings_popup_state, Some(Some(ActiveSetting::PortRange))));
    key(&mut page, Key::Esc);
    assert!(page.state.settings_popup_state.is_none());
    assert!(!page.captures_input());
    assert!(matches!(setting_at(0), ActiveSetting::TargetIP));
    assert!(matches!(setting_at(2), ActiveSetting::ScanSpeed));
}

#[test]
fn port_range_editing() {
    let mut page = PortsContent::new();
    open_setting(&mut page, 2);
    assert!(matches!(page.state.settings_popup_state, Some(Some(ActiveSetting::PortRange))));
    typed(&mut page, "10x");
    key(&mut page, Key::Enter);
    assert_eq!(page.state.validation_error, "[Error: Invalid range] \n only integers are allowed.");
    assert_eq!(page.state.range_end, 10000);
    key(&mut page, Key::Backspace);
    typed(&mut page, "24");
    assert_eq!(page.state.range_buff, "1024");
    key(&mut page, Key::Enter);
    assert_eq!(page.state.range_end, 1024);
    assert!(page.state.settings_popup_state.is_none());
}

#[test]
fn port_range_overflow_rejected() {
    let mut page = PortsContent::new();
    open_setting(&mut page, 2);
    typed(&mut page, "65536");
    key(&mut page, Key::Enter);
    assert_eq!(page.state.range_end, 10000);
    assert!(page.state.settings_popup_state.is_some());
    for _ in 0..5 {
        key(&mut page, Key::Backspace);
    }
    typed(&mut page, "+65535");
    key(&mut page, Key::Enter);
    assert_eq!(page.state.range_end, 65535);
}

#[test]
fn scan_speed_editing() {
    let mut page = PortsContent::new();
    open_setting(&mut page, 3);
    assert!(matches!(page.state.settings_popup_state, Some(Some(ActiveSetting::ScanSpeed))));
    typed(&mut page, "fast");
    key(&mut page, Key::Enter);
    assert_eq!(page.state.max_speed, 200);
    assert!(page.state.settings_popup_state.is_some());
    key(&mut page, Key::Esc);
    open_setting(&mut page, 0);
    assert!(matches!(page.state.settings_popup_state, Some(Some(ActiveSetting::ScanSpeed))));
}

#[test]
fn target_address_editing() {
    let mut page = PortsContent::new();
    open_setting(&mut page, 1);
    assert!(matches!(page.state.settings_popup_state, Some(Some(ActiveSetting::TargetIP))));
    typed(&mut page, "10.0.0.7");
    assert_eq!(page.state.ip_buff, "10.0.0.7");
    assert!(matches!(key(&mut page, Key::Enter), PortsAction::ValidateIp));
    page.apply_ip_input(None);
    assert_eq!(page.state.validation_error, "[Error: Invalid IP]");
    assert!(page.state.settings_popup_state.is_some());
    page.apply_ip_input(Some(IpAddress::V4([10, 0, 0, 7])));
    assert!(matches!(page.state.ip_address, IpAddress::V4([10, 0, 0, 7])));
    assert!(page.state.settings_popup_state.is_none());
}
