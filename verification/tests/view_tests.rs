use netscan::banner::reply_banner;
use netscan::event::{key_event, Event, Key, KeyKind};
use netscan::scan::{probe_report, ActiveSetting, ConnType, Port, ScanLabelStatus};
use netscan::text::{parse_decimal, parse_u16, parse_u32};
use netscan::view::{
    badge_glyph, badge_label, editor_prompt, port_state_kind, scan_title, setting_label,
    shows_banner, shows_service, PortStateKind,
};

fn port(state: &str, banner: &str) -> Port {
    Port {
        port: 80,
        state: state.to_string(),
        service: "http".to_string(),
        banner: banner.to_string(),
        conn_type: ConnType::Tcp,
    }
}

#[test]
fn decimal_parsing() {
    assert_eq!(parse_u16("0"), Some(0));
    assert_eq!(parse_u16("+65535"), Some(65535));
    assert_eq!(parse_u16("65536"), None);
    assert_eq!(parse_u16("007"), Some(7));
    assert_eq!(parse_u16(""), None);
    assert_eq!(parse_u16("+"), None);
    assert_eq!(parse_u16("-0"), None);
    assert_eq!(parse_u16(" 1"), None);
    assert_eq!(parse_u16("1a"), None);
    assert_eq!(parse_u16("99999999999999999999"), None);
    assert_eq!(parse_u32("4294967295"), Some(u32::MAX));
    assert_eq!(parse_u32("4294967296"), None);
    assert_eq!(parse_decimal("250", 255), Some(250));
    assert_eq!(parse_decimal("256", 255), None);
    for text in ["12", "+3", "x", "", "65535", "70000", "+", "1_0"] {
        assert_eq!(parse_u16(text), text.parse::<u16>().ok());
        assert_eq!(parse_u32(text), text.parse::<u32>().ok());
    }
}

#[test]
fn reply_banners() {
    assert_eq!(reply_banner(&[]), Some("No banner".to_string()));
    assert_eq!(reply_banner(b"Server: x\r\n"), Some("x".to_string()));
    assert_eq!(reply_banner(b"\t hello \x0b\n"), Some("hello".to_string()));
    assert_eq!(reply_banner("\u{3000}wide\u{2029}".as_bytes()), Some("wide".to_string()));
}

#[test]
fn probe_reports() {
    let v = probe_report(Ok(port("Open", "-")), 42, "p".to_string(), 7);
    assert_eq!(v.len(), 2);
    assert!(matches!(&v[0], Event::PortFound(p) if p.port == 80));
    assert!(matches!(&v[1], Event::ScanProgress { progress: 42, current_probe, pkts_s: 7 } if current_probe == "p"));
    let v = probe_report(Err(port("Filtered", "")), 1, "q".to_string(), 0);
    assert_eq!(v.len(), 1);
    assert!(matches!(&v[0], Event::ScanProgress { progress: 1, .. }));
}

#[test]
fn key_presses_only() {
    assert!(matches!(key_event(Key::Char('a'), KeyKind::Press), Some(Event::Key(Key::Char('a')))));
    assert!(key_event(Key::Enter, KeyKind::Release).is_none());
    assert!(key_event(Key::Enter, KeyKind::Repeat).is_none());
}

#[test]
fn port_badges() {
    assert!(matches!(port_state_kind(&port("Open", "")), PortStateKind::Online));
    assert!(matches!(port_state_kind(&port("Filtered", "")), PortStateKind::Filtered));
    assert!(matches!(port_state_kind(&port("Closed", "")), PortStateKind::Offline));
    assert_eq!(badge_label(PortStateKind::Online), "  [ONLINE]  ");
    assert_eq!(badge_label(PortStateKind::Filtered), " [Filtered]  ");
    assert_eq!(badge_label(PortStateKind::Offline), " [OFFLINE]  ");
    assert_eq!(badge_glyph(PortStateKind::Online), "⚡");
    assert_eq!(badge_glyph(PortStateKind::Filtered), "🔒");
    assert_eq!(badge_glyph(PortStateKind::Offline), "✖");
    assert!(shows_service(&port("Open", "")));
    assert!(!shows_service(&port("Closed", "")));
    assert!(shows_banner(&port("Open", "nginx")));
    assert!(!shows_banner(&port("Open", "No banner")));
    assert!(!shows_banner(&port("Open", "-")));
    assert!(!shows_banner(&port("Open", "")));
    assert!(!shows_banner(&port("Closed", "nginx")));
}

#[test]
fn page_labels() {
    assert_eq!(scan_title(&ScanLabelStatus::Waiting), " [ SYSTEM IDLE: PORTS ] ");
    assert_eq!(scan_title(&ScanLabelStatus::Scanning), " [ BREACH IN PROGRESS: SCANNING... ] ");
    assert_eq!(scan_title(&ScanLabelStatus::Finished), " [ DATA EXTRACTION FINISHED ] ");
    assert_eq!(setting_label(ActiveSetting::TargetIP), " Target IP:   ");
    assert_eq!(setting_label(ActiveSetting::PortRange), " Port Range:  ");
    assert_eq!(setting_label(ActiveSetting::ScanSpeed), " Scan Speed:  ");
    assert_eq!(editor_prompt(ActiveSetting::TargetIP, false), " >> Enter Target IP Address:");
    assert_eq!(editor_prompt(ActiveSetting::TargetIP, true), " [CRITICAL_ERR]: INVALID IP NODE COORD!");
    assert_eq!(editor_prompt(ActiveSetting::PortRange, false), " >> Enter new Ports Range");
    assert_eq!(
        editor_prompt(ActiveSetting::PortRange, true),
        " [CRITICAL_ERR]: Invalid format!\n valid formar: xx..xx"
    );
    assert_eq!(editor_prompt(ActiveSetting::ScanSpeed, false), " >> Enter new Scan Speed");
    assert_eq!(
        editor_prompt(ActiveSetting::ScanSpeed, true),
        " [CRITICAL_ERR]: Invalid input.\n only integers are allowed;"
    );
}
