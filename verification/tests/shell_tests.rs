use netscan::app_state::App;
use netscan::components::{Button, Input, Popup};
use netscan::contents::main_content::MainContent as ControlsMainContent;
use netscan::contents::scan_ports::{
    scan_udp, ConnType as LegacyConnType, ContentAction, Port as LegacyPort,
    PortsContent as LegacyPortsContent,
};
use netscan::event::{poll_timeout, tick_due, Event, Key};
use netscan::main_content::MainContent;
use netscan::scan::{ConnType, IpAddress, Port};

#[test]
fn shell_navigation_and_quit() {
    let mut app = App::new(3);
    assert!(app.handle_events(&Event::Key(Key::Char('2')), false));
    assert_eq!(app.current_page, 1);
    assert!(app.handle_events(&Event::Key(Key::Char('1')), false));
    assert_eq!(app.current_page, 0);
    app.navigate(5);
    assert_eq!(app.current_page, 0);
    app.navigate(2);
    assert_eq!(app.current_page, 2);
    assert!(!app.exit);
    app.handle_events(&Event::Key(Key::Char('q')), false);
    assert!(app.exit);
}

#[test]
fn shell_typing() {
    let mut app = App::new(1);
    app.handle_events(&Event::Key(Key::Char('a')), false);
    app.handle_events(&Event::Key(Key::Char('b')), false);
    app.handle_events(&Event::Key(Key::Backspace), false);
    assert_eq!(app.content, "a");
    app.handle_events(&Event::Key(Key::Backspace), false);
    app.handle_events(&Event::Key(Key::Backspace), false);
    assert_eq!(app.content, "");
    app.handle_events(&Event::Key(Key::Char('2')), false);
    assert_eq!(app.current_page, 0);
}

#[test]
fn popup_swallows_keys() {
    let mut app = App::new(2);
    assert!(app.handle_events(&Event::Popup("hello".to_string()), false));
    assert_eq!(app.popup.as_deref(), Some("hello"));
    assert!(!app.handle_events(&Event::Key(Key::Char('2')), false));
    assert_eq!(app.current_page, 0);
    assert!(!app.handle_events(&Event::Key(Key::Esc), false));
    assert!(app.popup.is_none());
    assert!(app.handle_events(&Event::Tick, false));
}

#[test]
fn capturing_page_gets_everything() {
    let mut app = App::new(2);
    app.popup = Some("x".to_string());
    assert!(app.handle_events(&Event::Key(Key::Char('q')), true));
    assert!(!app.exit);
    assert!(app.handle_events(&Event::Popup("y".to_string()), true));
    assert_eq!(app.popup.as_deref(), Some("x"));
}

#[test]
fn tick_timing() {
    assert_eq!(poll_timeout(250, 100), 150);
    assert_eq!(poll_timeout(250, 400), 0);
    assert!(!tick_due(250, 249));
    assert!(tick_due(250, 250));
    assert_eq!(Key::Char('x').as_char(), Some('x'));
    assert_eq!(Key::Enter.as_char(), None);
}

#[test]
fn components() {
    let b = Button::new("Scan".to_string(), true);
    assert_eq!(b.label, "Scan");
    assert!(b.is_focused);
    assert_eq!(Popup::new("msg".to_string()).text, "msg");
    let mut input = Input { input_buff: String::new() };
    input.control(Key::Char('h'));
    input.control(Key::Enter);
    input.control(Key::Char('i'));
    assert_eq!(input.input_buff, "hi");
}

#[test]
fn main_pages_record_typing() {
    let mut page = MainContent { content: String::new() };
    page.update(Event::Key(Key::Char('o')));
    page.update(Event::Tick);
    page.update(Event::Key(Key::Up));
    page.update(Event::Key(Key::Char('k')));
    assert_eq!(page.content, "ok");
    assert_eq!(page.instructions(), vec!["noting".to_string()]);
    let mut old = ControlsMainContent { content: "a".to_string() };
    old.controls(Key::Char('b'));
    old.controls(Key::Esc);
    assert_eq!(old.content, "ab");
}

#[test]
fn button_focus_ring() {
    let mut page = LegacyPortsContent::new();
    assert_eq!(page.buttons[0].label, "Scan");
    assert_eq!(page.buttons[1].label, "Stop");
    page.update(Event::Key(Key::Right));
    assert!(!page.buttons[0].is_focused && page.buttons[1].is_focused);
    page.update(Event::Key(Key::Right));
    assert!(page.buttons[0].is_focused && !page.buttons[1].is_focused);
    page.update(Event::Key(Key::Left));
    assert!(!page.buttons[0].is_focused && page.buttons[1].is_focused);
    page.state.is_scanning = true;
    assert!(matches!(page.update(Event::Key(Key::Enter)), ContentAction::Nothing));
    assert!(!page.state.is_scanning);
    page.update(Event::Key(Key::Left));
    match page.update(Event::Key(Key::Enter)) {
        ContentAction::StartScan(IpAddress::V4(octets)) => assert_eq!(octets, [8, 8, 8, 8]),
        other => panic!("expected a scan, got {:?}", other),
    }
}

#[test]
fn legacy_page_collects_ports() {
    let mut page = LegacyPortsContent::new();
    page.update(Event::PortFound(Port {
        port: 53,
        state: "Open".to_string(),
        service: "dns".to_string(),
        banner: String::new(),
        conn_type: ConnType::Udp,
    }));
    assert_eq!(page.state.ports.len(), 1);
    assert_eq!(page.state.ports[0].port, 53);
    assert_eq!(page.state.ports[0].conn_type.as_str(), "UDP");
    page.buttons[0].is_focused = false;
    page.update(Event::Key(Key::Right));
    assert!(!page.buttons[0].is_focused && !page.buttons[1].is_focused);
    let p = LegacyPort::new(80, LegacyConnType::Tcp);
    assert_eq!(p.port, 80);
    assert_eq!(p.conn_type.as_str(), "TCP");
    assert_eq!(scan_udp(IpAddress::V4([1, 1, 1, 1]), 9).ok(), Some(16));
}
