//! What the pages show: titles, labels and which details of a port appear.
use vstd::prelude::*;
use crate::scan::{ActiveSetting, Port, ScanLabelStatus};

verus! {

broadcast use vstd::string::group_string_axioms;

/// The title of the scan page in each status.
pub open spec fn scan_title_spec(status: ScanLabelStatus) -> Seq<char> {
    match status {
        ScanLabelStatus::Waiting => " [ SYSTEM IDLE: PORTS ] "@,
        ScanLabelStatus::Scanning => " [ BREACH IN PROGRESS: SCANNING... ] "@,
        ScanLabelStatus::Finished => " [ DATA EXTRACTION FINISHED ] "@,
    }
}

/// The title of the scan page.
pub fn scan_title(status: &ScanLabelStatus) -> (s: &'static str)
    ensures
        s@ == scan_title_spec(*status),
{
    match status {
        ScanLabelStatus::Waiting => " [ SYSTEM IDLE: PORTS ] ",
        ScanLabelStatus::Scanning => " [ BREACH IN PROGRESS: SCANNING... ] ",
        ScanLabelStatus::Finished => " [ DATA EXTRACTION FINISHED ] ",
    }
}

/// How a port's state is shown.
#[derive(Debug, Clone, Copy)]
pub enum PortStateKind {
    Online,
    Filtered,
    Offline,
}

pub open spec fn port_state_kind_spec(state: Seq<char>) -> PortStateKind {
    if state == "Open"@ {
        PortStateKind::Online
    } else if state == "Filtered"@ {
        PortStateKind::Filtered
    } else {
        PortStateKind::Offline
    }
}

/// How a port's state is shown: open ports are online, filtered ones
/// filtered, the rest offline.
pub fn port_state_kind(p: &Port) -> (k: PortStateKind)
    ensures
        k == port_state_kind_spec(p.state@),
{
    let open = "Open".to_string();
    let filtered = "Filtered".to_string();
    if p.state == open {
        PortStateKind::Online
    } else if p.state == filtered {
        PortStateKind::Filtered
    } else {
        PortStateKind::Offline
    }
}

pub open spec fn badge_label_spec(k: PortStateKind) -> Seq<char> {
    match k {
        PortStateKind::Online => "  [ONLINE]  "@,
        PortStateKind::Filtered => " [Filtered]  "@,
        PortStateKind::Offline => " [OFFLINE]  "@,
    }
}

/// The label of a port state.
pub fn badge_label(k: PortStateKind) -> (s: &'static str)
    ensures
        s@ == badge_label_spec(k),
{
    match k {
        PortStateKind::Online => "  [ONLINE]  ",
        PortStateKind::Filtered => " [Filtered]  ",
        PortStateKind::Offline => " [OFFLINE]  ",
    }
}

pub open spec fn badge_glyph_spec(k: PortStateKind) -> Seq<char> {
    match k {
        PortStateKind::Online => "\u{26A1}"@,
        PortStateKind::Filtered => "\u{1F512}"@,
        PortStateKind::Offline => "\u{2716}"@,
    }
}

/// The symbol of a port state.
pub fn badge_glyph(k: PortStateKind) -> (s: &'static str)
    ensures
        s@ == badge_glyph_spec(k),
{
    match k {
        PortStateKind::Online => "\u{26A1}",
        PortStateKind::Filtered => "\u{1F512}",
        PortStateKind::Offline => "\u{2716}",
    }
}

/// Whether a port's service is shown: only for open ports.
pub fn shows_service(p: &Port) -> (b: bool)
    ensures
        b == (p.state@ == "Open"@),
{
    let open = "Open".to_string();
    p.state == open
}

/// Whether a port's banner is shown: for open ports whose banner is
/// neither empty nor one of the placeholders `No banner` and `-`.
pub fn shows_banner(p: &Port) -> (b: bool)
    ensures
        b == (p.state@ == "Open"@ && p.banner@ != "No banner"@ && p.banner@.len() > 0
            && p.banner@ != "-"@),
{
    let open = "Open".to_string();
    let none = "No banner".to_string();
    let dash = "-".to_string();
    p.state == open && p.banner != none && !p.banner.as_str().is_empty() && p.banner != dash
}

pub open spec fn setting_label_spec(s: ActiveSetting) -> Seq<char> {
    match s {
        ActiveSetting::TargetIP => " Target IP:   "@,
        ActiveSetting::PortRange => " Port Range:  "@,
        ActiveSetting::ScanSpeed => " Scan Speed:  "@,
    }
}

/// The label of a setting in the settings list.
pub fn setting_label(s: ActiveSetting) -> (l: &'static str)
    ensures
        l@ == setting_label_spec(s),
{
    match s {
        ActiveSetting::TargetIP => " Target IP:   ",
        ActiveSetting::PortRange => " Port Range:  ",
        ActiveSetting::ScanSpeed => " Scan Speed:  ",
    }
}

pub open spec fn editor_prompt_spec(s: ActiveSetting, has_error: bool) -> Seq<char> {
    match s {
        ActiveSetting::TargetIP => if has_error {
            " [CRITICAL_ERR]: INVALID IP NODE COORD!"@
        } else {
            " >> Enter Target IP Address:"@
        },
        ActiveSetting::PortRange => if has_error {
            " [CRITICAL_ERR]: Invalid format!\n valid formar: xx..xx"@
        } else {
            " >> Enter new Ports Range"@
        },
        ActiveSetting::ScanSpeed => if has_error {
            " [CRITICAL_ERR]: Invalid input.\n only integers are allowed;"@
        } else {
            " >> Enter new Scan Speed"@
        },
    }
}

/// The prompt of a setting's editor; an error message while the last
/// entry was refused.
pub fn editor_prompt(s: ActiveSetting, has_error: bool) -> (l: &'static str)
    ensures
        l@ == editor_prompt_spec(s, has_error),
{
    match s {
        ActiveSetting::TargetIP => if has_error {
            " [CRITICAL_ERR]: INVALID IP NODE COORD!"
        } else {
            " >> Enter Target IP Address:"
        },
        ActiveSetting::PortRange => if has_error {
            " [CRITICAL_ERR]: Invalid format!\n valid formar: xx..xx"
        } else {
            " >> Enter new Ports Range"
        },
        ActiveSetting::ScanSpeed => if has_error {
            " [CRITICAL_ERR]: Invalid input.\n only integers are allowed;"
        } else {
            " >> Enter new Scan Speed"
        },
    }
}

} // verus!
