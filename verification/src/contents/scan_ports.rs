//! The button-driven scan page: a focus ring over its buttons, and the
//! list of ports found.
use vstd::prelude::*;
use crate::components::Button;
use crate::event::{Event, Key};
use crate::scan::IpAddress;

verus! {

broadcast use vstd::string::group_string_axioms;

/// A port found by the scan.
#[derive(Debug)]
pub struct Port {
    pub port: u16,
    pub conn_type: ConnType,
}

impl Port {
    pub fn new(port: u16, conn_type: ConnType) -> (p: Self)
        ensures
            p.port == port,
            p.conn_type == conn_type,
    {
        Self { port, conn_type }
    }
}

/// Transport protocol of a found port.
#[derive(Debug)]
pub enum ConnType {
    Udp,
    Tcp,
}

pub open spec fn conn_label(c: ConnType) -> Seq<char> {
    match c {
        ConnType::Udp => "UDP"@,
        ConnType::Tcp => "TCP"@,
    }
}

impl ConnType {
    pub fn as_str(&self) -> (s: &str)
        ensures
            s@ == conn_label(*self),
    {
        match self {
            ConnType::Udp => "UDP",
            ConnType::Tcp => "TCP",
        }
    }
}

/// The found ports and whether a scan runs.
pub struct ScanState {
    pub ports: Vec<Port>,
    pub is_scanning: bool,
}

/// The scan page: its state and its buttons.
pub struct PortsContent {
    pub state: ScanState,
    pub buttons: Vec<Button>,
}

/// What the application loop has to do after the page took an event.
#[derive(Debug)]
pub enum ContentAction {
    Nothing,
    /// Launch a scan of this address.
    StartScan(IpAddress),
}

/// The protocol of a port reported by the scanner.
pub open spec fn conn_type_of(c: crate::scan::ConnType) -> ConnType {
    match c {
        crate::scan::ConnType::Udp => ConnType::Udp,
        crate::scan::ConnType::Tcp => ConnType::Tcp,
    }
}

/// The address that the page scans.
pub open spec fn scan_target() -> IpAddress {
    IpAddress::V4([8, 8, 8, 8])
}

/// A UDP probe; it reports port 16 whatever it is given.
pub fn scan_udp(ip: IpAddress, port: u16) -> (r: Result<u16, String>)
    ensures
        r == Ok::<u16, String>(16),
{
    Ok(16)
}

/// Index of the first focused button.
pub open spec fn first_focused(bs: Seq<Button>) -> Option<int> {
    if exists|i: int| 0 <= i < bs.len() && bs[i].is_focused {
        Some(
            choose|i: int|
                0 <= i < bs.len() && bs[i].is_focused && forall|j: int|
                    0 <= j < i ==> !(#[trigger] bs[j]).is_focused,
        )
    } else {
        None
    }
}

/// The focus after moving right in a ring of `n` buttons.
pub open spec fn focus_right(h: int, n: int) -> int {
    (h + 1) % n
}

/// The focus after moving left in a ring of `n` buttons.
pub open spec fn focus_left(h: int, n: int) -> int {
    if h == 0 {
        n - 1
    } else {
        h - 1
    }
}

/// The buttons after the focus moves from `from` to `to`.
pub open spec fn refocused(bs: Seq<Button>, from: int, to: int) -> Seq<Button> {
    bs.update(from, Button { is_focused: false, ..bs[from] }).update(
        to,
        Button { is_focused: true, ..bs[to] },
    )
}

impl PortsContent {
    /// The page as it opens: no ports, no scan, the `Scan` button focused
    /// and a `Stop` button beside it.
    pub fn new() -> (c: Self)
        ensures
            c.state.ports@.len() == 0,
            !c.state.is_scanning,
            c.buttons@.len() == 2,
            c.buttons@[0].label@ == "Scan"@,
            c.buttons@[0].is_focused,
            c.buttons@[1].label@ == "Stop"@,
            !c.buttons@[1].is_focused,
    {
        let buttons = vec![
            Button::new("Scan".to_string(), true),
            Button::new("Stop".to_string(), false),
        ];
        let state = ScanState { ports: Vec::new(), is_scanning: false };
        Self { buttons, state }
    }

    /// The address to scan.
    pub fn start_scan(&mut self) -> (ip: IpAddress)
        ensures
            ip == scan_target(),
            *final(self) == *old(self),
    {
        IpAddress::V4([8, 8, 8, 8])
    }

    /// Marks the scan as stopped.
    pub fn stop_scan(&mut self)
        ensures
            final(self).state.ports == old(self).state.ports,
            !final(self).state.is_scanning,
            final(self).buttons == old(self).buttons,
    {
        self.state.is_scanning = false;
    }

    fn focused_index(&self) -> (r: Option<usize>)
        ensures
            r matches Some(i) ==> first_focused(self.buttons@) == Some(i as int) && i
                < self.buttons@.len() && self.buttons@[i as int].is_focused,
            r is None ==> first_focused(self.buttons@) is None,
    {
        let mut i: usize = 0;
        while i < self.buttons.len()
            invariant
                i <= self.buttons@.len(),
                forall|j: int| 0 <= j < i ==> !(#[trigger] self.buttons@[j]).is_focused,
            decreases self.buttons@.len() - i,
        {
            if self.buttons[i].is_focused {
                assert(0 <= i < self.buttons@.len() && self.buttons@[i as int].is_focused);
                let ghost c = choose|k: int|
                    0 <= k < self.buttons@.len() && self.buttons@[k].is_focused && forall|j: int|
                        0 <= j < k ==> !(#[trigger] self.buttons@[j]).is_focused;
                assert(c == i) by {
                    if c < i {
                        assert(!self.buttons@[c].is_focused);
                    }
                    if c > i {
                        assert(!self.buttons@[i as int].is_focused);
                    }
                }
                return Some(i);
            }
            i += 1;
        }
        None
    }

    /// Takes an event while a button has the focus: Right and Left move the
    /// focus round the ring, Enter presses the focused button (`Scan` asks
    /// for a scan, `Stop` stops), and found ports are added to the list.
    pub fn update(&mut self, event: Event) -> (act: ContentAction)
        ensures
            first_focused(old(self).buttons@) is None ==> *final(self) == *old(self)
                && act is Nothing,
            first_focused(old(self).buttons@) matches Some(h) ==> {
                let n = old(self).buttons@.len() as int;
                match event {
                    Event::Key(Key::Right) => act is Nothing && final(self).state
                        == old(self).state && final(self).buttons@ == refocused(
                        old(self).buttons@,
                        h,
                        focus_right(h, n),
                    ),
                    Event::Key(Key::Left) => act is Nothing && final(self).state
                        == old(self).state && final(self).buttons@ == refocused(
                        old(self).buttons@,
                        h,
                        focus_left(h, n),
                    ),
                    Event::Key(Key::Enter) => if h == 0 {
                        act == ContentAction::StartScan(scan_target()) && *final(self)
                            == *old(self)
                    } else if h == 1 {
                        act is Nothing && !final(self).state.is_scanning && final(self).state.ports
                            == old(self).state.ports && final(self).buttons == old(self).buttons
                    } else {
                        act is Nothing && *final(self) == *old(self)
                    },
                    Event::PortFound(p) => act is Nothing && final(self).buttons
                        == old(self).buttons && final(self).state.is_scanning
                        == old(self).state.is_scanning && final(self).state.ports@
                        == old(self).state.ports@.push(
                        (Port { port: p.port, conn_type: conn_type_of(p.conn_type) }),
                    ),
                    _ => act is Nothing && *final(self) == *old(self),
                }
            },
    {
        if self.buttons.len() == 0 {
            return ContentAction::Nothing;
        }
        let hover = match self.focused_index() {
            Some(h) => h,
            None => return ContentAction::Nothing,
        };
        let n = self.buttons.len();
        match event {
            Event::Key(k) => match k {
                Key::Right => {
                    let next = (hover + 1) % n;
                    self.buttons[hover].is_focused = false;
                    self.buttons[next].is_focused = true;
                    ContentAction::Nothing
                },
                Key::Left => {
                    let prev = if hover == 0 {
                        n - 1
                    } else {
                        hover - 1
                    };
                    self.buttons[hover].is_focused = false;
                    self.buttons[prev].is_focused = true;
                    ContentAction::Nothing
                },
                Key::Enter => {
                    if hover == 0 {
                        ContentAction::StartScan(self.start_scan())
                    } else if hover == 1 {
                        self.stop_scan();
                        ContentAction::Nothing
                    } else {
                        ContentAction::Nothing
                    }
                },
                _ => ContentAction::Nothing,
            },
            Event::PortFound(p) => {
                let conn_type = match p.conn_type {
                    crate::scan::ConnType::Udp => ConnType::Udp,
                    crate::scan::ConnType::Tcp => ConnType::Tcp,
                };
                self.state.ports.push(Port::new(p.port, conn_type));
                ContentAction::Nothing
            },
            _ => ContentAction::Nothing,
        }
    }
}

/// Law: in the focus ring, moving right and then left (or left and then
/// right) gives the focus back to the button that had it.
pub proof fn lemma_focus_round_trip(h: int, n: int)
    requires
        0 <= h < n,
    ensures
        focus_left(focus_right(h, n), n) == h,
        focus_right(focus_left(h, n), n) == h,
        0 <= focus_right(h, n) < n,
        0 <= focus_left(h, n) < n,
{
    if h + 1 < n {
        assert((h + 1) % n == h + 1) by (nonlinear_arith)
            requires
                0 <= h + 1 < n,
        ;
    } else {
        assert((h + 1) % n == 0) by (nonlinear_arith)
            requires
                h + 1 == n,
                n > 0,
        ;
    }
    if h == 0 {
        assert((n - 1 + 1) % n == 0) by (nonlinear_arith)
            requires
                n > 0,
        ;
    } else {
        assert((h - 1 + 1) % n == h) by (nonlinear_arith)
            requires
                0 < h < n,
        ;
    }
}

} // verus!
