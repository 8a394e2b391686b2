//! Port scanning: the service table, how a probe's outcome becomes a port
//! record, the planner that hands ports out to the workers and reports
//! progress, and the keyboard-driven state of the scan page.
use vstd::prelude::*;
use crate::components::Button;
use crate::event::{Event, Key};
use crate::text::{decimal_number, parse_u16, parse_u32, pop_char, push_char};

verus! {

broadcast use vstd::string::group_string_axioms;

/// A scanned port.
#[derive(Debug)]
pub struct Port {
    pub port: u16,
    pub state: String,
    pub service: String,
    pub banner: String,
    pub conn_type: ConnType,
}

/// Transport protocol of a scanned port.
#[derive(Debug)]
pub enum ConnType {
    Udp,
    Tcp,
}

pub open spec fn conn_label(c: ConnType) -> Seq<char> {
    match c {
        ConnType::Udp => "UDP"@,
        ConnType::Tcp => "TCP"@,
    }
}

impl ConnType {
    pub fn as_str(&self) -> (s: &str)
        ensures
            s@ == conn_label(*self),
    {
        match self {
            ConnType::Udp => "UDP",
            ConnType::Tcp => "TCP",
        }
    }
}

/// Where the scan page is in its work.
#[derive(PartialEq, Eq, Structural, Debug)]
pub enum ScanLabelStatus {
    Waiting,
    Scanning,
    Finished,
}

/// An IP address, held as its octets (version 4) or groups (version 6).
#[derive(Clone, Copy, Debug)]
pub enum IpAddress {
    V4([u8; 4]),
    V6([u16; 8]),
}

/// The well-known service name of a port.
pub open spec fn service_name(port: u16) -> Seq<char> {
    if port == 21 {
        "ftp"@
    } else if port == 22 {
        "ssh"@
    } else if port == 23 {
        "telnet"@
    } else if port == 25 {
        "smtp"@
    } else if port == 53 {
        "dns"@
    } else if port == 80 {
        "http"@
    } else if port == 443 {
        "https"@
    } else if port == 8080 {
        "http-proxy"@
    } else {
        "unknown"@
    }
}

/// The well-known service name of a port, `"unknown"` for others.
pub fn lookup_service(port: u16) -> (s: &'static str)
    ensures
        s@ == service_name(port),
{
    match port {
        21 => "ftp",
        22 => "ssh",
        23 => "telnet",
        25 => "smtp",
        53 => "dns",
        80 => "http",
        443 => "https",
        8080 => "http-proxy",
        _ => "unknown",
    }
}

/// Whether the prober first sends an HTTP `HEAD` request to make the
/// service answer.
pub fn wants_http_probe(port: u16) -> (b: bool)
    ensures
        b == (port == 80 || port == 8080),
{
    port == 80 || port == 8080
}

/// What a TCP connection attempt to a port came to.
#[derive(Debug)]
pub enum ProbeOutcome {
    /// No answer within the time allowed.
    TimedOut,
    /// The host refused the connection.
    Refused,
    /// The connection failed otherwise.
    Failed,
    /// The connection was made; `banner` is what the service announced.
    Connected { banner: String },
}

/// The record of a probed port.  `Ok` holds ports that answered (open or
/// closed), `Err` those that did not answer in time.
pub fn probe_result(port: u16, outcome: ProbeOutcome) -> (r: Result<Port, Port>)
    ensures
        r matches Ok(p) ==> p.port == port && p.conn_type is Tcp && p.service@ == service_name(
            port,
        ),
        r matches Err(p) ==> p.port == port && p.conn_type is Tcp && p.service@ == service_name(
            port,
        ),
        outcome is TimedOut <==> r is Err,
        r matches Err(p) ==> p.state@ == "Filtered"@ && p.banner@ == "No response (Firewall)"@,
        (outcome is Refused || outcome is Failed) ==> (r matches Ok(p) && p.state@ == "Closed"@
            && p.banner@ == "-"@),
        outcome matches ProbeOutcome::Connected { banner } ==> (r matches Ok(p) && p.state@
            == "Open"@ && p.banner == banner),
{
    let service = lookup_service(port).to_string();
    match outcome {
        ProbeOutcome::TimedOut => Err(
            Port {
                port,
                state: "Filtered".to_string(),
                service,
                banner: "No response (Firewall)".to_string(),
                conn_type: ConnType::Tcp,
            },
        ),
        ProbeOutcome::Refused => Ok(
            Port {
                port,
                state: "Closed".to_string(),
                service,
                banner: "-".to_string(),
                conn_type: ConnType::Tcp,
            },
        ),
        ProbeOutcome::Failed => Ok(
            Port {
                port,
                state: "Closed".to_string(),
                service,
                banner: "-".to_string(),
                conn_type: ConnType::Tcp,
            },
        ),
        ProbeOutcome::Connected { banner } => Ok(
            Port { port, state: "Open".to_string(), service, banner, conn_type: ConnType::Tcp },
        ),
    }
}


/// The events that report a finished probe: the port where it answered,
/// then the progress of the scan.
pub fn probe_report(result: Result<Port, Port>, progress: u32, current_probe: String, pkts_s: u64) -> (v:
    Vec<Event>)
    ensures
        result matches Ok(p) ==> v@.len() == 2 && v@[0] == Event::PortFound(p) && v@[1]
            == (Event::ScanProgress { progress, current_probe, pkts_s }),
        result is Err ==> v@.len() == 1 && v@[0] == (Event::ScanProgress {
            progress,
            current_probe,
            pkts_s,
        }),
{
    let mut v: Vec<Event> = Vec::new();
    if let Ok(p) = result {
        v.push(Event::PortFound(p));
    }
    v.push(Event::ScanProgress { progress, current_probe, pkts_s });
    v
}

/// Hands the ports `1 .. end` of a scan out to the workers, one each, and
/// keeps the counters that the progress report shows.
pub struct ScanPlanner {
    next: u16,
    end: u16,
    processed: u64,
    pkts_this_second: u64,
    current_pkts_s: u64,
}

impl ScanPlanner {
    /// The next port to hand out.
    pub closed spec fn next_view(&self) -> int {
        self.next as int
    }

    /// Ports below this bound are scanned.
    pub closed spec fn end_view(&self) -> int {
        self.end as int
    }

    /// Probes that have finished.
    pub closed spec fn processed_view(&self) -> int {
        self.processed as int
    }

    /// Probes finished since the rate was last sampled.
    pub closed spec fn pending_rate_view(&self) -> int {
        self.pkts_this_second as int
    }

    /// Probes per second at the last sample.
    pub closed spec fn rate_view(&self) -> int {
        self.current_pkts_s as int
    }

    /// Ports handed out so far.
    pub open spec fn issued(&self) -> int {
        self.next_view() - 1
    }

    /// The planner's invariant: ports are handed out from 1 upwards and
    /// never past the end, and no more probes finish than were started.
    pub closed spec fn wf(&self) -> bool {
        &&& 1 <= self.next
        &&& (self.end >= 1 ==> self.next <= self.end)
        &&& (self.end < 1 ==> self.next == 1)
        &&& self.processed + 1 <= self.next
        &&& self.pkts_this_second <= self.processed
    }

    /// The counters are never negative and the port bounds are ports.
    pub proof fn lemma_view_ranges(&self)
        ensures
            0 <= self.next_view() <= u16::MAX,
            0 <= self.end_view() <= u16::MAX,
            0 <= self.processed_view(),
            0 <= self.pending_rate_view(),
            0 <= self.rate_view(),
    {
    }

    /// A planner for the ports `1 .. range_end`.
    pub fn new(range_end: u16) -> (p: Self)
        ensures
            p.wf(),
            p.next_view() == 1,
            p.end_view() == range_end,
            p.processed_view() == 0,
            p.pending_rate_view() == 0,
            p.rate_view() == 0,
    {
        ScanPlanner { next: 1, end: range_end, processed: 0, pkts_this_second: 0, current_pkts_s: 0 }
    }

    /// Hands out the next port, or `None` once every port has been handed
    /// out.
    pub fn next_port(&mut self) -> (r: Option<u16>)
        requires
            old(self).wf(),
        ensures
            final(self).wf(),
            old(self).next_view() < old(self).end_view() ==> r == Some(old(self).next_view() as u16)
                && final(self).next_view() == old(self).next_view() + 1,
            old(self).next_view() >= old(self).end_view() ==> r is None && final(self).next_view()
                == old(self).next_view(),
            final(self).end_view() == old(self).end_view(),
            final(self).processed_view() == old(self).processed_view(),
            final(self).pending_rate_view() == old(self).pending_rate_view(),
            final(self).rate_view() == old(self).rate_view(),
    {
        if self.next < self.end {
            let p = self.next;
            self.next = self.next + 1;
            Some(p)
        } else {
            None
        }
    }

    /// The ports for the first `max_workers` probes (fewer where the range
    /// holds fewer).
    pub fn initial_ports(&mut self, max_workers: u16) -> (v: Vec<u16>)
        requires
            old(self).wf(),
        ensures
            final(self).wf(),
            v@.len() == if old(self).end_view() - old(self).next_view() < max_workers as int {
                if old(self).end_view() > old(self).next_view() {
                    old(self).end_view() - old(self).next_view()
                } else {
                    0
                }
            } else {
                max_workers as int
            },
            forall|i: int| 0 <= i < v@.len() ==> v@[i] == old(self).next_view() + i,
            final(self).next_view() == old(self).next_view() + v@.len(),
            final(self).end_view() == old(self).end_view(),
            final(self).processed_view() == old(self).processed_view(),
            final(self).pending_rate_view() == old(self).pending_rate_view(),
            final(self).rate_view() == old(self).rate_view(),
    {
        let mut v: Vec<u16> = Vec::new();
        let mut k: u16 = 0;
        while k < max_workers
            invariant
                self.wf(),
                k <= max_workers,
                v@.len() <= k,
                v@.len() == k || self.next_view() >= self.end_view(),
                forall|i: int| 0 <= i < v@.len() ==> v@[i] == old(self).next_view() + i,
                self.next_view() == old(self).next_view() + v@.len(),
                self.end_view() == old(self).end_view(),
                self.processed_view() == old(self).processed_view(),
                self.pending_rate_view() == old(self).pending_rate_view(),
                self.rate_view() == old(self).rate_view(),
            decreases max_workers - k,
        {
            if let Some(p) = self.next_port() {
                v.push(p);
            }
            k += 1;
        }
        v
    }

    /// Probes started and not yet finished.
    pub fn in_flight(&self) -> (n: u64)
        requires
            self.wf(),
        ensures
            n == self.issued() - self.processed_view(),
    {
        (self.next - 1) as u64 - self.processed
    }

    /// Records that a probe has finished: counts it, samples the rate where
    /// a second has passed, and hands out the port for the next probe.
    pub fn on_task_done(&mut self, second_elapsed: bool) -> (r: Option<u16>)
        requires
            old(self).wf(),
            old(self).processed_view() < old(self).issued(),
        ensures
            final(self).wf(),
            final(self).processed_view() == old(self).processed_view() + 1,
            second_elapsed ==> final(self).rate_view() == old(self).pending_rate_view() + 1
                && final(self).pending_rate_view() == 0,
            !second_elapsed ==> final(self).rate_view() == old(self).rate_view()
                && final(self).pending_rate_view() == old(self).pending_rate_view() + 1,
            final(self).end_view() == old(self).end_view(),
            old(self).next_view() < old(self).end_view() ==> r == Some(old(self).next_view() as u16)
                && final(self).next_view() == old(self).next_view() + 1,
            old(self).next_view() >= old(self).end_view() ==> r is None && final(self).next_view()
                == old(self).next_view(),
    {
        self.processed = self.processed + 1;
        self.pkts_this_second = self.pkts_this_second + 1;
        let next = self.next_port();
        if second_elapsed {
            self.current_pkts_s = self.pkts_this_second;
            self.pkts_this_second = 0;
        }
        next
    }

    /// Percentage of the range that has been probed.
    pub fn progress(&self) -> (pct: u32)
        requires
            self.wf(),
            self.processed_view() > 0,
        ensures
            pct as int == self.processed_view() * 100 / self.end_view(),
            pct < 100,
    {
        let p = self.processed * 100 / (self.end as u64);
        proof {
            lemma_share_below_whole(self.processed as int, self.end as int);
        }
        p as u32
    }

    /// Probes per second at the last sample.
    pub fn pkts_per_second(&self) -> (r: u64)
        ensures
            r == self.rate_view(),
    {
        self.current_pkts_s
    }
}

proof fn lemma_share_below_whole(part: int, whole: int)
    requires
        0 <= part < whole,
    ensures
        part * 100 / whole < 100,
{
    assert(part * 100 / whole < 100) by (nonlinear_arith)
        requires
            0 <= part < whole,
    ;
}

/// Law: a planner hands out each port of its range exactly once, in
/// increasing order: once `next_port` says `None`, every port `1 .. end`
/// has been handed out.
pub proof fn lemma_planner_exhausted(p: ScanPlanner)
    requires
        p.wf(),
        p.next_view() >= p.end_view(),
    ensures
        p.issued() == if p.end_view() >= 1 {
            p.end_view() - 1
        } else {
            0
        },
{
}


/// A setting of the scan that the settings pop-up can edit.
#[derive(Clone, Copy, Debug)]
pub enum ActiveSetting {
    TargetIP,
    PortRange,
    ScanSpeed,
}

/// Number of entries in the settings list.
pub const SETTINGS_COUNT: usize = 3;

pub open spec fn setting_spec(i: int) -> ActiveSetting {
    if i == 0 {
        ActiveSetting::TargetIP
    } else if i == 1 {
        ActiveSetting::PortRange
    } else {
        ActiveSetting::ScanSpeed
    }
}

/// The settings in the order in which the list shows them.
pub fn setting_at(i: usize) -> (s: ActiveSetting)
    requires
        i < SETTINGS_COUNT,
    ensures
        s == setting_spec(i as int),
{
    if i == 0 {
        ActiveSetting::TargetIP
    } else if i == 1 {
        ActiveSetting::PortRange
    } else {
        ActiveSetting::ScanSpeed
    }
}

/// Most samples that the traffic history keeps.
pub const TRAFFIC_HISTORY_MAX: usize = 40;

/// The state of the scan page.
pub struct ScanState {
    pub scan_state: ScanLabelStatus,
    /// `None`: no pop-up; `Some(None)`: the settings list; `Some(Some(s))`:
    /// the editor of setting `s`.
    pub settings_popup_state: Option<Option<ActiveSetting>>,
    /// Highlighted entry of the settings list.
    pub settings_selected: Option<usize>,
    pub validation_error: String,
    pub max_speed_buff: String,
    pub ip_buff: String,
    pub ip_address: IpAddress,
    pub range_buff: String,
    /// Ports `1 .. range_end` are scanned.
    pub range_end: u16,
    pub max_speed: u32,
    pub ports: Vec<Port>,
    pub traffic_history: Vec<u64>,
    pub scan_progress: u32,
    pub current_probe: String,
    /// Highlighted entry of the list of found ports.
    pub list_selected: Option<usize>,
}

/// What the application loop has to do after the scan page took an event.
#[derive(Debug)]
pub enum PortsAction {
    Nothing,
    /// Launch a scan as described.
    StartScan(ScanRequest),
    /// Read the typed address (`ip_buff`) and hand the outcome to
    /// `PortsContent::apply_ip_input`.
    ValidateIp,
}

/// The parameters of a scan to launch.
#[derive(Debug)]
pub struct ScanRequest {
    pub ip: IpAddress,
    pub range_end: u16,
    pub max_workers: u16,
}

/// The scan page: its state and its two buttons.
pub struct PortsContent {
    pub state: ScanState,
    pub buttons: Vec<Button>,
}

/// The selection after moving up in a wrapping list of `len` entries.
pub open spec fn wrap_up(sel: Option<usize>, len: int) -> Option<usize> {
    match sel {
        Some(i) => Some(
            if i == 0 {
                (len - 1) as usize
            } else {
                (i - 1) as usize
            },
        ),
        None => Some(0),
    }
}

/// The selection after moving down in a wrapping list of `len` entries.
pub open spec fn wrap_down(sel: Option<usize>, len: int) -> Option<usize> {
    match sel {
        Some(i) => Some(
            if i >= len - 1 {
                0
            } else {
                (i + 1) as usize
            },
        ),
        None => Some(0),
    }
}

/// A selection that is either absent or inside a list of `len` entries.
pub open spec fn selection_in(sel: Option<usize>, len: int) -> bool {
    sel matches Some(i) ==> i < len
}

/// The invariant of the scan page's state: the traffic history stays
/// bounded, the settings cursor stays on the list, and a non-empty port
/// list has a highlighted entry.
pub open spec fn scan_state_wf(s: ScanState) -> bool {
    &&& s.traffic_history@.len() <= TRAFFIC_HISTORY_MAX
    &&& selection_in(s.settings_selected, SETTINGS_COUNT as int)
    &&& s.ports@.len() > 0 ==> (s.list_selected matches Some(i) && i < s.ports@.len())
}

/// The traffic history after recording `sample`: the oldest sample is
/// dropped when it would hold more than `TRAFFIC_HISTORY_MAX`.
pub open spec fn history_after(h: Seq<u64>, sample: u64) -> Seq<u64> {
    if h.len() + 1 > TRAFFIC_HISTORY_MAX {
        h.push(sample).skip(1)
    } else {
        h.push(sample)
    }
}

fn wrap_up_exec(sel: Option<usize>, len: usize) -> (r: Option<usize>)
    requires
        len > 0,
    ensures
        r == wrap_up(sel, len as int),
{
    match sel {
        Some(i) => Some(
            if i == 0 {
                len - 1
            } else {
                i - 1
            },
        ),
        None => Some(0),
    }
}

fn wrap_down_exec(sel: Option<usize>, len: usize) -> (r: Option<usize>)
    requires
        len > 0,
    ensures
        r == wrap_down(sel, len as int),
{
    match sel {
        Some(i) => Some(
            if i >= len - 1 {
                0
            } else {
                i + 1
            },
        ),
        None => Some(0),
    }
}

/// What starting a scan does to the page (see `PortsContent::start_scan`).
pub open spec fn start_step(old: ScanState, new: ScanState, act: PortsAction) -> bool {
    if old.scan_state != ScanLabelStatus::Scanning {
        &&& act matches PortsAction::StartScan(q) && q.ip == old.ip_address && q.range_end
            == old.range_end && q.max_workers == old.max_speed as u16
        &&& new == (ScanState {
            ports: new.ports,
            scan_state: ScanLabelStatus::Scanning,
            scan_progress: 0,
            current_probe: new.current_probe,
            ..old
        })
        &&& new.ports@.len() == 0
        &&& new.current_probe@ == "INITIALIZING NODE..."@
    } else {
        act is Nothing && new == old
    }
}

/// The text typed into an editor after key `k`: characters are appended,
/// and, where `erases` holds, Backspace removes the last one.
pub open spec fn edited(buff: Seq<char>, k: Key, erases: bool) -> Seq<char> {
    match k {
        Key::Char(c) => buff.push(c),
        Key::Backspace => if erases && buff.len() > 0 {
            buff.drop_last()
        } else {
            buff
        },
        _ => buff,
    }
}

/// What key `k` does to the scan page in state `old`: `new` is the state
/// after it and `act` what is left for the application loop to do.
pub open spec fn key_step(old: ScanState, k: Key, new: ScanState, act: PortsAction) -> bool {
    match old.settings_popup_state {
        Some(Some(ActiveSetting::TargetIP)) => match k {
            Key::Char(c) => act is Nothing && new == (ScanState { ip_buff: new.ip_buff, ..old })
                && new.ip_buff@ == old.ip_buff@.push(c),
            Key::Esc => act is Nothing && new == (ScanState { settings_popup_state: None, ..old }),
            Key::Enter => act is ValidateIp && new == old,
            _ => act is Nothing && new == old,
        },
        Some(Some(ActiveSetting::PortRange)) => act is Nothing && match k {
            Key::Char(_) => new == (ScanState { range_buff: new.range_buff, ..old })
                && new.range_buff@ == edited(old.range_buff@, k, true),
            Key::Backspace => new == (ScanState { range_buff: new.range_buff, ..old })
                && new.range_buff@ == edited(old.range_buff@, k, true),
            Key::Enter => match decimal_number(old.range_buff@, u16::MAX as int) {
                Some(v) => new == (ScanState {
                    range_end: v as u16,
                    settings_popup_state: None,
                    ..old
                }),
                None => new == (ScanState { validation_error: new.validation_error, ..old })
                    && new.validation_error@
                    == "[Error: Invalid range] \n only integers are allowed."@,
            },
            Key::Esc => new == (ScanState { settings_popup_state: None, ..old }),
            _ => new == old,
        },
        Some(Some(ActiveSetting::ScanSpeed)) => act is Nothing && match k {
            Key::Char(c) => new == (ScanState { max_speed_buff: new.max_speed_buff, ..old })
                && new.max_speed_buff@ == old.max_speed_buff@.push(c),
            Key::Enter => match decimal_number(old.max_speed_buff@, u32::MAX as int) {
                Some(v) => new == (ScanState {
                    max_speed: v as u32,
                    settings_popup_state: None,
                    ..old
                }),
                None => new == old,
            },
            Key::Esc => new == (ScanState { settings_popup_state: None, ..old }),
            _ => new == old,
        },
        Some(None) => act is Nothing && if k is Esc {
            new == (ScanState { settings_popup_state: None, ..old })
        } else if k is Enter {
            match old.settings_selected {
                Some(i) => new == (ScanState {
                    settings_popup_state: Some(Some(setting_spec(i as int))),
                    ..old
                }),
                None => new == old,
            }
        } else if k is Up || k == Key::Char('k') {
            new == (ScanState {
                settings_selected: wrap_up(old.settings_selected, SETTINGS_COUNT as int),
                ..old
            })
        } else if k is Down || k == Key::Char('j') {
            new == (ScanState {
                settings_selected: wrap_down(old.settings_selected, SETTINGS_COUNT as int),
                ..old
            })
        } else {
            new == old
        },
        None => if k is Up || k == Key::Char('k') {
            act is Nothing && new == (ScanState {
                list_selected: if old.ports@.len() > 0 {
                    wrap_up(old.list_selected, old.ports@.len() as int)
                } else {
                    old.list_selected
                },
                ..old
            })
        } else if k is Down || k == Key::Char('j') {
            act is Nothing && new == (ScanState {
                list_selected: if old.ports@.len() > 0 {
                    wrap_down(old.list_selected, old.ports@.len() as int)
                } else {
                    old.list_selected
                },
                ..old
            })
        } else if k == Key::F(5) {
            start_step(old, new, act)
        } else if k == Key::F(9) {
            act is Nothing && new == (ScanState { settings_popup_state: Some(None), ..old })
        } else {
            act is Nothing && new == old
        },
    }
}

impl PortsContent {
    /// The page's invariant: `scan_state_wf` and its two buttons.
    pub open spec fn wf(&self) -> bool {
        self.buttons@.len() == 2 && scan_state_wf(self.state)
    }

    /// The page as it opens: idle, scanning ports `1 .. 10000` of
    /// `127.0.0.1` with 200 workers, with thirty empty traffic samples.
    pub fn new() -> (c: Self)
        ensures
            c.wf(),
            scan_state_wf(c.state),
            c.state.scan_state == ScanLabelStatus::Waiting,
            c.state.settings_popup_state is None,
            c.state.settings_selected is None,
            c.state.validation_error@ == Seq::<char>::empty(),
            c.state.max_speed_buff@ == Seq::<char>::empty(),
            c.state.ip_buff@ == Seq::<char>::empty(),
            c.state.range_buff@ == Seq::<char>::empty(),
            c.state.ip_address == IpAddress::V4([127, 0, 0, 1]),
            c.state.range_end == 10000,
            c.state.max_speed == 200,
            c.state.ports@.len() == 0,
            c.state.traffic_history@ == Seq::new(30, |i: int| 0u64),
            c.state.scan_progress == 0,
            c.state.current_probe@ == "READY"@,
            c.state.list_selected is None,
            c.buttons@[0].label@ == "Scan"@,
            c.buttons@[0].is_focused,
            c.buttons@[1].label@ == "IpAddr"@,
            !c.buttons@[1].is_focused,
    {
        let buttons = vec![
            Button::new("Scan".to_string(), true),
            Button::new("IpAddr".to_string(), false),
        ];
        let traffic_history = vec![0u64; 30];
        assert(traffic_history@ =~= Seq::new(30, |i: int| 0u64));
        let state = ScanState {
            max_speed: 200,
            settings_selected: None,
            range_end: 10000,
            range_buff: String::new(),
            max_speed_buff: String::new(),
            ports: Vec::new(),
            scan_state: ScanLabelStatus::Waiting,
            settings_popup_state: None,
            validation_error: String::new(),
            ip_buff: String::new(),
            ip_address: IpAddress::V4([127, 0, 0, 1]),
            traffic_history,
            scan_progress: 0,
            current_probe: "READY".to_string(),
            list_selected: None,
        };
        Self { buttons, state }
    }

    /// The scan to launch, unless one is running: clears the found ports
    /// and marks the page as scanning.
    pub fn start_scan(&mut self) -> (r: Option<ScanRequest>)
        requires
            old(self).wf(),
        ensures
            final(self).wf(),
            final(self).buttons == old(self).buttons,
            old(self).state.scan_state == ScanLabelStatus::Scanning ==> r is None && *final(self)
                == *old(self),
            old(self).state.scan_state != ScanLabelStatus::Scanning ==> {
                &&& r matches Some(q) && q.ip == old(self).state.ip_address && q.range_end
                    == old(self).state.range_end && q.max_workers == old(self).state.max_speed as u16
                &&& final(self).state == (ScanState {
                    ports: final(self).state.ports,
                    scan_state: ScanLabelStatus::Scanning,
                    scan_progress: 0,
                    current_probe: final(self).state.current_probe,
                    ..old(self).state
                })
                &&& final(self).state.ports@.len() == 0
                &&& final(self).state.current_probe@ == "INITIALIZING NODE..."@
            },
    {
        if self.state.scan_state != ScanLabelStatus::Scanning {
            self.state.ports.clear();
            self.state.scan_state = ScanLabelStatus::Scanning;
            self.state.scan_progress = 0;
            self.state.current_probe = "INITIALIZING NODE...".to_string();
            Some(
                ScanRequest {
                    ip: self.state.ip_address,
                    range_end: self.state.range_end,
                    max_workers: self.state.max_speed as u16,
                },
            )
        } else {
            None
        }
    }


    /// Takes an event: scan progress and results update the page, keys
    /// drive the settings pop-up and the list of found ports (see
    /// `key_step`).
    pub fn update(&mut self, event: Event) -> (act: PortsAction)
        requires
            old(self).wf(),
        ensures
            final(self).wf(),
            final(self).buttons == old(self).buttons,
            match event {
                Event::ScanProgress { progress, current_probe, pkts_s } => act is Nothing
                    && final(self).state == (ScanState {
                    scan_progress: progress,
                    current_probe: current_probe,
                    traffic_history: final(self).state.traffic_history,
                    ..old(self).state
                }) && final(self).state.traffic_history@ == history_after(
                    old(self).state.traffic_history@,
                    pkts_s,
                ),
                Event::ScanFinished => act is Nothing && final(self).state == (ScanState {
                    scan_state: ScanLabelStatus::Finished,
                    scan_progress: 100,
                    current_probe: final(self).state.current_probe,
                    ..old(self).state
                }) && final(self).state.current_probe@ == "SCAN COMPLETE."@,
                Event::PortFound(p) => act is Nothing && final(self).state == (ScanState {
                    ports: final(self).state.ports,
                    list_selected: Some(old(self).state.ports@.len() as usize),
                    ..old(self).state
                }) && final(self).state.ports@ == old(self).state.ports@.push(p),
                Event::Key(k) => key_step(old(self).state, k, final(self).state, act),
                _ => act is Nothing && final(self).state == old(self).state,
            },
    {
        if self.buttons.len() == 0 {
            return PortsAction::Nothing;
        }
        match event {
            Event::ScanProgress { progress, current_probe, pkts_s } => {
                self.state.scan_progress = progress;
                self.state.current_probe = current_probe;
                self.state.traffic_history.push(pkts_s);
                if self.state.traffic_history.len() > TRAFFIC_HISTORY_MAX {
                    let ghost pushed = self.state.traffic_history@;
                    self.state.traffic_history.remove(0);
                    assert(self.state.traffic_history@ =~= pushed.skip(1));
                }
                PortsAction::Nothing
            },
            Event::ScanFinished => {
                self.state.scan_state = ScanLabelStatus::Finished;
                self.state.scan_progress = 100;
                self.state.current_probe = "SCAN COMPLETE.".to_string();
                PortsAction::Nothing
            },
            Event::PortFound(p) => {
                self.state.ports.push(p);
                self.state.list_selected = Some(self.state.ports.len() - 1);
                PortsAction::Nothing
            },
            Event::Key(k) => self.on_key(k),
            _ => PortsAction::Nothing,
        }
    }

    fn on_key(&mut self, k: Key) -> (act: PortsAction)
        requires
            old(self).wf(),
        ensures
            final(self).wf(),
            final(self).buttons == old(self).buttons,
            key_step(old(self).state, k, final(self).state, act),
    {
        let popup = self.state.settings_popup_state;
        match popup {
            Some(Some(ActiveSetting::TargetIP)) => match k {
                Key::Char(c) => {
                    push_char(&mut self.state.ip_buff, c);
                    PortsAction::Nothing
                },
                Key::Esc => {
                    self.state.settings_popup_state = None;
                    PortsAction::Nothing
                },
                Key::Enter => PortsAction::ValidateIp,
                _ => PortsAction::Nothing,
            },
            Some(Some(ActiveSetting::PortRange)) => {
                match k {
                    Key::Char(c) => {
                        push_char(&mut self.state.range_buff, c);
                    },
                    Key::Backspace => {
                        pop_char(&mut self.state.range_buff);
                    },
                    Key::Enter => {
                        match parse_u16(self.state.range_buff.as_str()) {
                            Some(range) => {
                                self.state.range_end = range;
                                self.state.settings_popup_state = None;
                            },
                            None => {
                                self.state.validation_error =
                                    "[Error: Invalid range] \n only integers are allowed.".to_string();
                            },
                        }
                    },
                    Key::Esc => {
                        self.state.settings_popup_state = None;
                    },
                    _ => {},
                }
                PortsAction::Nothing
            },
            Some(Some(ActiveSetting::ScanSpeed)) => {
                match k {
                    Key::Char(c) => {
                        push_char(&mut self.state.max_speed_buff, c);
                    },
                    Key::Enter => {
                        if let Some(max_speed) = parse_u32(self.state.max_speed_buff.as_str()) {
                            self.state.max_speed = max_speed;
                            self.state.settings_popup_state = None;
                        }
                    },
                    Key::Esc => {
                        self.state.settings_popup_state = None;
                    },
                    _ => {},
                }
                PortsAction::Nothing
            },
            Some(None) => {
                match k {
                    Key::Esc => {
                        self.state.settings_popup_state = None;
                    },
                    Key::Enter => {
                        if let Some(i) = self.state.settings_selected {
                            self.state.settings_popup_state = Some(Some(setting_at(i)));
                        }
                    },
                    Key::Up | Key::Char('k') => {
                        self.state.settings_selected = wrap_up_exec(
                            self.state.settings_selected,
                            SETTINGS_COUNT,
                        );
                    },
                    Key::Down | Key::Char('j') => {
                        self.state.settings_selected = wrap_down_exec(
                            self.state.settings_selected,
                            SETTINGS_COUNT,
                        );
                    },
                    _ => {},
                }
                PortsAction::Nothing
            },
            None => {
                match k {
                    Key::Up | Key::Char('k') => {
                        if self.state.ports.len() > 0 {
                            self.state.list_selected = wrap_up_exec(
                                self.state.list_selected,
                                self.state.ports.len(),
                            );
                        }
                        PortsAction::Nothing
                    },
                    Key::Down | Key::Char('j') => {
                        if self.state.ports.len() > 0 {
                            self.state.list_selected = wrap_down_exec(
                                self.state.list_selected,
                                self.state.ports.len(),
                            );
                        }
                        PortsAction::Nothing
                    },
                    Key::F(5) => match self.start_scan() {
                        Some(q) => PortsAction::StartScan(q),
                        None => PortsAction::Nothing,
                    },
                    Key::F(9) => {
                        self.state.settings_popup_state = Some(None);
                        PortsAction::Nothing
                    },
                    _ => PortsAction::Nothing,
                }
            },
        }
    }

    /// Whether the page takes the keyboard for itself (a pop-up is open).
    pub fn captures_input(&self) -> (b: bool)
        ensures
            b == self.state.settings_popup_state is Some,
    {
        self.state.settings_popup_state.is_some()
    }

    /// The key hints shown for the page.
    pub fn instructions(&self) -> (v: Vec<String>)
        ensures
            v@.len() == 2,
            v@[0]@ == "[F5: Scan]"@,
            v@[1]@ == "[F9: Settings]"@,
    {
        vec!["[F5: Scan]".to_string(), "[F9: Settings]".to_string()]
    }

    /// Completes the editing of the target address once the typed text has
    /// been read: a valid address replaces the target and closes the
    /// editor, anything else leaves an error message.
    pub fn apply_ip_input(&mut self, parsed: Option<IpAddress>)
        requires
            old(self).wf(),
        ensures
            final(self).wf(),
            final(self).buttons == old(self).buttons,
            parsed matches Some(ip) ==> final(self).state == (ScanState {
                ip_address: ip,
                settings_popup_state: None,
                ..old(self).state
            }),
            parsed is None ==> final(self).state == (ScanState {
                validation_error: final(self).state.validation_error,
                ..old(self).state
            }) && final(self).state.validation_error@ == "[Error: Invalid IP]"@,
    {
        match parsed {
            Some(ip) => {
                self.state.ip_address = ip;
                self.state.settings_popup_state = None;
            },
            None => {
                self.state.validation_error = "[Error: Invalid IP]".to_string();
            },
        }
    }
}


/// Law: in a wrapping list, moving down and then up (or up and then down)
/// comes back to the entry one started from.
pub proof fn lemma_wrap_round_trip(i: usize, len: int)
    requires
        i < len <= usize::MAX,
    ensures
        wrap_up(wrap_down(Some(i), len), len) == Some(i),
        wrap_down(wrap_up(Some(i), len), len) == Some(i),
{
}

/// Law: moving through a wrapping list of `len` entries never leaves it.
pub proof fn lemma_wrap_stays_in_list(sel: Option<usize>, len: int)
    requires
        0 < len <= usize::MAX,
        selection_in(sel, len),
    ensures
        selection_in(wrap_up(sel, len), len),
        selection_in(wrap_down(sel, len), len),
{
}

/// Law: recording a sample keeps the newest samples in order: the result
/// is the last `min(|h| + 1, TRAFFIC_HISTORY_MAX)` entries of `h` followed by
/// the sample, so a full history loses exactly its oldest entry.
pub proof fn lemma_history_keeps_newest(h: Seq<u64>, sample: u64)
    requires
        h.len() <= TRAFFIC_HISTORY_MAX,
    ensures
        ({
            let r = history_after(h, sample);
            let all = h + seq![sample];
            &&& r.len() == if h.len() + 1 <= TRAFFIC_HISTORY_MAX {
                h.len() + 1int
            } else {
                TRAFFIC_HISTORY_MAX as int
            }
            &&& forall|i: int| 0 <= i < r.len() ==> #[trigger] r[i] == all[all.len() - r.len() + i]
        }),
        h.len() == TRAFFIC_HISTORY_MAX ==> history_after(h, sample) == h.subrange(1, h.len() as int)
            + seq![sample],
{
    let r = history_after(h, sample);
    let all = h + seq![sample];
    assert(h.push(sample) =~= all);
    if h.len() == TRAFFIC_HISTORY_MAX {
        assert(r =~= h.subrange(1, h.len() as int) + seq![sample]);
    }
}

/// Law: the traffic history never holds more than `TRAFFIC_HISTORY_MAX`
/// samples, and the newest sample is always the last one kept.
pub proof fn lemma_history_bounded(h: Seq<u64>, sample: u64)
    requires
        h.len() <= TRAFFIC_HISTORY_MAX,
    ensures
        history_after(h, sample).len() <= TRAFFIC_HISTORY_MAX,
        history_after(h, sample).last() == sample,
        h.len() < TRAFFIC_HISTORY_MAX ==> history_after(h, sample) == h.push(sample),
{
}

} // verus!
