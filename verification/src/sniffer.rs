//! The packet-capture page: a bounded list of decoded frames, newest last,
//! with a highlighted entry that follows new frames.
use vstd::prelude::*;
use crate::event::{Event, Key};
use crate::packet::{packet_accepts, packet_decodes, packet_fault, packet_parser, Packet};

verus! {

broadcast use vstd::string::group_string_axioms;

/// Most frames that the capture page keeps.
pub const MAX_PACKETS: usize = 1000;

/// The state of the capture page.
pub struct SnifferModState {
    packets: Vec<Packet>,
    selected_packet: usize,
    is_running: bool,
    max_packets: usize,
    auto_scroll: bool,
}

/// The capture page.
pub struct SnifferMod {
    state: SnifferModState,
}

/// What the application loop has to do after the capture page took an
/// event.
#[derive(Debug)]
pub enum SnifferAction {
    Nothing,
    /// Start capturing frames in the background.
    StartCapture,
}

/// The frames kept before a new one is added: the oldest is dropped when
/// the list is full.
pub open spec fn kept_before_push(packets: Seq<Packet>, max: int) -> Seq<Packet> {
    if packets.len() >= max {
        packets.skip(1)
    } else {
        packets
    }
}

impl SnifferMod {
    /// The frames held, oldest first.
    pub closed spec fn packets_view(&self) -> Seq<Packet> {
        self.state.packets@
    }

    /// Index of the highlighted frame.
    pub closed spec fn selected_view(&self) -> int {
        self.state.selected_packet as int
    }

    /// Whether a capture is running.
    pub closed spec fn running_view(&self) -> bool {
        self.state.is_running
    }

    /// Most frames held.
    pub closed spec fn max_view(&self) -> int {
        self.state.max_packets as int
    }

    /// Whether the highlight follows each new frame.
    pub closed spec fn auto_scroll_view(&self) -> bool {
        self.state.auto_scroll
    }

    /// The page's invariant: the highlight is an index, the list never
    /// holds more than its bound, and while the highlight follows new frames
    /// it stays on the list.
    pub open spec fn wf(&self) -> bool {
        &&& self.selected_view() >= 0
        &&& self.max_view() > 0
        &&& self.packets_view().len() <= self.max_view()
        &&& (self.auto_scroll_view() && self.packets_view().len() > 0) ==> self.selected_view()
            < self.packets_view().len()
    }

    /// An empty page, not capturing, holding at most `MAX_PACKETS` frames,
    /// whose highlight follows new frames.
    pub fn new() -> (m: Self)
        ensures
            m.wf(),
            m.packets_view().len() == 0,
            m.selected_view() == 0,
            !m.running_view(),
            m.max_view() == MAX_PACKETS,
            m.auto_scroll_view(),
    {
        let mod_state = SnifferModState {
            packets: Vec::with_capacity(MAX_PACKETS),
            selected_packet: 0,
            is_running: false,
            max_packets: MAX_PACKETS,
            auto_scroll: true,
        };
        Self { state: mod_state }
    }

    /// Whether a capture has to be launched: only where none is running.
    pub fn start(&mut self) -> (launch: bool)
        ensures
            launch == !old(self).running_view(),
            *final(self) == *old(self),
    {
        !self.state.is_running
    }

    /// Stopping leaves the page as it is.
    pub fn stop(&mut self)
        ensures
            *final(self) == *old(self),
    {
    }

    /// The frames held, oldest first.
    pub fn packets(&self) -> (v: &Vec<Packet>)
        ensures
            v@ == self.packets_view(),
    {
        &self.state.packets
    }

    /// Index of the highlighted frame.
    pub fn selected_packet(&self) -> (i: usize)
        ensures
            i == self.selected_view(),
    {
        self.state.selected_packet
    }

    /// The page never takes the keyboard for itself.
    pub fn captures_input(&self) -> (b: bool)
        ensures
            !b,
    {
        false
    }

    /// The key hints shown for the page.
    pub fn instructions(&self) -> (v: Vec<String>)
        ensures
            v@.len() == 1,
            v@[0]@ == "Todo"@,
    {
        vec!["Todo".to_string()]
    }

    /// Takes an event: a captured frame that decodes is added (dropping the
    /// oldest when the list is full), and keys start a capture (`s`), clear
    /// the list (`c`) or move the highlight (arrows, `j`, `k`).
    pub fn update(&mut self, event: Event) -> (act: SnifferAction)
        requires
            old(self).wf(),
            event matches Event::PacketFound(raw) ==> !packet_fault(raw@),
        ensures
            final(self).wf(),
            final(self).max_view() == old(self).max_view(),
            final(self).auto_scroll_view() == old(self).auto_scroll_view(),
            final(self).running_view() == old(self).running_view(),
            match event {
                Event::PacketFound(raw) => act is Nothing && if packet_accepts(raw@) {
                    let kept = kept_before_push(old(self).packets_view(), old(self).max_view());
                    &&& final(self).packets_view().len() == kept.len() + 1
                    &&& final(self).packets_view().drop_last() == kept
                    &&& packet_decodes(final(self).packets_view().last(), raw@)
                    &&& final(self).selected_view() == if old(self).auto_scroll_view() {
                        kept.len() as int
                    } else {
                        old(self).selected_view()
                    }
                } else {
                    *final(self) == *old(self)
                },
                Event::Key(k) => key_step(*old(self), k, *final(self), act),
                _ => act is Nothing && *final(self) == *old(self),
            },
    {
        match event {
            Event::PacketFound(raw) => {
                if let Ok(packet) = packet_parser(raw.as_slice()) {
                    let ghost before = self.state.packets@;
                    if self.state.packets.len() >= self.state.max_packets {
                        self.state.packets.remove(0);
                        assert(self.state.packets@ =~= before.skip(1));
                    }
                    let ghost kept = self.state.packets@;
                    self.state.packets.push(packet);
                    assert(self.state.packets@.drop_last() =~= kept);
                    if self.state.auto_scroll && self.state.packets.len() > 0 {
                        self.state.selected_packet = self.state.packets.len() - 1;
                    }
                }
                SnifferAction::Nothing
            },
            Event::Key(k) => match k {
                Key::Char('s') => if self.start() {
                    SnifferAction::StartCapture
                } else {
                    SnifferAction::Nothing
                },
                Key::Char('d') => {
                    self.stop();
                    SnifferAction::Nothing
                },
                Key::Char('c') => {
                    self.state.packets.clear();
                    SnifferAction::Nothing
                },
                Key::Down | Key::Char('j') => {
                    if self.state.packets.len() > 0 {
                        if self.state.selected_packet < self.state.packets.len() - 1 {
                            self.state.selected_packet += 1;
                        }
                    }
                    SnifferAction::Nothing
                },
                Key::Up | Key::Char('k') => {
                    if self.state.selected_packet > 0 {
                        self.state.selected_packet -= 1;
                    }
                    SnifferAction::Nothing
                },
                _ => SnifferAction::Nothing,
            },
            _ => SnifferAction::Nothing,
        }
    }
}

/// What key `k` does to the capture page `old`: `new` is the page after it
/// and `act` what is left for the application loop to do.
pub open spec fn key_step(old: SnifferMod, k: Key, new: SnifferMod, act: SnifferAction) -> bool {
    if k == Key::Char('s') {
        new == old && (act is StartCapture <==> !old.running_view())
    } else if k == Key::Char('c') {
        act is Nothing && new.packets_view().len() == 0 && new.selected_view() == old.selected_view()
    } else if k is Down || k == Key::Char('j') {
        act is Nothing && new.packets_view() == old.packets_view() && new.selected_view() == if 0
            < old.packets_view().len() && old.selected_view() < old.packets_view().len() - 1 {
            old.selected_view() + 1
        } else {
            old.selected_view()
        }
    } else if k is Up || k == Key::Char('k') {
        act is Nothing && new.packets_view() == old.packets_view() && new.selected_view() == if 0
            < old.selected_view() {
            old.selected_view() - 1
        } else {
            old.selected_view()
        }
    } else {
        act is Nothing && new == old
    }
}

/// Law: on the capture page, Down and Up move the highlight by one frame
/// and stop at the ends of the list: Down then Up returns to a frame that
/// was not the last, and Up at the first frame stays there.
pub proof fn lemma_sniffer_navigation(
    a: SnifferMod,
    b: SnifferMod,
    c: SnifferMod,
    act1: SnifferAction,
    act2: SnifferAction,
)
    requires
        a.wf(),
        key_step(a, Key::Down, b, act1),
        key_step(b, Key::Up, c, act2),
    ensures
        b.packets_view() == a.packets_view(),
        c.packets_view() == a.packets_view(),
        a.selected_view() + 1 < a.packets_view().len() ==> b.selected_view() == a.selected_view()
            + 1 && c.selected_view() == a.selected_view(),
        a.selected_view() + 1 >= a.packets_view().len() ==> b.selected_view()
            == a.selected_view(),
        b.selected_view() == 0 ==> c.selected_view() == 0,
        b.selected_view() > 0 ==> c.selected_view() == b.selected_view() - 1,
{
}

} // verus!
