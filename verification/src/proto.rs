//! Clipboard protocol layer on top of the [`Connection`].
//!
//! Two compositor protocols expose the clipboard to focus-less clients, and
//! both share an identical opcode layout, so a single code path drives either:
//!
//! * `ext-data-control-v1` — the standardized protocol. Manager version 1;
//!   primary selection is core.
//! * `wlr-data-control-unstable-v1` — the wlroots protocol. Manager version 2
//!   adds primary-selection support.
//!
//! When both are advertised, `ext` is preferred.

use crate::bytes;
use crate::bytes::ByteOrder;
use crate::connection;
use crate::connection::Connection;
use crate::connection::ConnectionView;
use crate::connection::Front;
use crate::error::Error;
use crate::error::ErrorView;
use crate::text;
use crate::text::str_eq;
use crate::wire;
use crate::wire::ArgReader;
use crate::wire::ArgView;
use crate::wire::Message;
use crate::wire::MessageView;
use crate::wire::Msg;
use crate::wire::MsgView;
use crate::wire::DISPLAY_ID;
use std::collections::HashMap;
use vstd::prelude::*;

verus! {

broadcast use {crate::bytes::word_len, vstd::std_specs::hash::group_hash_axioms};

// wl_display requests
pub const DISPLAY_SYNC: u16 = 0;

pub const DISPLAY_GET_REGISTRY: u16 = 1;

// wl_display events
pub const DISPLAY_ERROR: u16 = 0;

// wl_callback events
pub const CALLBACK_DONE: u16 = 0;

// wl_registry request / events
pub const REGISTRY_BIND: u16 = 0;

pub const REGISTRY_GLOBAL: u16 = 0;

// data_control_manager requests (ext and wlr share these)
pub const MANAGER_CREATE_SOURCE: u16 = 0;

pub const MANAGER_GET_DEVICE: u16 = 1;

// data_control_device requests
pub const DEVICE_SET_SELECTION: u16 = 0;

pub const DEVICE_SET_PRIMARY_SELECTION: u16 = 2;

// data_control_device events
pub const DEVICE_DATA_OFFER: u16 = 0;

pub const DEVICE_SELECTION: u16 = 1;

pub const DEVICE_FINISHED: u16 = 2;

pub const DEVICE_PRIMARY_SELECTION: u16 = 3;

// data_control_source request / events
pub const SOURCE_OFFER: u16 = 0;

pub const SOURCE_SEND: u16 = 0;

pub const SOURCE_CANCELLED: u16 = 1;

// data_control_offer request / event
pub const OFFER_RECEIVE: u16 = 0;

pub const OFFER_OFFER: u16 = 0;

pub const SEAT: &'static str = "wl_seat";

pub const EXT_MANAGER: &'static str = "ext_data_control_manager_v1";

pub const WLR_MANAGER: &'static str = "zwlr_data_control_manager_v1";

/// A data-control manager global discovered in the registry.
pub struct Manager {
    pub name: u32,
    pub interface: String,
    /// Version we will bind at (capped to what we understand).
    pub version: u32,
    /// Higher wins when several managers are advertised.
    pub rank: u32,
}

/// What a [`Manager`] holds.
#[verifier::ext_equal]
pub struct ManagerView {
    pub name: u32,
    pub interface: Seq<char>,
    pub version: u32,
    pub rank: u32,
}

impl View for Manager {
    type V = ManagerView;

    open spec fn view(&self) -> ManagerView {
        ManagerView {
            name: self.name,
            interface: self.interface@,
            version: self.version,
            rank: self.rank,
        }
    }
}

/// All mutable state threaded through the event loop.
pub struct State {
    pub registry_id: u32,
    pub seat_global: Option<u32>,
    pub manager: Option<Manager>,
    pub manager_id: u32,
    pub device_id: u32,
    pub source_id: u32,
    /// Pending data offers and the MIME types each advertises (paste side).
    pub offers: HashMap<u32, Vec<String>>,
    /// The offer backing the regular selection, or `None` if empty.
    pub selection: Option<u32>,
    /// The offer backing the primary selection, or `None` if empty.
    pub primary_selection: Option<u32>,
    /// Bytes served to pasting clients (copy side).
    pub data: Vec<u8>,
    /// Number of paste requests to serve before stopping; 0 means unlimited.
    pub loops: u32,
    pub served: u32,
    /// Set once the copy daemon should stop (loops reached, or selection lost).
    pub finished: bool,
    /// Set when another client took over our selection.
    pub cancelled: bool,
}

/// What a [`State`] holds.
#[verifier::ext_equal]
pub struct StateView {
    pub registry_id: u32,
    pub seat_global: Option<u32>,
    pub manager: Option<ManagerView>,
    pub manager_id: u32,
    pub device_id: u32,
    pub source_id: u32,
    pub offers: Map<u32, Seq<Seq<char>>>,
    pub selection: Option<u32>,
    pub primary_selection: Option<u32>,
    pub data: Seq<u8>,
    pub loops: u32,
    pub served: u32,
    pub finished: bool,
    pub cancelled: bool,
}

/// The manager that was found, if any.
pub open spec fn manager_view(manager: Option<Manager>) -> Option<ManagerView> {
    match manager {
        Some(m) => Some(m@),
        None => None,
    }
}

/// The MIME types of each offer.
pub open spec fn offers_view(offers: Map<u32, Vec<String>>) -> Map<u32, Seq<Seq<char>>> {
    offers.map_values(|mimes: Vec<String>| text::texts(mimes@))
}

impl View for State {
    type V = StateView;

    open spec fn view(&self) -> StateView {
        StateView {
            registry_id: self.registry_id,
            seat_global: self.seat_global,
            manager: manager_view(self.manager),
            manager_id: self.manager_id,
            device_id: self.device_id,
            source_id: self.source_id,
            offers: offers_view(self.offers@),
            selection: self.selection,
            primary_selection: self.primary_selection,
            data: self.data@,
            loops: self.loops,
            served: self.served,
            finished: self.finished,
            cancelled: self.cancelled,
        }
    }
}

/// The smaller of two numbers.
pub open spec fn capped(version: u32, limit: u32) -> u32 {
    if version <= limit {
        version
    } else {
        limit
    }
}

/// The manager that a global amounts to, if it is one.
pub open spec fn manager_of(name: u32, interface: Seq<char>, version: u32) -> Option<ManagerView> {
    if interface == EXT_MANAGER@ {
        Some(ManagerView { name, interface, version: capped(version, 1), rank: 2 })
    } else if interface == WLR_MANAGER@ {
        Some(ManagerView { name, interface, version: capped(version, 2), rank: 1 })
    } else {
        None
    }
}

impl StateView {
    /// The state before anything was received.
    pub open spec fn initial() -> StateView {
        StateView {
            registry_id: 0,
            seat_global: None,
            manager: None,
            manager_id: 0,
            device_id: 0,
            source_id: 0,
            offers: Map::empty(),
            selection: None,
            primary_selection: None,
            data: Seq::empty(),
            loops: 0,
            served: 0,
            finished: false,
            cancelled: false,
        }
    }

    /// The manager is one that a global can amount to.
    pub open spec fn wf(self) -> bool {
        self.manager matches Some(m) ==> manager_of(m.name, m.interface, m.version) == Some(m)
    }

    /// The data device is an object of its own.
    pub open spec fn has_device(self) -> bool {
        self.device_id > DISPLAY_ID && self.device_id != self.registry_id
    }

    /// The data source is an object of its own.
    pub open spec fn has_source(self) -> bool {
        &&& self.source_id > DISPLAY_ID
        &&& self.source_id != self.registry_id
        &&& self.source_id != self.device_id
    }

    /// Whether as many paste requests were served as there are to be.
    pub open spec fn limit_reached(self) -> bool {
        self.loops != 0 && self.served >= self.loops
    }

    /// The MIME types that an offer advertises; none for an unknown offer.
    pub open spec fn offer_mimes(self, offer: u32) -> Seq<Seq<char>> {
        if self.offers.contains_key(offer) {
            self.offers[offer]
        } else {
            Seq::empty()
        }
    }

    /// Whether the negotiated protocol has the primary selection: ext has it in
    /// its core, wlr gained it in version 2.
    pub open spec fn primary_supported(self) -> bool {
        match self.manager {
            Some(m) => m.interface == EXT_MANAGER@ || m.version >= 2,
            None => false,
        }
    }

    /// The state once a registry global was recorded: the first seat stays,
    /// and a manager gives way to one of higher rank only.
    pub open spec fn with_global(self, name: u32, interface: Seq<char>, version: u32) -> StateView {
        if interface == SEAT@ {
            if self.seat_global is Some {
                self
            } else {
                StateView { seat_global: Some(name), ..self }
            }
        } else {
            match manager_of(name, interface, version) {
                Some(m) => if self.manager matches Some(old) && old.rank >= m.rank {
                    self
                } else {
                    StateView { manager: Some(m), ..self }
                },
                None => self,
            }
        }
    }
}

impl State {
    pub fn new() -> (st: State)
        ensures
            st@ == StateView::initial(),
            st@.wf(),
    {
        let st: State = State {
            registry_id: 0,
            seat_global: None,
            manager: None,
            manager_id: 0,
            device_id: 0,
            source_id: 0,
            offers: HashMap::new(),
            selection: None,
            primary_selection: None,
            data: Vec::new(),
            loops: 0,
            served: 0,
            finished: false,
            cancelled: false,
        };
        assert(st@ =~= StateView::initial());
        st
    }

    /// MIME types advertised by a given offer (paste side).
    pub fn offer_mimes(&self, offer: u32) -> (mimes: &[String])
        ensures
            text::texts(mimes@) == self@.offer_mimes(offer),
    {
        let mimes: &[String] = match self.offers.get(&offer) {
            Some(mimes) => mimes.as_slice(),
            None => &[],
        };
        assert(text::texts(mimes@) =~= self@.offer_mimes(offer));
        mimes
    }

    /// Whether as many paste requests were served as there are to be.
    pub fn limit_reached(&self) -> (yes: bool)
        ensures
            yes == self@.limit_reached(),
    {
        self.loops != 0 && self.served >= self.loops
    }

    /// Whether the negotiated protocol/version supports the primary selection.
    pub fn primary_supported(&self) -> (yes: bool)
        ensures
            yes == self@.primary_supported(),
    {
        match &self.manager {
            // ext-data-control has primary selection in its core (v1);
            // wlr-data-control gained it in version 2.
            Some(m) => str_eq(m.interface.as_str(), EXT_MANAGER) || m.version >= 2,
            None => false,
        }
    }
}

/// Record a useful registry global (seat or a data-control manager).
pub fn handle_global(st: &mut State, name: u32, interface: &str, version: u32)
    ensures
        final(st)@ == old(st)@.with_global(name, interface@, version),
        old(st)@.wf() ==> final(st)@.wf(),
{
    if str_eq(interface, SEAT) {
        if st.seat_global.is_none() {
            st.seat_global = Some(name);
        }
        return ;
    }
    // Prefer ext-data-control over wlr-data-control when both exist.
    let (rank, max_version): (u32, u32) = if str_eq(interface, EXT_MANAGER) {
        (2, 1)
    } else if str_eq(interface, WLR_MANAGER) {
        (1, 2)
    } else {
        return ;
    };
    let better: bool = match &st.manager {
        Some(m) => rank > m.rank,
        None => true,
    };
    if better {
        let version: u32 = if version <= max_version {
            version
        } else {
            max_version
        };
        st.manager = Some(Manager { name, interface: interface.to_owned(), version, rank });
    }
}

// Events.

/// What an event from the compositor means to the client.
pub enum Event {
    /// A protocol error that the display reports.
    Fault { object: u32, code: u32, text: String },
    /// A registry global.
    Global { name: u32, interface: String, version: u32 },
    /// A new data offer.
    NewOffer(u32),
    /// The regular selection is now this offer; 0 means none.
    Selection(u32),
    /// The primary selection is now this offer; 0 means none.
    PrimarySelection(u32),
    /// The data device is gone.
    DeviceFinished,
    /// A client wants to paste what we offer.
    PasteRequest,
    /// Another client took over our selection.
    Cancelled,
    /// An offer advertises a MIME type.
    Mime { offer: u32, mime: String },
    /// Nothing that needs action.
    Ignored,
}

/// What an [`Event`] holds.
pub enum EventView {
    Fault { object: u32, code: u32, text: Seq<char> },
    Global { name: u32, interface: Seq<char>, version: u32 },
    NewOffer(u32),
    Selection(u32),
    PrimarySelection(u32),
    DeviceFinished,
    PasteRequest,
    Cancelled,
    Mime { offer: u32, mime: Seq<char> },
    Ignored,
}

impl View for Event {
    type V = EventView;

    open spec fn view(&self) -> EventView {
        match self {
            Event::Fault { object, code, text } => EventView::Fault {
                object: *object,
                code: *code,
                text: text@,
            },
            Event::Global { name, interface, version } => EventView::Global {
                name: *name,
                interface: interface@,
                version: *version,
            },
            Event::NewOffer(id) => EventView::NewOffer(*id),
            Event::Selection(id) => EventView::Selection(*id),
            Event::PrimarySelection(id) => EventView::PrimarySelection(*id),
            Event::DeviceFinished => EventView::DeviceFinished,
            Event::PasteRequest => EventView::PasteRequest,
            Event::Cancelled => EventView::Cancelled,
            Event::Mime { offer, mime } => EventView::Mime { offer: *offer, mime: mime@ },
            Event::Ignored => EventView::Ignored,
        }
    }
}

/// The text of a string argument, empty for the null string.
pub open spec fn text_or_empty(s: Option<Seq<char>>) -> Seq<char> {
    match s {
        Some(text) => text,
        None => Seq::empty(),
    }
}

/// The event of the display object.
pub open spec fn display_event(opcode: u16, r: ArgView) -> Option<EventView> {
    if opcode != DISPLAY_ERROR {
        Some(EventView::Ignored)
    } else if r.has_uint() && r.after_uint().has_uint()
        && r.after_uint().after_uint().has_string() {
        Some(
            EventView::Fault {
                object: r.uint(),
                code: r.after_uint().uint(),
                text: text_or_empty(r.after_uint().after_uint().string()),
            },
        )
    } else {
        None
    }
}

/// The event of the registry.
pub open spec fn registry_event(opcode: u16, r: ArgView) -> Option<EventView> {
    if opcode != REGISTRY_GLOBAL {
        Some(EventView::Ignored)
    } else if r.has_uint() && r.after_uint().has_string()
        && r.after_uint().after_string().has_uint() {
        Some(
            EventView::Global {
                name: r.uint(),
                interface: text_or_empty(r.after_uint().string()),
                version: r.after_uint().after_string().uint(),
            },
        )
    } else {
        None
    }
}

/// The event of the data device.
pub open spec fn device_event(opcode: u16, r: ArgView) -> Option<EventView> {
    if opcode == DEVICE_FINISHED {
        Some(EventView::DeviceFinished)
    } else if opcode > DEVICE_PRIMARY_SELECTION {
        Some(EventView::Ignored)
    } else if !r.has_uint() {
        None
    } else if opcode == DEVICE_DATA_OFFER {
        Some(EventView::NewOffer(r.uint()))
    } else if opcode == DEVICE_SELECTION {
        Some(EventView::Selection(r.uint()))
    } else {
        Some(EventView::PrimarySelection(r.uint()))
    }
}

/// The event of our data source.
pub open spec fn source_event(opcode: u16, r: ArgView) -> Option<EventView> {
    if opcode == SOURCE_SEND {
        if r.has_string() {
            Some(EventView::PasteRequest)
        } else {
            None
        }
    } else if opcode == SOURCE_CANCELLED {
        Some(EventView::Cancelled)
    } else {
        Some(EventView::Ignored)
    }
}

/// The event of a known data offer.
pub open spec fn offer_event(offer: u32, opcode: u16, r: ArgView) -> Option<EventView> {
    if opcode != OFFER_OFFER {
        Some(EventView::Ignored)
    } else if !r.has_string() {
        None
    } else {
        match r.string() {
            Some(mime) => Some(EventView::Mime { offer, mime }),
            None => Some(EventView::Ignored),
        }
    }
}

/// What a message means, by the object that sent it; `None` where it is too
/// short for its arguments.
pub open spec fn event_of(
    order: ByteOrder,
    st: StateView,
    msg: MessageView,
) -> Option<EventView> {
    let r = ArgView::start(order, msg.args);
    if msg.sender == DISPLAY_ID {
        display_event(msg.opcode, r)
    } else if msg.sender == st.registry_id {
        registry_event(msg.opcode, r)
    } else if st.device_id != 0 && msg.sender == st.device_id {
        device_event(msg.opcode, r)
    } else if st.source_id != 0 && msg.sender == st.source_id {
        source_event(msg.opcode, r)
    } else if st.offers.contains_key(msg.sender) {
        offer_event(msg.sender, msg.opcode, r)
    } else {
        Some(EventView::Ignored)
    }
}

/// The event that was read, if any.
pub open spec fn event_view(event: Option<Event>) -> Option<EventView> {
    match event {
        Some(e) => Some(e@),
        None => None,
    }
}

fn or_empty(s: Option<String>) -> (text: String)
    ensures
        text@ == match s {
            Some(t) => t@,
            None => Seq::empty(),
        },
{
    match s {
        Some(t) => t,
        None => String::new(),
    }
}

/// Reads what a message means, by the object that sent it; `None` where it is
/// too short for its arguments.
pub fn read_event(order: ByteOrder, st: &State, msg: &Message) -> (event: Option<Event>)
    ensures
        event_view(event) == event_of(order, st@, msg@),
{
    let mut r: ArgReader = ArgReader::in_order(order, msg.args.as_slice());

    if msg.sender == DISPLAY_ID {
        if msg.opcode != DISPLAY_ERROR {
            // delete_id and any other display events need no action here.
            return Some(Event::Ignored);
        }
        if !r.has_uint() {
            return None;
        }
        let object: u32 = r.uint();
        if !r.has_uint() {
            return None;
        }
        let code: u32 = r.uint();
        if !r.has_string() {
            return None;
        }
        let text: String = or_empty(r.string());
        return Some(Event::Fault { object, code, text });
    }
    if msg.sender == st.registry_id {
        if msg.opcode != REGISTRY_GLOBAL {
            return Some(Event::Ignored);
        }
        if !r.has_uint() {
            return None;
        }
        let name: u32 = r.uint();
        if !r.has_string() {
            return None;
        }
        let interface: String = or_empty(r.string());
        if !r.has_uint() {
            return None;
        }
        let version: u32 = r.uint();
        return Some(Event::Global { name, interface, version });
    }
    if st.device_id != 0 && msg.sender == st.device_id {
        if msg.opcode == DEVICE_FINISHED {
            return Some(Event::DeviceFinished);
        }
        if msg.opcode > DEVICE_PRIMARY_SELECTION {
            return Some(Event::Ignored);
        }
        if !r.has_uint() {
            return None;
        }
        if msg.opcode == DEVICE_DATA_OFFER {
            return Some(Event::NewOffer(r.new_id()));
        }
        let id: u32 = r.object();
        return if msg.opcode == DEVICE_SELECTION {
            Some(Event::Selection(id))
        } else {
            Some(Event::PrimarySelection(id))
        };
    }
    if st.source_id != 0 && msg.sender == st.source_id {
        if msg.opcode == SOURCE_SEND {
            return if r.has_string() {
                Some(Event::PasteRequest)
            } else {
                None
            };
        }
        return if msg.opcode == SOURCE_CANCELLED {
            Some(Event::Cancelled)
        } else {
            Some(Event::Ignored)
        };
    }
    if st.offers.contains_key(&msg.sender) && msg.opcode == OFFER_OFFER {
        if !r.has_string() {
            return None;
        }
        return match r.string() {
            Some(mime) => Some(Event::Mime { offer: msg.sender, mime }),
            None => Some(Event::Ignored),
        };
    }
    Some(Event::Ignored)
}

/// Outside work that an event asks for.
#[derive(Clone, Copy, PartialEq, Eq, Structural, Debug)]
pub enum Effect {
    Nothing,
    /// Write the served data to this descriptor and close it.
    Deliver(i32),
}

/// What is left once an event was handled.
pub struct Handled {
    pub conn: ConnectionView,
    pub st: StateView,
    pub result: Result<Effect, ErrorView>,
}

/// An object reference, of which 0 is none.
pub open spec fn nonzero(id: u32) -> Option<u32> {
    if id != 0 {
        Some(id)
    } else {
        None
    }
}

impl StateView {
    /// The state once a paste request was served.
    pub open spec fn after_paste(self) -> StateView {
        let served = ((self.served + 1) % 0x1_0000_0000) as u32;
        StateView {
            served,
            finished: self.finished || (self.loops != 0 && served >= self.loops),
            ..self
        }
    }

    /// The state after an event.
    pub open spec fn after(self, event: EventView) -> StateView {
        match event {
            EventView::Global { name, interface, version } => self.with_global(
                name,
                interface,
                version,
            ),
            EventView::NewOffer(id) => StateView {
                offers: self.offers.insert(id, Seq::empty()),
                ..self
            },
            EventView::Selection(id) => StateView { selection: nonzero(id), ..self },
            EventView::PrimarySelection(id) => StateView {
                primary_selection: nonzero(id),
                ..self
            },
            EventView::DeviceFinished => StateView { finished: true, ..self },
            EventView::PasteRequest => self.after_paste(),
            EventView::Cancelled => StateView { cancelled: true, finished: true, ..self },
            EventView::Mime { offer, mime } => StateView {
                offers: self.offers.insert(offer, self.offer_mimes(offer).push(mime)),
                ..self
            },
            EventView::Fault { .. } | EventView::Ignored => self,
        }
    }
}

/// What an event does. A paste request takes the oldest descriptor, if one is
/// there, and asks for the data to be written to it.
pub open spec fn handled(
    conn: ConnectionView,
    st: StateView,
    event: EventView,
) -> Handled {
    match event {
        EventView::Fault { object, code, text } => Handled {
            conn,
            st,
            result: Err(ErrorView::Protocol { object, code, text }),
        },
        EventView::PasteRequest => if conn.fds.len() > 0 {
            Handled {
                conn: ConnectionView { fds: conn.fds.skip(1), ..conn },
                st: st.after(event),
                result: Ok(Effect::Deliver(conn.fds[0])),
            }
        } else {
            Handled { conn, st: st.after(event), result: Ok(Effect::Nothing) }
        },
        _ => Handled { conn, st: st.after(event), result: Ok(Effect::Nothing) },
    }
}

/// Whether a result is the one that is described.
pub open spec fn gives<T>(
    r: Result<T, Error>,
    described: Result<T, ErrorView>,
) -> bool {
    match (r, described) {
        (Ok(x), Ok(y)) => x == y,
        (Err(e), Err(v)) => e@ == v,
        _ => false,
    }
}

/// Carries out an event.
pub fn handle_event(conn: &mut Connection, st: &mut State, event: Event) -> (r: Result<Effect, Error>)
    requires
        event matches Event::Mime { offer, .. } ==> old(st)@.offers.contains_key(offer),
    ensures
        ({
            let done = handled(old(conn)@, old(st)@, event@);
            final(conn)@ == done.conn && final(st)@ == done.st && gives(r, done.result)
        }),
        old(st)@.wf() ==> final(st)@.wf(),
{
    match event {
        Event::Fault { object, code, text } => {
            return Err(Error::Protocol { object, code, text });
        },
        Event::Global { name, interface, version } => {
            handle_global(st, name, interface.as_str(), version);
        },
        Event::NewOffer(id) => {
            let none: Vec<String> = Vec::new();
            st.offers.insert(id, none);
            assert(text::texts(none@) =~= Seq::empty());
            assert(st@.offers =~= old(st)@.offers.insert(id, Seq::empty()));
        },
        Event::Selection(id) => {
            st.selection = if id != 0 {
                Some(id)
            } else {
                None
            };
        },
        Event::PrimarySelection(id) => {
            st.primary_selection = if id != 0 {
                Some(id)
            } else {
                None
            };
        },
        Event::DeviceFinished => {
            st.finished = true;
        },
        Event::PasteRequest => {
            let fd: Option<i32> = conn.take_fd();
            st.served = st.served.wrapping_add(1);
            if st.limit_reached() {
                st.finished = true;
            }
            return match fd {
                Some(fd) => Ok(Effect::Deliver(fd)),
                None => Ok(Effect::Nothing),
            };
        },
        Event::Cancelled => {
            st.cancelled = true;
            st.finished = true;
        },
        Event::Mime { offer, mime } => {
            if let Some(mimes) = st.offers.remove(&offer) {
                let mut mimes: Vec<String> = mimes;
                let ghost before = mimes@;
                mimes.push(mime);
                proof {
                    text::texts_push(before, mime);
                }
                st.offers.insert(offer, mimes);
            }
            assert(st@.offers =~= old(st)@.offers.insert(
                offer,
                old(st)@.offer_mimes(offer).push(mime@),
            ));
        },
        Event::Ignored => {},
    }
    Ok(Effect::Nothing)
}

/// Route one event to the right handler based on its sender object.
pub fn dispatch(conn: &mut Connection, st: &mut State, msg: &Message) -> (r: Result<Effect, Error>)
    requires
        event_of(old(conn)@.order, old(st)@, msg@) is Some,
    ensures
        ({
            let event = event_of(old(conn)@.order, old(st)@, msg@).unwrap();
            let done = handled(old(conn)@, old(st)@, event);
            final(conn)@ == done.conn && final(st)@ == done.st && gives(r, done.result)
        }),
        old(st)@.wf() ==> final(st)@.wf(),
{
    match read_event(conn.order(), st, msg) {
        Some(event) => handle_event(conn, st, event),
        None => Ok(Effect::Nothing),
    }
}

// Requests.

/// A request without descriptors.
pub open spec fn request(
    order: ByteOrder,
    sender: u32,
    opcode: u16,
    body: Seq<u8>,
) -> MsgView {
    MsgView { order, sender, opcode, body, fds: Seq::empty() }
}

/// `wl_display.sync`
pub open spec fn sync(order: ByteOrder, callback: u32) -> MsgView {
    request(order, DISPLAY_ID, DISPLAY_SYNC, bytes::word(order, callback))
}

/// `wl_display.get_registry`
pub open spec fn get_registry(order: ByteOrder, registry: u32) -> MsgView {
    request(order, DISPLAY_ID, DISPLAY_GET_REGISTRY, bytes::word(order, registry))
}

/// `wl_registry.bind`, which is the same for any global: name, interface,
/// version, id.
pub open spec fn bind(
    order: ByteOrder,
    registry: u32,
    name: u32,
    interface: Seq<char>,
    version: u32,
    id: u32,
) -> MsgView {
    request(
        order,
        registry,
        REGISTRY_BIND,
        bytes::word(order, name) + wire::string_field(order, interface)
            + bytes::word(order, version) + bytes::word(order, id),
    )
}

/// `data_control_manager.get_data_device`
pub open spec fn get_device(
    order: ByteOrder,
    manager: u32,
    device: u32,
    seat: u32,
) -> MsgView {
    request(
        order,
        manager,
        MANAGER_GET_DEVICE,
        bytes::word(order, device) + bytes::word(order, seat),
    )
}

/// `data_control_manager.create_data_source`
pub open spec fn create_source(order: ByteOrder, manager: u32, source: u32) -> MsgView {
    request(order, manager, MANAGER_CREATE_SOURCE, bytes::word(order, source))
}

/// `data_control_source.offer`, once for each type.
pub open spec fn source_offers(
    order: ByteOrder,
    source: u32,
    mimes: Seq<Seq<char>>,
) -> Seq<MsgView> {
    Seq::new(
        mimes.len(),
        |i: int|
            request(order, source, SOURCE_OFFER, wire::string_field(order, mimes[i])),
    )
}

/// `data_control_device.set_selection` or `.set_primary_selection`
pub open spec fn install_source(
    order: ByteOrder,
    device: u32,
    source: u32,
    primary: bool,
) -> MsgView {
    request(
        order,
        device,
        if primary {
            DEVICE_SET_PRIMARY_SELECTION
        } else {
            DEVICE_SET_SELECTION
        },
        bytes::word(order, source),
    )
}

/// `data_control_offer.receive`
pub open spec fn receive_offer(
    order: ByteOrder,
    offer: u32,
    mime: Seq<char>,
    fd: i32,
) -> MsgView {
    MsgView {
        fds: seq![fd],
        ..request(order, offer, OFFER_RECEIVE, wire::string_field(order, mime))
    }
}

/// The connection once the requests were queued in order, up to the first one
/// that is too large, and whether all of them fit.
pub open spec fn sent_all(
    conn: ConnectionView,
    msgs: Seq<MsgView>,
) -> (ConnectionView, bool)
    decreases msgs.len(),
{
    if msgs.len() == 0 {
        (conn, true)
    } else {
        let (before, fit) = sent_all(conn, msgs.drop_last());
        if fit {
            before.sent(msgs.last())
        } else {
            (before, false)
        }
    }
}

// The event loop, one event at a time.

/// How far one step of the event loop got.
#[derive(Clone, Copy, PartialEq, Eq, Structural, Debug)]
pub enum Progress {
    /// There is no whole event: receive, then try again.
    NeedInput,
    /// An event was handled.
    Handled(Effect),
    /// What was waited for has happened.
    Done,
}

/// What is left after one step of the event loop.
pub struct Pumped {
    pub conn: ConnectionView,
    pub st: StateView,
    pub result: Result<Progress, ErrorView>,
}

/// One step of the event loop: the event in front is handled, unless it is the
/// `done` of the callback that is waited for.
pub open spec fn pumped(
    conn: ConnectionView,
    st: StateView,
    callback: Option<u32>,
) -> Pumped {
    match connection::front(conn.order, conn.input) {
        Front::Partial => Pumped { conn, st, result: Ok(Progress::NeedInput) },
        Front::Bad => Pumped {
            conn,
            st,
            result: Err(ErrorView::BadHeader),
        },
        Front::Event(msg, rest) => {
            let conn = ConnectionView { input: rest, ..conn };
            if callback == Some(msg.sender) && msg.opcode == CALLBACK_DONE {
                Pumped { conn, st, result: Ok(Progress::Done) }
            } else {
                match event_of(conn.order, st, msg) {
                    None => Pumped {
                        conn,
                        st,
                        result: Err(ErrorView::Malformed),
                    },
                    Some(event) => {
                        let done = handled(conn, st, event);
                        Pumped {
                            conn: done.conn,
                            st: done.st,
                            result: match done.result {
                                Ok(effect) => Ok(Progress::Handled(effect)),
                                Err(e) => Err(e),
                            },
                        }
                    },
                }
            }
        },
    }
}

fn pump(conn: &mut Connection, st: &mut State, callback: Option<u32>) -> (r: Result<
    Progress,
    Error,
>)
    ensures
        ({
            let done = pumped(old(conn)@, old(st)@, callback);
            final(conn)@ == done.conn && final(st)@ == done.st && gives(r, done.result)
        }),
        old(st)@.wf() ==> final(st)@.wf(),
{
    let msg: Message = match conn.next_message() {
        Err(e) => {
            return Err(e);
        },
        Ok(None) => {
            return Ok(Progress::NeedInput);
        },
        Ok(Some(msg)) => msg,
    };
    if let Some(id) = callback {
        if msg.sender == id && msg.opcode == CALLBACK_DONE {
            return Ok(Progress::Done);
        }
    }
    match read_event(conn.order(), st, &msg) {
        None => Err(Error::Malformed),
        Some(event) => match handle_event(conn, st, event) {
            Ok(effect) => Ok(Progress::Handled(effect)),
            Err(e) => Err(e),
        },
    }
}

/// A `wl_display.sync` that was issued and is not yet answered.
#[derive(Clone, Copy)]
pub struct Roundtrip {
    pub callback: u32,
}

impl Roundtrip {
    /// Pump one event; `Done` once the matching callback fires, which
    /// guarantees that every preceding request has been processed.
    pub fn step(self, conn: &mut Connection, st: &mut State) -> (r: Result<Progress, Error>)
        ensures
            ({
                let done = pumped(old(conn)@, old(st)@, Some(self.callback));
                final(conn)@ == done.conn && final(st)@ == done.st && gives(r, done.result)
            }),
            old(st)@.wf() ==> final(st)@.wf(),
    {
        pump(conn, st, Some(self.callback))
    }
}

/// Issue `wl_display.sync`.
pub fn roundtrip(conn: &mut Connection) -> (rt: Roundtrip)
    requires
        old(conn)@.next_id < u32::MAX,
    ensures
        rt.callback == old(conn)@.next_id,
        final(conn)@ == old(conn)@.allocated().queued(
            connection::packet_of(sync(old(conn)@.order, rt.callback)),
        ),
{
    let callback: u32 = conn.alloc_id();
    let msg: Msg = Msg::in_order(conn.order(), DISPLAY_ID, DISPLAY_SYNC).new_id(callback);
    assert(msg@ =~= sync(conn@.order, callback));
    let _ = conn.send(msg);
    Roundtrip { callback }
}

/// What one step of serving leaves behind.
pub open spec fn serving(conn: ConnectionView, st: StateView) -> Pumped {
    if st.finished {
        Pumped { conn, st, result: Ok(Progress::Done) }
    } else {
        pumped(conn, st, None)
    }
}

/// Serve paste requests for an installed selection, one event at a time, until
/// [`State::finished`].
pub fn serve(conn: &mut Connection, st: &mut State) -> (r: Result<Progress, Error>)
    ensures
        ({
            let done = serving(old(conn)@, old(st)@);
            final(conn)@ == done.conn && final(st)@ == done.st && gives(r, done.result)
        }),
        old(st)@.wf() ==> final(st)@.wf(),
{
    if st.finished {
        return Ok(Progress::Done);
    }
    pump(conn, st, None)
}

// The conversation.

/// Ask for the globals, and wait until all of them were announced.
pub fn setup(conn: &mut Connection, st: &mut State) -> (rt: Roundtrip)
    requires
        old(conn)@.next_id + 2 <= u32::MAX,
    ensures
        rt.callback == old(conn)@.next_id + 1,
        final(st)@.registry_id > DISPLAY_ID,
        final(st)@ == (StateView { registry_id: old(conn)@.next_id, ..old(st)@ }),
        final(conn)@ == old(conn)@.allocated().queued(
            connection::packet_of(get_registry(old(conn)@.order, old(conn)@.next_id)),
        ).allocated().queued(
            connection::packet_of(sync(old(conn)@.order, rt.callback)),
        ),
{
    let registry: u32 = conn.alloc_id();
    st.registry_id = registry;
    let msg: Msg = Msg::in_order(conn.order(), DISPLAY_ID, DISPLAY_GET_REGISTRY).new_id(registry);
    assert(msg@ =~= get_registry(conn@.order, registry));
    let _ = conn.send(msg);
    roundtrip(conn)
}

/// What binding the seat, the manager and the data device leaves behind.
pub open spec fn bound(
    conn: ConnectionView,
    st: StateView,
    manager: ManagerView,
    seat: u32,
) -> (ConnectionView, StateView) {
    let order = conn.order;
    let seat_id = conn.next_id;
    let manager_id = (conn.next_id + 1) as u32;
    let device_id = (conn.next_id + 2) as u32;
    (
        conn.allocated().queued(
            connection::packet_of(
                bind(order, st.registry_id, seat, SEAT@, 1, seat_id),
            ),
        ).allocated().queued(
            connection::packet_of(
                bind(
                    order,
                    st.registry_id,
                    manager.name,
                    manager.interface,
                    manager.version,
                    manager_id,
                ),
            ),
        ).allocated().queued(
            connection::packet_of(get_device(order, manager_id, device_id, seat_id)),
        ),
        StateView { manager_id, device_id, ..st },
    )
}

/// Bind the seat, manager, and data device among the globals that were found.
pub fn bind_globals(conn: &mut Connection, st: &mut State) -> (r: Result<(), Error>)
    requires
        old(st)@.wf(),
        old(conn)@.next_id + 3 <= u32::MAX,
    ensures
        final(st)@.wf(),
        match (old(st)@.manager, old(st)@.seat_global) {
            (None, _) => r == Err::<(), Error>(Error::NoManager) && final(conn)@ == old(conn)@
                && final(st)@ == old(st)@,
            (Some(_), None) => r == Err::<(), Error>(Error::NoSeat) && final(conn)@ == old(conn)@
                && final(st)@ == old(st)@,
            (Some(manager), Some(seat)) => r is Ok && (final(conn)@, final(st)@) == bound(
                old(conn)@,
                old(st)@,
                manager,
                seat,
            ),
        },
{
    let order: ByteOrder = conn.order();
    let (name, interface, version): (u32, String, u32) = match &st.manager {
        None => {
            return Err(Error::NoManager);
        },
        Some(m) => (m.name, m.interface.clone(), m.version),
    };
    let seat: u32 = match st.seat_global {
        None => {
            return Err(Error::NoSeat);
        },
        Some(seat) => seat,
    };
    proof {
        interface_len(SEAT@);
        interface_len(interface@);
    }
    let seat_id: u32 = conn.alloc_id();
    let msg: Msg = Msg::in_order(order, st.registry_id, REGISTRY_BIND).uint(seat).string(
        SEAT,
    ).uint(1).new_id(seat_id);
    assert(msg@ =~= bind(order, st@.registry_id, seat, SEAT@, 1, seat_id));
    let _ = conn.send(msg);

    let manager_id: u32 = conn.alloc_id();
    st.manager_id = manager_id;
    let msg: Msg = Msg::in_order(order, st.registry_id, REGISTRY_BIND).uint(name).string(
        interface.as_str(),
    ).uint(version).new_id(manager_id);
    assert(msg@ =~= bind(order, st@.registry_id, name, interface@, version, manager_id));
    let _ = conn.send(msg);

    let device_id: u32 = conn.alloc_id();
    st.device_id = device_id;
    let msg: Msg = Msg::in_order(order, manager_id, MANAGER_GET_DEVICE).new_id(device_id).object(
        seat_id,
    );
    assert(msg@ =~= get_device(order, manager_id, device_id, seat_id));
    let _ = conn.send(msg);
    Ok(())
}

/// The interface names that are bound are short.
proof fn interface_len(interface: Seq<char>)
    requires
        interface == SEAT@ || interface == EXT_MANAGER@ || interface == WLR_MANAGER@,
    ensures
        vstd::utf8::encode_utf8(interface).len() <= 28,
{
    reveal_strlit("wl_seat");
    reveal_strlit("ext_data_control_manager_v1");
    reveal_strlit("zwlr_data_control_manager_v1");
    vstd::utf8::is_ascii_chars_encode_utf8(interface);
}

/// What setting the selection leaves behind.
pub open spec fn selected(
    conn: ConnectionView,
    st: StateView,
    mimes: Seq<Seq<char>>,
    primary: bool,
) -> (ConnectionView, bool) {
    let order = conn.order;
    let source = conn.next_id;
    let created = conn.allocated().queued(
        connection::packet_of(create_source(order, st.manager_id, source)),
    );
    let (offered, fit) = sent_all(created, source_offers(order, source, mimes));
    if fit {
        (
            offered.queued(
                connection::packet_of(install_source(order, st.device_id, source, primary)),
            ).allocated().queued(connection::packet_of(sync(order, offered.next_id))),
            true,
        )
    } else {
        (offered, false)
    }
}

/// Create a data source offering `mimes` and install it as the (primary)
/// selection. The source must be served afterwards via [`serve`]; paste requests
/// may come in the roundtrip already, so [`State::data`] is best set before.
pub fn set_selection(
    conn: &mut Connection,
    st: &mut State,
    mimes: &[String],
    primary: bool,
) -> (r: Result<Roundtrip, Error>)
    requires
        old(conn)@.next_id + 2 <= u32::MAX,
    ensures
        final(st)@ == (StateView { source_id: old(conn)@.next_id, ..old(st)@ }),
        ({
            let (after, fit) = selected(
                old(conn)@,
                old(st)@,
                text::texts(mimes@),
                primary,
            );
            &&& final(conn)@ == after
            &&& fit ==> (r matches Ok(rt) && rt.callback == old(conn)@.next_id + 1)
            &&& !fit ==> r == Err::<Roundtrip, Error>(Error::TooLarge)
        }),
{
    let order: ByteOrder = conn.order();
    let source: u32 = conn.alloc_id();
    st.source_id = source;
    let msg: Msg = Msg::in_order(order, st.manager_id, MANAGER_CREATE_SOURCE).new_id(source);
    assert(msg@ =~= create_source(order, st@.manager_id, source));
    let _ = conn.send(msg);

    let ghost created = conn@;
    let ghost offers = source_offers(order, source, text::texts(mimes@));
    let mut i: usize = 0;
    while i < mimes.len()
        invariant
            i <= mimes@.len(),
            offers == source_offers(order, source, text::texts(mimes@)),
            offers.len() == mimes@.len(),
            sent_all(created, offers.take(i as int)) == (conn@, true),
            order == old(conn)@.order,
            source == old(conn)@.next_id,
            created == old(conn)@.allocated().queued(
                connection::packet_of(create_source(order, old(st)@.manager_id, source)),
            ),
            conn@.order == order,
            conn@.next_id == old(conn)@.next_id + 1,
            old(conn)@.next_id + 2 <= u32::MAX,
            st@ == (StateView { source_id: source, ..old(st)@ }),
        decreases mimes@.len() - i,
    {
        let msg: Msg = Msg::in_order(order, source, SOURCE_OFFER).string(mimes[i].as_str());
        assert(msg@ =~= offers[i as int]);
        assert(offers.take(i + 1).drop_last() =~= offers.take(i as int));
        if let Err(e) = conn.send(msg) {
            proof {
                unsent_stays(created, offers, i + 1);
            }
            return Err(e);
        }
        i += 1;
    }
    assert(offers.take(i as int) =~= offers);

    let opcode: u16 = if primary {
        DEVICE_SET_PRIMARY_SELECTION
    } else {
        DEVICE_SET_SELECTION
    };
    let msg: Msg = Msg::in_order(order, st.device_id, opcode).object(source);
    assert(msg@ =~= install_source(order, st@.device_id, source, primary));
    let _ = conn.send(msg);
    Ok(roundtrip(conn))
}

/// Nothing is queued behind a request that is too large.
proof fn unsent_stays(
    conn: ConnectionView,
    msgs: Seq<MsgView>,
    i: int,
)
    requires
        0 <= i <= msgs.len(),
        !sent_all(conn, msgs.take(i)).1,
    ensures
        sent_all(conn, msgs) == sent_all(conn, msgs.take(i)),
    decreases msgs.len() - i,
{
    if i < msgs.len() {
        assert(msgs.take(i + 1).drop_last() =~= msgs.take(i));
        unsent_stays(conn, msgs, i + 1);
    } else {
        assert(msgs.take(i) =~= msgs);
    }
}

/// Ask the offer to deliver `mime` into `write_end`.
///
/// The data travels through a pipe whose write end is handed to the owning
/// client; the caller drains the read end.
pub fn receive(conn: &mut Connection, offer: u32, mime: &str, write_end: i32) -> (r: Result<(), Error>)
    ensures
        ({
            let msg = receive_offer(old(conn)@.order, offer, mime@, write_end);
            &&& final(conn)@ == old(conn)@.sent(msg).0
            &&& old(conn)@.sent(msg).1 ==> r is Ok
            &&& !old(conn)@.sent(msg).1 ==> r == Err::<(), Error>(Error::TooLarge)
        }),
{
    let msg: Msg = Msg::in_order(conn.order(), offer, OFFER_RECEIVE).string(mime).fd(write_end);
    assert(msg@ =~= receive_offer(conn@.order, offer, mime@, write_end));
    conn.send(msg)
}

} // verus!
