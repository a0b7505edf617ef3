//! `wclip -o` — print the current selection to standard output.

use crate::args::Args;
use crate::args::ArgsView;
use crate::args::Selection;
use crate::connection;
use crate::connection::Connection;
use crate::connection::ConnectionView;
use crate::connection::Packet;
use crate::connection::Received;
use crate::connection::RightsTag;
use crate::copy;
use crate::copy::strip_newline;
use crate::copy::NEWLINE;
use crate::error::Error;
use crate::error::ErrorView;
use crate::proto;
use crate::proto::Progress;
use crate::proto::Roundtrip;
use crate::proto::State;
use crate::proto::StateView;
use crate::text;
use crate::text::starts_with;
use crate::text::str_eq;
use crate::wire::DISPLAY_ID;
use vstd::prelude::*;

verus! {

/// Preference order when choosing a MIME type with no explicit `-target`.
pub const PASTE_PREFS: [&'static str; 5] = [
    "text/plain;charset=utf-8",
    "text/plain",
    "UTF8_STRING",
    "STRING",
    "TEXT",
];

/// The pseudo-target that lists the available MIME types instead of data.
pub const TARGETS: &'static str = "TARGETS";

/// The common text types, best first.
pub open spec fn paste_prefs() -> Seq<Seq<char>> {
    Seq::new(5, |i: int| PASTE_PREFS@[i]@)
}

/// The first of `prefs` that is among `mimes`.
pub open spec fn best(prefs: Seq<Seq<char>>, mimes: Seq<Seq<char>>) -> Option<Seq<char>>
    decreases prefs.len(),
{
    if prefs.len() == 0 {
        None
    } else if mimes.contains(prefs[0]) {
        Some(prefs[0])
    } else {
        best(prefs.skip(1), mimes)
    }
}

/// The first text type among `mimes`.
pub open spec fn first_text(mimes: Seq<Seq<char>>) -> Option<Seq<char>>
    decreases mimes.len(),
{
    if mimes.len() == 0 {
        None
    } else if text::begins_with(mimes[0], "text/"@) {
        Some(mimes[0])
    } else {
        first_text(mimes.skip(1))
    }
}

/// The type to request. An explicit target must be offered as it is. Otherwise
/// the common text types come first, then any `text/*`, then whatever is
/// offered first.
pub open spec fn picked(target: Option<Seq<char>>, mimes: Seq<Seq<char>>) -> Option<Seq<char>> {
    match target {
        Some(t) => if mimes.contains(t) {
            Some(t)
        } else {
            None
        },
        None => if best(paste_prefs(), mimes) is Some {
            best(paste_prefs(), mimes)
        } else if first_text(mimes) is Some {
            first_text(mimes)
        } else if mimes.len() > 0 {
            Some(mimes[0])
        } else {
            None
        },
    }
}

/// Whether `wanted` is offered.
fn offers(mimes: &[String], wanted: &str) -> (yes: bool)
    ensures
        yes == text::texts(mimes@).contains(wanted@),
{
    let mut i: usize = 0;
    while i < mimes.len()
        invariant
            i <= mimes@.len(),
            forall|k: int| 0 <= k < i ==> (#[trigger] mimes@[k])@ != wanted@,
        decreases mimes@.len() - i,
    {
        if str_eq(mimes[i].as_str(), wanted) {
            assert(text::texts(mimes@)[i as int] == wanted@);
            return true;
        }
        i += 1;
    }
    false
}

/// Choose which offered MIME type to request.
///
/// With an explicit target, require an exact match. Otherwise fall back through
/// the common text types, then any `text/*`, then whatever is offered first.
pub fn pick_mime(target: Option<&str>, mimes: &[String]) -> (mime: Option<String>)
    ensures
        text::optional(mime) == picked(text::optional_str(target), text::texts(mimes@)),
{
    let ghost all = text::texts(mimes@);
    if let Some(t) = target {
        return if offers(mimes, t) {
            Some(t.to_owned())
        } else {
            None
        };
    }
    let prefs: [&'static str; 5] = PASTE_PREFS;
    let mut i: usize = 0;
    assert(paste_prefs().skip(0) =~= paste_prefs());
    while i < 5
        invariant
            i <= 5,
            prefs == PASTE_PREFS,
            all == text::texts(mimes@),
            target is None,
            best(paste_prefs(), all) == best(paste_prefs().skip(i as int), all),
        decreases 5 - i,
    {
        assert(paste_prefs().skip(i as int)[0] == prefs@[i as int]@);
        assert(paste_prefs().skip(i as int).skip(1) =~= paste_prefs().skip(i + 1));
        if offers(mimes, prefs[i]) {
            return Some(prefs[i].to_owned());
        }
        i += 1;
    }
    let mut i: usize = 0;
    assert(all.skip(0) =~= all);
    while i < mimes.len()
        invariant
            i <= mimes@.len(),
            all == text::texts(mimes@),
            target is None,
            best(paste_prefs(), all) is None,
            first_text(all) == first_text(all.skip(i as int)),
        decreases mimes@.len() - i,
    {
        assert(all.skip(i as int)[0] == mimes@[i as int]@);
        assert(all.skip(i as int).skip(1) =~= all.skip(i + 1));
        if starts_with(mimes[i].as_str(), "text/") {
            return Some(mimes[i].clone());
        }
        i += 1;
    }
    if mimes.len() > 0 {
        Some(mimes[0].clone())
    } else {
        None
    }
}

/// One line for each type.
pub open spec fn listing(mimes: Seq<Seq<char>>) -> Seq<u8>
    decreases mimes.len(),
{
    if mimes.len() == 0 {
        Seq::empty()
    } else {
        listing(mimes.drop_last()) + vstd::utf8::encode_utf8(mimes.last()) + seq![NEWLINE]
    }
}

/// One line for each type.
pub fn list_mimes(mimes: &[String]) -> (out: Vec<u8>)
    ensures
        out@ == listing(text::texts(mimes@)),
{
    let ghost all = text::texts(mimes@);
    let mut out: Vec<u8> = Vec::new();
    let mut i: usize = 0;
    while i < mimes.len()
        invariant
            i <= mimes@.len(),
            all == text::texts(mimes@),
            out@ == listing(all.take(i as int)),
        decreases mimes@.len() - i,
    {
        out.extend_from_slice(mimes[i].as_str().as_bytes());
        out.push(NEWLINE);
        assert(all.take(i + 1).drop_last() =~= all.take(i as int));
        assert(out@ =~= listing(all.take(i + 1)));
        i += 1;
    }
    assert(all.take(i as int) =~= all);
    out
}

// The paste itself.

/// How far a paste got.
pub enum Stage {
    /// Waiting for the globals.
    Globals(Roundtrip),
    /// Waiting for the offers and the selections.
    Offers(Roundtrip),
    /// Waiting for a pipe through which the offer delivers this type.
    Pipe { offer: u32, mime: String },
    /// Waiting for what comes through the pipe.
    Data,
    /// Nothing is left to do.
    Finished,
}

/// What a [`Stage`] holds.
pub enum StageView {
    Globals(Roundtrip),
    Offers(Roundtrip),
    Pipe { offer: u32, mime: Seq<char> },
    Data,
    Finished,
}

impl View for Stage {
    type V = StageView;

    open spec fn view(&self) -> StageView {
        match self {
            Stage::Globals(rt) => StageView::Globals(*rt),
            Stage::Offers(rt) => StageView::Offers(*rt),
            Stage::Pipe { offer, mime } => StageView::Pipe { offer: *offer, mime: mime@ },
            Stage::Data => StageView::Data,
            Stage::Finished => StageView::Finished,
        }
    }
}

/// What the paste asks of its caller. Queued packets are sent first.
pub enum Step {
    /// Receive, then step again.
    Receive,
    /// Step again.
    Continue,
    /// Create a pipe and hand its write end to [`Paste::pipe_opened`].
    OpenPipe,
    /// Close the write end, read to the end, and hand what was read to
    /// [`Paste::data_read`].
    ReadPipe,
    /// Print these bytes; the paste is over.
    Print(Vec<u8>),
    /// The paste is over.
    Done,
}

/// What a [`Step`] holds.
pub enum StepView {
    Receive,
    Continue,
    OpenPipe,
    ReadPipe,
    Print(Seq<u8>),
    Done,
}

impl View for Step {
    type V = StepView;

    open spec fn view(&self) -> StepView {
        match self {
            Step::Receive => StepView::Receive,
            Step::Continue => StepView::Continue,
            Step::OpenPipe => StepView::OpenPipe,
            Step::ReadPipe => StepView::ReadPipe,
            Step::Print(bytes) => StepView::Print(bytes@),
            Step::Done => StepView::Done,
        }
    }
}

/// A paste in progress.
pub struct Paste {
    conn: Connection,
    st: State,
    stage: Stage,
    target: Option<String>,
    primary: bool,
    rmlastnl: bool,
}

/// What a [`Paste`] holds.
#[verifier::ext_equal]
pub struct PasteView {
    pub conn: ConnectionView,
    pub st: StateView,
    pub stage: StageView,
    pub target: Option<Seq<char>>,
    pub primary: bool,
    pub rmlastnl: bool,
}

impl View for Paste {
    type V = PasteView;

    closed spec fn view(&self) -> PasteView {
        PasteView {
            conn: self.conn@,
            st: self.st@,
            stage: self.stage@,
            target: text::optional(self.target),
            primary: self.primary,
            rmlastnl: self.rmlastnl,
        }
    }
}

/// A step, and what is left after it.
pub struct Stepped {
    pub paste: PasteView,
    pub result: Result<StepView, ErrorView>,
}

/// Whether a result is the one that is described.
pub open spec fn gives(r: Result<Step, Error>, described: Result<StepView, ErrorView>) -> bool {
    match (r, described) {
        (Ok(x), Ok(y)) => x@ == y,
        (Err(e), Err(v)) => e@ == v,
        _ => false,
    }
}

impl PasteView {
    /// Enough object ids are left for what is still to come, and no two objects
    /// share one. A paste has no source.
    pub open spec fn wf(self) -> bool {
        &&& self.st.wf()
        &&& self.st.source_id == 0
        &&& match self.stage {
            StageView::Globals(rt) => {
                &&& DISPLAY_ID < self.st.registry_id < rt.callback < self.conn.next_id
                &&& self.conn.next_id + 4 <= u32::MAX
            },
            StageView::Offers(rt) => self.st.has_device() && self.st.device_id != rt.callback,
            _ => true,
        }
    }

    /// Nothing more to do.
    pub open spec fn over(self) -> PasteView {
        PasteView { stage: StageView::Finished, ..self }
    }

    /// The paste once all globals are known: the seat, the manager and the
    /// device are bound, and a roundtrip is to deliver the current offers.
    pub open spec fn bind(self) -> Stepped {
        match (self.st.manager, self.st.seat_global) {
            (None, _) => Stepped { paste: self.over(), result: Err(ErrorView::NoManager) },
            (Some(_), None) => Stepped { paste: self.over(), result: Err(ErrorView::NoSeat) },
            (Some(manager), Some(seat)) => {
                let (conn, st) = proto::bound(self.conn, self.st, manager, seat);
                if self.primary && !st.primary_supported() {
                    Stepped {
                        paste: PasteView { conn, st, ..self.over() },
                        result: Err(ErrorView::NoPrimary),
                    }
                } else {
                    Stepped {
                        paste: PasteView {
                            conn: conn.allocated().queued(
                                connection::packet_of(proto::sync(conn.order, conn.next_id)),
                            ),
                            st,
                            stage: StageView::Offers(Roundtrip { callback: conn.next_id }),
                            ..self
                        },
                        result: Ok(StepView::Continue),
                    }
                }
            },
        }
    }

    /// The offer behind the requested selection.
    pub open spec fn offer(self) -> Option<u32> {
        if self.primary {
            self.st.primary_selection
        } else {
            self.st.selection
        }
    }

    /// The paste once the offers are known. An empty selection prints nothing,
    /// like xclip; `TARGETS` lists the types; else one type is requested.
    pub open spec fn choose_type(self) -> Stepped {
        match self.offer() {
            None => Stepped { paste: self.over(), result: Ok(StepView::Done) },
            Some(offer) => {
                let mimes = self.st.offer_mimes(offer);
                if self.target == Some(TARGETS@) {
                    Stepped { paste: self.over(), result: Ok(StepView::Print(listing(mimes))) }
                } else {
                    match picked(self.target, mimes) {
                        Some(mime) => Stepped {
                            paste: PasteView { stage: StageView::Pipe { offer, mime }, ..self },
                            result: Ok(StepView::OpenPipe),
                        },
                        None => Stepped {
                            paste: self.over(),
                            result: Err(
                                match self.target {
                                    Some(t) => ErrorView::NoTarget(t),
                                    None => ErrorView::NoData,
                                },
                            ),
                        },
                    }
                }
            },
        }
    }

    /// The paste after one step of the event loop, while it stays in its stage.
    pub open spec fn pumped(self, done: proto::Pumped) -> Stepped {
        let paste = PasteView { conn: done.conn, st: done.st, ..self };
        match done.result {
            Ok(Progress::NeedInput) => Stepped { paste, result: Ok(StepView::Receive) },
            Ok(_) => Stepped { paste, result: Ok(StepView::Continue) },
            Err(e) => Stepped { paste: paste.over(), result: Err(e) },
        }
    }

    /// One step.
    pub open spec fn stepped(self) -> Stepped {
        match self.stage {
            StageView::Globals(rt) => {
                let done = proto::pumped(self.conn, self.st, Some(rt.callback));
                if done.result == Ok::<Progress, ErrorView>(Progress::Done) {
                    PasteView { conn: done.conn, st: done.st, ..self }.bind()
                } else {
                    self.pumped(done)
                }
            },
            StageView::Offers(rt) => {
                let done = proto::pumped(self.conn, self.st, Some(rt.callback));
                if done.result == Ok::<Progress, ErrorView>(Progress::Done) {
                    PasteView { conn: done.conn, st: done.st, ..self }.choose_type()
                } else {
                    self.pumped(done)
                }
            },
            StageView::Pipe { .. } => Stepped { paste: self, result: Ok(StepView::OpenPipe) },
            StageView::Data => Stepped { paste: self, result: Ok(StepView::ReadPipe) },
            StageView::Finished => Stepped { paste: self, result: Ok(StepView::Done) },
        }
    }
}

/// What the arguments make of a fresh connection.
pub open spec fn paste_started(conn: ConnectionView, args: ArgsView) -> PasteView {
    let registry = conn.next_id;
    let callback = (conn.next_id + 1) as u32;
    PasteView {
        conn: conn.allocated().queued(
            connection::packet_of(proto::get_registry(conn.order, registry)),
        ).allocated().queued(connection::packet_of(proto::sync(conn.order, callback))),
        st: StateView { registry_id: registry, ..StateView::initial() },
        stage: StageView::Globals(Roundtrip { callback }),
        target: args.target,
        primary: args.selection == Selection::Primary,
        rmlastnl: args.rmlastnl,
    }
}

impl Paste {
    /// Starts to paste over a fresh connection.
    pub fn start(conn: Connection, args: &Args) -> (paste: Paste)
        requires
            conn@.next_id + 6 <= u32::MAX,
        ensures
            paste@ == paste_started(conn@, args@),
            paste@.wf(),
    {
        let mut conn: Connection = conn;
        let mut st: State = State::new();
        let rt: Roundtrip = proto::setup(&mut conn, &mut st);
        let target: Option<String> = match &args.target {
            Some(t) => Some(t.clone()),
            None => None,
        };
        let primary: bool = args.selection == Selection::Primary;
        Paste { conn, st, stage: Stage::Globals(rt), target, primary, rmlastnl: args.rmlastnl }
    }

    /// The oldest packet that waits to be sent.
    pub fn take_packet(&mut self) -> (packet: Option<Packet>)
        ensures
            old(self)@.conn.outbox.len() == 0 ==> packet is None && final(self)@ == old(self)@,
            old(self)@.conn.outbox.len() > 0 ==> packet is Some && packet.unwrap()@ == old(
                self,
            )@.conn.outbox[0] && final(self)@ == (PasteView {
                conn: ConnectionView {
                    outbox: old(self)@.conn.outbox.skip(1),
                    ..old(self)@.conn
                },
                ..old(self)@
            }),
    {
        self.conn.take_packet()
    }

    /// Takes in what one attempt to receive gave.
    pub fn recv(&mut self, tag: RightsTag, got: Received) -> (r: Result<(), Error>)
        ensures
            connection::received(old(self)@.conn, tag, got, final(self)@.conn, r),
            final(self)@ == (PasteView { conn: final(self)@.conn, ..old(self)@ }),
    {
        self.conn.recv(tag, got)
    }

    fn bind(&mut self) -> (r: Result<Step, Error>)
        requires
            old(self)@.wf(),
            old(self)@.stage is Globals,
        ensures
            final(self)@ == old(self)@.bind().paste,
            gives(r, old(self)@.bind().result),
            final(self)@.wf(),
    {
        self.stage = Stage::Finished;
        if let Err(e) = proto::bind_globals(&mut self.conn, &mut self.st) {
            return Err(e);
        }
        if self.primary && !self.st.primary_supported() {
            return Err(Error::NoPrimary);
        }
        // A roundtrip delivers the current offers and which one is selected.
        let rt: Roundtrip = proto::roundtrip(&mut self.conn);
        self.stage = Stage::Offers(rt);
        Ok(Step::Continue)
    }

    fn choose_type(&mut self) -> (r: Result<Step, Error>)
        requires
            old(self)@.wf(),
            old(self)@.stage is Offers,
        ensures
            final(self)@ == old(self)@.choose_type().paste,
            gives(r, old(self)@.choose_type().result),
            final(self)@.wf(),
    {
        self.stage = Stage::Finished;
        let selected: Option<u32> = if self.primary {
            self.st.primary_selection
        } else {
            self.st.selection
        };
        let offer: u32 = match selected {
            // Empty selection: print nothing, like xclip.
            None => {
                return Ok(Step::Done);
            },
            Some(offer) => offer,
        };
        let mimes: &[String] = self.st.offer_mimes(offer);
        let target: Option<&str> = match &self.target {
            Some(t) => Some(t.as_str()),
            None => None,
        };
        if let Some(t) = target {
            if str_eq(t, TARGETS) {
                return Ok(Step::Print(list_mimes(mimes)));
            }
        }
        match pick_mime(target, mimes) {
            Some(mime) => {
                self.stage = Stage::Pipe { offer, mime };
                Ok(Step::OpenPipe)
            },
            None => match &self.target {
                Some(t) => Err(Error::NoTarget(t.clone())),
                None => Err(Error::NoData),
            },
        }
    }

    /// One step: says what the caller is to do next.
    pub fn step(&mut self) -> (r: Result<Step, Error>)
        requires
            old(self)@.wf(),
        ensures
            final(self)@ == old(self)@.stepped().paste,
            gives(r, old(self)@.stepped().result),
            final(self)@.wf(),
    {
        let (rt, globals): (Roundtrip, bool) = match &self.stage {
            Stage::Globals(rt) => (*rt, true),
            Stage::Offers(rt) => (*rt, false),
            Stage::Pipe { .. } => {
                return Ok(Step::OpenPipe);
            },
            Stage::Data => {
                return Ok(Step::ReadPipe);
            },
            Stage::Finished => {
                return Ok(Step::Done);
            },
        };
        match rt.step(&mut self.conn, &mut self.st) {
            Err(e) => {
                self.stage = Stage::Finished;
                Err(e)
            },
            Ok(Progress::Done) => if globals {
                self.bind()
            } else {
                self.choose_type()
            },
            Ok(Progress::NeedInput) => Ok(Step::Receive),
            Ok(Progress::Handled(_)) => Ok(Step::Continue),
        }
    }

    /// Asks the offer to deliver into the write end of the pipe.
    pub fn pipe_opened(&mut self, write_end: i32) -> (r: Result<Step, Error>)
        requires
            old(self)@.stage is Pipe,
        ensures
            ({
                let before = old(self)@;
                let msg = proto::receive_offer(
                    before.conn.order,
                    before.stage->offer,
                    before.stage->mime,
                    write_end,
                );
                let (conn, fit) = before.conn.sent(msg);
                if fit {
                    &&& final(self)@ == (PasteView { conn, stage: StageView::Data, ..before })
                    &&& gives(r, Ok(StepView::ReadPipe))
                } else {
                    &&& final(self)@ == before.over()
                    &&& gives(r, Err(ErrorView::TooLarge))
                }
            }),
            old(self)@.wf() ==> final(self)@.wf(),
    {
        let sent: Result<(), Error> = match &self.stage {
            Stage::Pipe { offer, mime } => proto::receive(
                &mut self.conn,
                *offer,
                mime.as_str(),
                write_end,
            ),
            _ => Ok(()),
        };
        match sent {
            Ok(()) => {
                self.stage = Stage::Data;
                Ok(Step::ReadPipe)
            },
            Err(e) => {
                self.stage = Stage::Finished;
                Err(e)
            },
        }
    }

    /// What to print, given what came through the pipe.
    pub fn data_read(&mut self, data: Vec<u8>) -> (out: Vec<u8>)
        requires
            old(self)@.stage is Data,
        ensures
            out@ == copy::stripped(data@, old(self)@.rmlastnl),
            final(self)@ == old(self)@.over(),
            old(self)@.wf() ==> final(self)@.wf(),
    {
        self.stage = Stage::Finished;
        strip_newline(data, self.rmlastnl)
    }
}

} // verus!
