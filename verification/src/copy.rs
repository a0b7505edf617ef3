//! `wclip -i` — take ownership of a selection and serve it to pasting clients.

use crate::args::Args;
use crate::args::ArgsView;
use crate::args::Selection;
use crate::connection;
use crate::connection::Connection;
use crate::connection::ConnectionView;
use crate::connection::Packet;
use crate::connection::Received;
use crate::connection::RightsTag;
use crate::error::Error;
use crate::error::ErrorView;
use crate::proto;
use crate::proto::Effect;
use crate::proto::Progress;
use crate::proto::Roundtrip;
use crate::proto::State;
use crate::proto::StateView;
use crate::text;
use crate::text::str_eq;
use crate::wire::DISPLAY_ID;
use vstd::prelude::*;

verus! {

/// The byte of a newline.
pub const NEWLINE: u8 = 10;

/// MIME types offered for text when no explicit `-target` is given. The plain
/// `TEXT`/`STRING`/`UTF8_STRING` aliases let XWayland clients paste too.
pub const DEFAULT_TEXT_MIMES: [&'static str; 5] = [
    "text/plain;charset=utf-8",
    "text/plain",
    "TEXT",
    "STRING",
    "UTF8_STRING",
];

/// The types that a copy offers.
pub open spec fn copy_mimes(target: Option<Seq<char>>) -> Seq<Seq<char>> {
    match target {
        Some(t) => seq![t],
        None => Seq::new(5, |i: int| DEFAULT_TEXT_MIMES@[i]@),
    }
}

/// The types that a copy offers: the target alone, or the usual text types.
pub fn offered_mimes(target: Option<&str>) -> (mimes: Vec<String>)
    ensures
        text::texts(mimes@) == copy_mimes(text::optional_str(target)),
{
    let mut mimes: Vec<String> = Vec::new();
    match target {
        Some(t) => {
            mimes.push(t.to_owned());
        },
        None => {
            let defaults: [&'static str; 5] = DEFAULT_TEXT_MIMES;
            let mut i: usize = 0;
            while i < 5
                invariant
                    i <= 5,
                    defaults == DEFAULT_TEXT_MIMES,
                    mimes@.len() == i,
                    forall|k: int| 0 <= k < i ==> (#[trigger] mimes@[k])@ == DEFAULT_TEXT_MIMES@[k]@,
                decreases 5 - i,
            {
                mimes.push(defaults[i].to_owned());
                i += 1;
            }
        },
    }
    assert(text::texts(mimes@) =~= copy_mimes(text::optional_str(target)));
    mimes
}

/// The data without a single trailing newline, where that is asked for.
pub open spec fn stripped(data: Seq<u8>, rmlastnl: bool) -> Seq<u8> {
    if rmlastnl && data.len() > 0 && data.last() == NEWLINE {
        data.drop_last()
    } else {
        data
    }
}

/// Strips a single trailing newline, where that is asked for.
pub fn strip_newline(data: Vec<u8>, rmlastnl: bool) -> (out: Vec<u8>)
    ensures
        out@ == stripped(data@, rmlastnl),
{
    let mut data: Vec<u8> = data;
    let n: usize = data.len();
    if rmlastnl && n > 0 && data[n - 1] == NEWLINE {
        data.pop();
    }
    data
}

/// What is copied of the input, and whether it is echoed to standard output.
pub fn prepared(args: &Args, input: Vec<u8>) -> (r: (Vec<u8>, bool))
    ensures
        r.0@ == stripped(input@, args@.rmlastnl),
        r.1 == args@.filter,
{
    (strip_newline(input, args.rmlastnl), args.filter)
}

// Input.

/// A place to read the data to copy from.
pub enum Source {
    Stdin,
    File(String),
}

/// What a [`Source`] holds.
pub enum SourceView {
    Stdin,
    File(Seq<char>),
}

impl View for Source {
    type V = SourceView;

    open spec fn view(&self) -> SourceView {
        match self {
            Source::Stdin => SourceView::Stdin,
            Source::File(name) => SourceView::File(name@),
        }
    }
}

/// The source that a positional argument names.
pub open spec fn source_of(file: Seq<char>) -> SourceView {
    if file == "-"@ {
        SourceView::Stdin
    } else {
        SourceView::File(file)
    }
}

/// The data to copy: what the files hold one after the other, or standard
/// input when no files are given (a `-` argument also means standard input).
pub open spec fn sources_of(files: Seq<Seq<char>>) -> Seq<SourceView> {
    if files.len() == 0 {
        seq![SourceView::Stdin]
    } else {
        files.map_values(|file: Seq<char>| source_of(file))
    }
}

/// The places to read from, in order.
pub fn input_sources(files: &[String]) -> (sources: Vec<Source>)
    ensures
        sources@.map_values(|s: Source| s@) == sources_of(text::texts(files@)),
{
    let mut sources: Vec<Source> = Vec::new();
    if files.len() == 0 {
        sources.push(Source::Stdin);
        assert(sources@.map_values(|s: Source| s@) =~= sources_of(text::texts(files@)));
        return sources;
    }
    let mut i: usize = 0;
    while i < files.len()
        invariant
            i <= files@.len(),
            sources@.len() == i,
            forall|k: int|
                0 <= k < i ==> (#[trigger] sources@[k])@ == source_of(files@[k]@),
        decreases files@.len() - i,
    {
        let file: &str = files[i].as_str();
        if str_eq(file, "-") {
            sources.push(Source::Stdin);
        } else {
            sources.push(Source::File(file.to_owned()));
        }
        i += 1;
    }
    assert(sources@.map_values(|s: Source| s@) =~= sources_of(text::texts(files@)));
    sources
}

// The background process.

/// What to do after a fork.
#[derive(Clone, Copy, PartialEq, Eq, Structural, Debug)]
pub enum AfterFork {
    /// There is no child: serve in the foreground rather than fail the copy.
    ServeHere,
    /// The parent leaves the child running and reports success.
    Exit,
    /// The child detaches from the terminal and silences its streams.
    Detach,
}

/// What to do, by what `fork` returned.
pub fn after_fork(pid: i32) -> (next: AfterFork)
    ensures
        next == (if pid < 0 {
            AfterFork::ServeHere
        } else if pid > 0 {
            AfterFork::Exit
        } else {
            AfterFork::Detach
        }),
{
    if pid < 0 {
        AfterFork::ServeHere
    } else if pid > 0 {
        AfterFork::Exit
    } else {
        AfterFork::Detach
    }
}

/// What to do with a descriptor of the null device.
#[derive(Clone, Copy, PartialEq, Eq, Structural, Debug)]
pub struct NullPlan {
    /// Put it in the place of the standard streams.
    pub redirect: bool,
    /// Close it afterwards.
    pub close: bool,
}

/// The standard streams go to the null device if it could be opened; its own
/// descriptor is closed unless it is one of the streams.
pub fn null_plan(null: i32) -> (plan: NullPlan)
    ensures
        plan.redirect == (null >= 0),
        plan.close == (null > 2),
{
    NullPlan { redirect: null >= 0, close: null > 2 }
}

// The copy itself.

/// How far a copy got.
#[derive(Clone, Copy)]
pub enum Stage {
    /// Waiting for the globals.
    Globals(Roundtrip),
    /// Waiting for the selection to be installed.
    Installing(Roundtrip),
    /// Serving paste requests.
    Serving,
    /// Nothing is left to do.
    Finished,
}

/// What the copy asks of its caller. Queued packets are sent first.
#[derive(Clone, Copy, PartialEq, Eq, Structural, Debug)]
pub enum Step {
    /// Receive, then step again.
    Receive,
    /// Step again.
    Continue,
    /// Write the served data to the descriptor, close it, then step again.
    Deliver(i32),
    /// Go to the background, then step again.
    Detach,
    /// The copy is over.
    Done,
}

/// A copy in progress.
pub struct Copy {
    conn: Connection,
    st: State,
    stage: Stage,
    mimes: Vec<String>,
    primary: bool,
    data: Ghost<Seq<u8>>,
    loops: Ghost<u32>,
    foreground: bool,
}

/// What a [`Copy`] holds.
#[verifier::ext_equal]
pub struct CopyView {
    pub conn: ConnectionView,
    pub st: StateView,
    pub stage: Stage,
    pub mimes: Seq<Seq<char>>,
    pub primary: bool,
    /// What was given to copy.
    pub data: Seq<u8>,
    /// How many paste requests are to be served; 0 means unlimited.
    pub loops: u32,
    pub foreground: bool,
}

impl View for Copy {
    type V = CopyView;

    closed spec fn view(&self) -> CopyView {
        CopyView {
            conn: self.conn@,
            st: self.st@,
            stage: self.stage,
            mimes: text::texts(self.mimes@),
            primary: self.primary,
            data: self.data@,
            loops: self.loops@,
            foreground: self.foreground,
        }
    }
}

/// A step, and what is left after it.
pub struct Stepped {
    pub copy: CopyView,
    pub result: Result<Step, ErrorView>,
}

/// The step that an event asks for.
pub open spec fn step_of(progress: Progress) -> Step {
    match progress {
        Progress::NeedInput => Step::Receive,
        Progress::Handled(Effect::Nothing) => Step::Continue,
        Progress::Handled(Effect::Deliver(fd)) => Step::Deliver(fd),
        Progress::Done => Step::Done,
    }
}

impl CopyView {
    /// What is served is what was given to copy, and as often; enough object ids
    /// are left for what is still to come, and no two objects share one.
    pub open spec fn wf(self) -> bool {
        &&& self.st.wf()
        &&& self.st.data == self.data
        &&& self.st.loops == self.loops
        &&& self.st.limit_reached() || self.st.cancelled ==> self.st.finished
        &&& match self.stage {
            Stage::Globals(rt) => {
                &&& DISPLAY_ID < self.st.registry_id < rt.callback < self.conn.next_id
                &&& self.conn.next_id + 5 <= u32::MAX
                &&& self.st.source_id == 0
            },
            Stage::Installing(rt) => self.st.has_source() && self.st.source_id != rt.callback,
            Stage::Serving => self.st.has_source(),
            Stage::Finished => true,
        }
    }

    /// Nothing more to do.
    pub open spec fn over(self) -> CopyView {
        CopyView { stage: Stage::Finished, ..self }
    }

    /// The copy once all globals are known: the seat, the manager and the
    /// device are bound and the selection is set.
    pub open spec fn install(self) -> Stepped {
        match (self.st.manager, self.st.seat_global) {
            (None, _) => Stepped { copy: self.over(), result: Err(ErrorView::NoManager) },
            (Some(_), None) => Stepped { copy: self.over(), result: Err(ErrorView::NoSeat) },
            (Some(manager), Some(seat)) => {
                let (conn, st) = proto::bound(self.conn, self.st, manager, seat);
                if self.primary && !st.primary_supported() {
                    Stepped {
                        copy: CopyView { conn, st, ..self.over() },
                        result: Err(ErrorView::NoPrimary),
                    }
                } else {
                    let (sent, fit) = proto::selected(conn, st, self.mimes, self.primary);
                    let copy = CopyView {
                        conn: sent,
                        st: StateView { source_id: conn.next_id, ..st },
                        ..self
                    };
                    if fit {
                        Stepped {
                            copy: CopyView {
                                stage: Stage::Installing(
                                    Roundtrip { callback: (conn.next_id + 1) as u32 },
                                ),
                                ..copy
                            },
                            result: Ok(Step::Continue),
                        }
                    } else {
                        Stepped { copy: copy.over(), result: Err(ErrorView::TooLarge) }
                    }
                }
            },
        }
    }

    /// The copy once the selection is installed: there is nothing to serve if
    /// another client replaced us already; else the caller goes to the
    /// background, unless it is to stay.
    pub open spec fn hand_over(self) -> Stepped {
        if self.st.cancelled {
            Stepped { copy: self.over(), result: Ok(Step::Done) }
        } else {
            Stepped {
                copy: CopyView { stage: Stage::Serving, ..self },
                result: Ok(
                    if self.foreground {
                        Step::Continue
                    } else {
                        Step::Detach
                    },
                ),
            }
        }
    }

    /// The copy after one step of the event loop, while it stays in its stage.
    pub open spec fn pumped(self, done: proto::Pumped) -> Stepped {
        match done.result {
            Ok(Progress::Done) => Stepped {
                copy: CopyView { conn: done.conn, st: done.st, ..self.over() },
                result: Ok(Step::Done),
            },
            Ok(progress) => Stepped {
                copy: CopyView { conn: done.conn, st: done.st, ..self },
                result: Ok(step_of(progress)),
            },
            Err(e) => Stepped {
                copy: CopyView { conn: done.conn, st: done.st, ..self.over() },
                result: Err(e),
            },
        }
    }

    /// One step. Paste requests are served from the moment the source exists, so
    /// the loop count may be reached while the selection is being installed.
    pub open spec fn stepped(self) -> Stepped {
        match self.stage {
            Stage::Globals(rt) => {
                let done = proto::pumped(self.conn, self.st, Some(rt.callback));
                if done.result == Ok::<Progress, ErrorView>(Progress::Done) {
                    CopyView { conn: done.conn, st: done.st, ..self }.install()
                } else {
                    self.pumped(done)
                }
            },
            Stage::Installing(rt) => {
                let done = proto::pumped(self.conn, self.st, Some(rt.callback));
                if self.st.limit_reached() {
                    Stepped { copy: self.over(), result: Ok(Step::Done) }
                } else if done.result == Ok::<Progress, ErrorView>(Progress::Done) {
                    CopyView { conn: done.conn, st: done.st, ..self }.hand_over()
                } else {
                    self.pumped(done)
                }
            },
            Stage::Serving => self.pumped(proto::serving(self.conn, self.st)),
            Stage::Finished => Stepped { copy: self, result: Ok(Step::Done) },
        }
    }
}

fn step_for(progress: Progress) -> (step: Step)
    ensures
        step == step_of(progress),
{
    match progress {
        Progress::NeedInput => Step::Receive,
        Progress::Handled(Effect::Nothing) => Step::Continue,
        Progress::Handled(Effect::Deliver(fd)) => Step::Deliver(fd),
        Progress::Done => Step::Done,
    }
}

/// What the arguments and the data make of a fresh connection.
pub open spec fn copy_started(conn: ConnectionView, args: ArgsView, data: Seq<u8>) -> CopyView {
    let registry = conn.next_id;
    let callback = (conn.next_id + 1) as u32;
    CopyView {
        conn: conn.allocated().queued(
            connection::packet_of(proto::get_registry(conn.order, registry)),
        ).allocated().queued(connection::packet_of(proto::sync(conn.order, callback))),
        st: StateView { registry_id: registry, data, loops: args.loops, ..StateView::initial() },
        stage: Stage::Globals(Roundtrip { callback }),
        mimes: copy_mimes(args.target),
        primary: args.selection == Selection::Primary,
        data,
        loops: args.loops,
        foreground: args.foreground,
    }
}

impl Copy {
    /// Starts to copy `data` over a fresh connection.
    pub fn start(conn: Connection, args: &Args, data: Vec<u8>) -> (copy: Copy)
        requires
            conn@.next_id + 7 <= u32::MAX,
        ensures
            copy@ == copy_started(conn@, args@, data@),
            copy@.wf(),
    {
        let mut conn: Connection = conn;
        let ghost given = data@;
        let mut st: State = State::new();
        st.data = data;
        st.loops = args.loops;
        let rt: Roundtrip = proto::setup(&mut conn, &mut st);
        let target: Option<&str> = match &args.target {
            Some(t) => Some(t.as_str()),
            None => None,
        };
        let primary: bool = args.selection == Selection::Primary;
        Copy {
            conn,
            st,
            stage: Stage::Globals(rt),
            mimes: offered_mimes(target),
            primary,
            data: Ghost(given),
            loops: Ghost(args.loops),
            foreground: args.foreground,
        }
    }

    /// The oldest packet that waits to be sent.
    pub fn take_packet(&mut self) -> (packet: Option<Packet>)
        ensures
            old(self)@.conn.outbox.len() == 0 ==> packet is None && final(self)@ == old(self)@,
            old(self)@.conn.outbox.len() > 0 ==> packet is Some && packet.unwrap()@ == old(
                self,
            )@.conn.outbox[0] && final(self)@ == (CopyView {
                conn: ConnectionView {
                    outbox: old(self)@.conn.outbox.skip(1),
                    ..old(self)@.conn
                },
                ..old(self)@
            }),
    {
        self.conn.take_packet()
    }

    /// Takes in what one attempt to receive gave.
    pub fn recv(&mut self, tag: RightsTag, got: Received) -> (r: Result<(), Error>)
        ensures
            connection::received(old(self)@.conn, tag, got, final(self)@.conn, r),
            final(self)@ == (CopyView { conn: final(self)@.conn, ..old(self)@ }),
    {
        self.conn.recv(tag, got)
    }

    /// The data that is served to pasting clients.
    pub fn served_data(&self) -> (data: &[u8])
        ensures
            data@ == self@.st.data,
    {
        self.st.data.as_slice()
    }

    fn install(&mut self) -> (r: Result<Step, Error>)
        requires
            old(self)@.wf(),
            old(self)@.stage is Globals,
        ensures
            final(self)@ == old(self)@.install().copy,
            proto::gives(r, old(self)@.install().result),
            final(self)@.wf(),
    {
        self.stage = Stage::Finished;
        if let Err(e) = proto::bind_globals(&mut self.conn, &mut self.st) {
            return Err(e);
        }
        if self.primary && !self.st.primary_supported() {
            return Err(Error::NoPrimary);
        }
        match proto::set_selection(&mut self.conn, &mut self.st, self.mimes.as_slice(), self.primary) {
            Err(e) => Err(e),
            Ok(rt) => {
                self.stage = Stage::Installing(rt);
                Ok(Step::Continue)
            },
        }
    }

    fn hand_over(&mut self) -> (r: Result<Step, Error>)
        requires
            old(self)@.wf(),
            old(self)@.stage is Installing,
        ensures
            final(self)@ == old(self)@.hand_over().copy,
            proto::gives(r, old(self)@.hand_over().result),
            final(self)@.wf(),
    {
        if self.st.cancelled {
            // Another client immediately replaced us; nothing left to serve.
            self.stage = Stage::Finished;
            return Ok(Step::Done);
        }
        self.stage = Stage::Serving;
        if self.foreground {
            Ok(Step::Continue)
        } else {
            Ok(Step::Detach)
        }
    }

    /// One step: says what the caller is to do next.
    pub fn step(&mut self) -> (r: Result<Step, Error>)
        requires
            old(self)@.wf(),
        ensures
            final(self)@ == old(self)@.stepped().copy,
            proto::gives(r, old(self)@.stepped().result),
            final(self)@.wf(),
    {
        let r: Result<Progress, Error> = match self.stage {
            Stage::Globals(rt) => rt.step(&mut self.conn, &mut self.st),
            Stage::Installing(rt) => {
                if self.st.limit_reached() {
                    // All there was to serve was served already.
                    self.stage = Stage::Finished;
                    return Ok(Step::Done);
                }
                rt.step(&mut self.conn, &mut self.st)
            },
            Stage::Serving => proto::serve(&mut self.conn, &mut self.st),
            Stage::Finished => {
                return Ok(Step::Done);
            },
        };
        match r {
            Err(e) => {
                self.stage = Stage::Finished;
                Err(e)
            },
            Ok(Progress::Done) => match self.stage {
                Stage::Globals(_) => self.install(),
                Stage::Installing(_) => self.hand_over(),
                _ => {
                    self.stage = Stage::Finished;
                    Ok(Step::Done)
                },
            },
            Ok(progress) => Ok(step_for(progress)),
        }
    }
}

} // verus!
