//! What is copied, what is pasted, and what is done about it.
//!
//! The laws are on types, bytes and steps as the user and the other clients see
//! them, with the names of the common types written out.

use crate::copy;
use crate::copy::CopyView;
use crate::copy::SourceView;
use crate::error::ErrorView;
use crate::paste;
use crate::paste::PasteView;
use crate::proto;
use crate::proto::Progress;
use crate::proto::Roundtrip;
use crate::requests;
use crate::text;
use vstd::prelude::*;

verus! {

// What is copied.

/// A copy offers the target alone, or the five common text types, the one with
/// a character set first.
pub proof fn a_copy_offers_its_target_or_text(target: Seq<char>)
    ensures
        copy::copy_mimes(Some(target)) == seq![target],
        copy::copy_mimes(None) == seq![
            "text/plain;charset=utf-8"@,
            "text/plain"@,
            "TEXT"@,
            "STRING"@,
            "UTF8_STRING"@,
        ],
{
    assert(copy::copy_mimes(None) =~= seq![
        "text/plain;charset=utf-8"@,
        "text/plain"@,
        "TEXT"@,
        "STRING"@,
        "UTF8_STRING"@,
    ]);
}

/// Stripping takes one byte 10 off the end, where it is asked for and there is
/// one, and changes nothing otherwise.
pub proof fn stripping_takes_one_newline(data: Seq<u8>, asked: bool)
    ensures
        copy::stripped(data + seq![10u8], true) == data,
        !asked ==> copy::stripped(data, asked) == data,
        data.len() == 0 || data.last() != 10 ==> copy::stripped(data, asked) == data,
{
    assert((data + seq![10u8]).drop_last() =~= data);
}

/// Input is read from the files in order, one read for each; a lone dash is
/// standard input, and so is no file at all.
pub proof fn input_is_read_in_order(files: Seq<Seq<char>>, i: int)
    ensures
        files.len() == 0 ==> copy::sources_of(files) == seq![SourceView::Stdin],
        files.len() > 0 ==> copy::sources_of(files).len() == files.len(),
        0 <= i < files.len() ==> copy::sources_of(files)[i] == (if files[i] == seq!['-'] {
            SourceView::Stdin
        } else {
            SourceView::File(files[i])
        }),
{
    reveal_strlit("-");
    assert("-"@ =~= seq!['-']);
}

// What is pasted.

/// The common text types in the order of preference.
pub proof fn text_types_have_an_order()
    ensures
        paste::paste_prefs() == seq![
            "text/plain;charset=utf-8"@,
            "text/plain"@,
            "UTF8_STRING"@,
            "STRING"@,
            "TEXT"@,
        ],
        paste::TARGETS@ == "TARGETS"@,
{
    assert(paste::paste_prefs() =~= seq![
        "text/plain;charset=utf-8"@,
        "text/plain"@,
        "UTF8_STRING"@,
        "STRING"@,
        "TEXT"@,
    ]);
}

/// A target is picked exactly where it is offered, and nothing else is then.
pub proof fn a_target_is_picked_if_offered(target: Seq<char>, mimes: Seq<Seq<char>>)
    ensures
        mimes.contains(target) ==> paste::picked(Some(target), mimes) == Some(target),
        !mimes.contains(target) ==> paste::picked(Some(target), mimes) is None,
{
}

/// Without a target the first of the five common types is picked that is
/// offered.
pub proof fn a_common_type_is_picked_first(mimes: Seq<Seq<char>>)
    ensures
        ({
            let p = paste::picked(None, mimes);
            let a = "text/plain;charset=utf-8"@;
            let b = "text/plain"@;
            let c = "UTF8_STRING"@;
            let d = "STRING"@;
            let e = "TEXT"@;
            &&& mimes.contains(a) ==> p == Some(a)
            &&& !mimes.contains(a) && mimes.contains(b) ==> p == Some(b)
            &&& !mimes.contains(a) && !mimes.contains(b) && mimes.contains(c) ==> p == Some(c)
            &&& !mimes.contains(a) && !mimes.contains(b) && !mimes.contains(c) && mimes.contains(
                d,
            ) ==> p == Some(d)
            &&& !mimes.contains(a) && !mimes.contains(b) && !mimes.contains(c) && !mimes.contains(
                d,
            ) && mimes.contains(e) ==> p == Some(e)
        }),
{
    best_of_five(mimes);
}

proof fn best_of_five(mimes: Seq<Seq<char>>)
    ensures
        ({
            let p = paste::paste_prefs();
            let best = paste::best(p, mimes);
            &&& p.len() == 5
            &&& p[0] == "text/plain;charset=utf-8"@ && p[1] == "text/plain"@ && p[2]
                == "UTF8_STRING"@ && p[3] == "STRING"@ && p[4] == "TEXT"@
            &&& best == (if mimes.contains(p[0]) {
                Some(p[0])
            } else if mimes.contains(p[1]) {
                Some(p[1])
            } else if mimes.contains(p[2]) {
                Some(p[2])
            } else if mimes.contains(p[3]) {
                Some(p[3])
            } else if mimes.contains(p[4]) {
                Some(p[4])
            } else {
                None
            })
        }),
{
    text_types_have_an_order();
    let p = paste::paste_prefs();
    reveal_with_fuel(paste::best, 6);
    assert(p.skip(1)[0] == p[1]);
    assert(p.skip(1).skip(1)[0] == p[2]);
    assert(p.skip(1).skip(1).skip(1)[0] == p[3]);
    assert(p.skip(1).skip(1).skip(1).skip(1)[0] == p[4]);
    assert(p.skip(1).skip(1).skip(1).skip(1).skip(1).len() == 0);
}

/// Whether none of the common types is offered.
pub open spec fn nothing_common(mimes: Seq<Seq<char>>) -> bool {
    &&& !mimes.contains("text/plain;charset=utf-8"@)
    &&& !mimes.contains("text/plain"@)
    &&& !mimes.contains("UTF8_STRING"@)
    &&& !mimes.contains("STRING"@)
    &&& !mimes.contains("TEXT"@)
}

/// Whether a type is one of text: it begins with these five characters.
pub open spec fn is_text(mime: Seq<char>) -> bool {
    mime.len() >= 5 && mime.take(5) == seq!['t', 'e', 'x', 't', '/']
}

/// Where no common type is offered, the first text type is picked; where there
/// is none, the first type of all; and nothing only where nothing is offered.
pub proof fn other_types_are_picked_by_place(mimes: Seq<Seq<char>>, i: int)
    requires
        nothing_common(mimes),
    ensures
        0 <= i < mimes.len() && is_text(mimes[i]) && (forall|j: int|
            0 <= j < i ==> !is_text(#[trigger] mimes[j])) ==> paste::picked(None, mimes) == Some(
            mimes[i],
        ),
        mimes.len() > 0 && (forall|j: int| 0 <= j < mimes.len() ==> !is_text(#[trigger] mimes[j]))
            ==> paste::picked(None, mimes) == Some(mimes[0]),
        mimes.len() == 0 ==> paste::picked(None, mimes) is None,
{
    best_of_five(mimes);
    if 0 <= i < mimes.len() && is_text(mimes[i]) && (forall|j: int|
        0 <= j < i ==> !is_text(#[trigger] mimes[j])) {
        first_text_by_place(mimes, i);
    }
    if forall|j: int| 0 <= j < mimes.len() ==> !is_text(#[trigger] mimes[j]) {
        no_text_at_all(mimes);
    }
}

proof fn text_prefix(mime: Seq<char>)
    ensures
        text::begins_with(mime, "text/"@) <==> is_text(mime),
{
    reveal_strlit("text/");
    assert("text/"@ =~= seq!['t', 'e', 'x', 't', '/']);
}

proof fn first_text_by_place(mimes: Seq<Seq<char>>, i: int)
    requires
        0 <= i < mimes.len(),
        is_text(mimes[i]),
        forall|j: int| 0 <= j < i ==> !is_text(#[trigger] mimes[j]),
    ensures
        paste::first_text(mimes) == Some(mimes[i]),
    decreases mimes.len(),
{
    text_prefix(mimes[0]);
    if i > 0 {
        assert(!is_text(mimes[0]));
        let tail = mimes.skip(1);
        assert(tail[i - 1] == mimes[i]);
        assert forall|j: int| 0 <= j < i - 1 implies !is_text(#[trigger] tail[j]) by {
            assert(tail[j] == mimes[j + 1]);
        }
        first_text_by_place(tail, i - 1);
    }
}

proof fn no_text_at_all(mimes: Seq<Seq<char>>)
    requires
        forall|j: int| 0 <= j < mimes.len() ==> !is_text(#[trigger] mimes[j]),
    ensures
        paste::first_text(mimes) is None,
    decreases mimes.len(),
{
    if mimes.len() > 0 {
        text_prefix(mimes[0]);
        assert(!is_text(mimes[0]));
        let tail = mimes.skip(1);
        assert forall|j: int| 0 <= j < tail.len() implies !is_text(#[trigger] tail[j]) by {
            assert(tail[j] == mimes[j + 1]);
        }
        no_text_at_all(tail);
    }
}

/// A list of types has a line for each, in order: the type in UTF-8 and a byte
/// 10.
pub proof fn types_are_listed_in_lines(mimes: Seq<Seq<char>>, mime: Seq<char>)
    ensures
        paste::listing(Seq::empty()) == Seq::<u8>::empty(),
        paste::listing(mimes + seq![mime]) == paste::listing(mimes) + vstd::utf8::encode_utf8(mime)
            + seq![10u8],
{
    assert((mimes + seq![mime]).drop_last() =~= mimes);
    assert((mimes + seq![mime]).last() == mime);
}

/// A paste reads the primary selection where that is asked for, and the regular
/// one otherwise.
pub proof fn a_paste_reads_its_selection(p: PasteView)
    ensures
        p.primary ==> p.offer() == p.st.primary_selection,
        !p.primary ==> p.offer() == p.st.selection,
{
}

// From the choice to the wire.

/// Once the offers are known: nothing selected is nothing to print; `TARGETS`
/// prints the types of the offer; else the type that is picked among them is
/// what the offer is asked for, over the pipe that is then opened, and where
/// none is picked the paste fails and quotes its target. Nothing is sent before
/// the pipe is there.
pub proof fn the_picked_type_goes_over_the_wire(p: PasteView, offer: u32, fd: i32)
    requires
        p.offer() == Some(offer),
    ensures
        ({
            let s = p.choose_type();
            let mimes = p.st.offer_mimes(offer);
            &&& s.paste.conn == p.conn && s.paste.st == p.st && s.paste.rmlastnl == p.rmlastnl
            &&& p.target == Some("TARGETS"@) ==> s.result == Ok::<paste::StepView, ErrorView>(
                paste::StepView::Print(paste::listing(mimes)),
            )
            &&& p.target != Some("TARGETS"@) && paste::picked(p.target, mimes) is Some ==> {
                let mime = paste::picked(p.target, mimes).unwrap();
                &&& s.result == Ok::<paste::StepView, ErrorView>(paste::StepView::OpenPipe)
                &&& s.paste.stage == (paste::StageView::Pipe { offer, mime })
                &&& requests::is_short(mime) ==> requests::says_text(
                    p.conn.order,
                    p.conn.sent(
                        proto::receive_offer(p.conn.order, offer, mime, fd),
                    ).0.outbox.last(),
                    offer,
                    0,
                    mime,
                    seq![fd],
                )
            }
            &&& p.target != Some("TARGETS"@) && paste::picked(p.target, mimes) is None ==> {
                &&& s.paste.stage is Finished
                &&& p.target matches Some(t) ==> s.result == Err::<paste::StepView, ErrorView>(
                    ErrorView::NoTarget(t),
                )
                &&& p.target is None ==> s.result == Err::<paste::StepView, ErrorView>(
                    ErrorView::NoData,
                )
            }
        }),
{
    text_types_have_an_order();
    let mimes = p.st.offer_mimes(offer);
    if paste::picked(p.target, mimes) is Some {
        let mime = paste::picked(p.target, mimes).unwrap();
        requests::a_request_is_queued_if_it_fits(p.conn, offer, mime, fd);
    }
}

/// With nothing selected a paste is over and prints nothing.
pub proof fn nothing_selected_is_nothing_printed(p: PasteView)
    requires
        p.offer() is None,
    ensures
        p.choose_type().result == Ok::<paste::StepView, ErrorView>(paste::StepView::Done),
        p.choose_type().paste == (PasteView { stage: paste::StageView::Finished, ..p }),
{
}

// Refusals.

/// Where a manager or a seat is missing, or the primary selection is asked for
/// and not there, neither copy nor paste goes on, and each says why: the manager
/// is missed before the seat, and the seat before the primary selection.
pub proof fn what_is_missing_is_named(c: CopyView, p: PasteView)
    ensures
        c.st.manager is None ==> c.install().result == Err::<copy::Step, ErrorView>(
            ErrorView::NoManager,
        ) && c.install().copy == (CopyView { stage: copy::Stage::Finished, ..c }),
        c.st.manager is Some && c.st.seat_global is None ==> c.install().result == Err::<
            copy::Step,
            ErrorView,
        >(ErrorView::NoSeat) && c.install().copy == (CopyView {
            stage: copy::Stage::Finished,
            ..c
        }),
        c.st.manager is Some && c.st.seat_global is Some && c.primary && !c.st.primary_supported()
            ==> c.install().result == Err::<copy::Step, ErrorView>(ErrorView::NoPrimary)
            && c.install().copy.stage is Finished && c.install().copy.conn.outbox.len()
            == c.conn.outbox.len() + 3,
        p.st.manager is None ==> p.bind().result == Err::<paste::StepView, ErrorView>(
            ErrorView::NoManager,
        ) && p.bind().paste == (PasteView { stage: paste::StageView::Finished, ..p }),
        p.st.manager is Some && p.st.seat_global is None ==> p.bind().result == Err::<
            paste::StepView,
            ErrorView,
        >(ErrorView::NoSeat) && p.bind().paste == (PasteView {
            stage: paste::StageView::Finished,
            ..p
        }),
        p.st.manager is Some && p.st.seat_global is Some && p.primary && !p.st.primary_supported()
            ==> p.bind().result == Err::<paste::StepView, ErrorView>(ErrorView::NoPrimary)
            && p.bind().paste.stage is Finished && p.bind().paste.conn.outbox.len()
            == p.conn.outbox.len() + 3,
{
}

// Steps.

/// When the selection is installed, a copy that was replaced is over; any other
/// goes on to serve with all that it has, in the background unless it is to
/// stay.
pub proof fn an_installed_copy_serves(c: CopyView)
    ensures
        c.st.cancelled ==> c.hand_over().result == Ok::<copy::Step, ErrorView>(copy::Step::Done)
            && c.hand_over().copy == (CopyView { stage: copy::Stage::Finished, ..c }),
        !c.st.cancelled ==> c.hand_over().copy == (CopyView { stage: copy::Stage::Serving, ..c }),
        !c.st.cancelled && c.foreground ==> c.hand_over().result == Ok::<copy::Step, ErrorView>(
            copy::Step::Continue,
        ),
        !c.st.cancelled && !c.foreground ==> c.hand_over().result == Ok::<copy::Step, ErrorView>(
            copy::Step::Detach,
        ),
{
}

/// What a copy asks of its caller follows from its event loop: to receive where
/// a message is not whole, to write where a paste request took a descriptor, to
/// go on after any other event; and a failure ends it. Its settings never
/// change.
pub proof fn a_copy_follows_its_event_loop(c: CopyView, rt: Roundtrip)
    ensures
        ({
            let p = proto::pumped(c.conn, c.st, Some(rt.callback));
            let q = proto::serving(c.conn, c.st);
            let waits = c.stage == copy::Stage::Globals(rt) || (c.stage == copy::Stage::Installing(
                rt,
            ) && !c.st.limit_reached());
            let s = c.stepped();
            &&& waits ==> follows(c, p, s)
            &&& c.stage is Serving ==> follows(c, q, s)
            &&& c.stage == copy::Stage::Globals(rt) && p.result == Ok::<Progress, ErrorView>(
                Progress::Done,
            ) ==> s == (CopyView { conn: p.conn, st: p.st, ..c }).install()
            &&& c.stage == copy::Stage::Installing(rt) && !c.st.limit_reached() && p.result == Ok::<
                Progress,
                ErrorView,
            >(Progress::Done) ==> s == (CopyView { conn: p.conn, st: p.st, ..c }).hand_over()
            &&& c.stage is Serving && q.result == Ok::<Progress, ErrorView>(Progress::Done)
                ==> s.result == Ok::<copy::Step, ErrorView>(copy::Step::Done) && s.copy.stage is Finished
            &&& c.stage is Finished ==> s.copy == c && s.result == Ok::<copy::Step, ErrorView>(
                copy::Step::Done,
            )
            &&& s.copy.data == c.data && s.copy.loops == c.loops && s.copy.mimes == c.mimes
                && s.copy.primary == c.primary && s.copy.foreground == c.foreground
            &&& s.copy.st.data == c.st.data && s.copy.st.loops == c.st.loops
        }),
{
}

/// Whether a step of a copy is what its event loop gave, where that is not the
/// end of a wait.
pub open spec fn follows(c: CopyView, p: proto::Pumped, s: copy::Stepped) -> bool {
    let there = CopyView { conn: p.conn, st: p.st, ..c };
    match p.result {
        Ok(Progress::Done) => true,
        Ok(Progress::NeedInput) => s.copy == there && s.result == Ok::<copy::Step, ErrorView>(
            copy::Step::Receive,
        ),
        Ok(Progress::Handled(proto::Effect::Nothing)) => s.copy == there && s.result == Ok::<
            copy::Step,
            ErrorView,
        >(copy::Step::Continue),
        Ok(Progress::Handled(proto::Effect::Deliver(fd))) => s.copy == there && s.result == Ok::<
            copy::Step,
            ErrorView,
        >(copy::Step::Deliver(fd)),
        Err(e) => s.copy == (CopyView { stage: copy::Stage::Finished, ..there }) && s.result
            == Err::<copy::Step, ErrorView>(e),
    }
}

/// What a paste asks of its caller follows from its event loop in the same way,
/// until it has chosen a type.
pub proof fn a_paste_follows_its_event_loop(p: PasteView, rt: Roundtrip)
    ensures
        ({
            let q = proto::pumped(p.conn, p.st, Some(rt.callback));
            let there = PasteView { conn: q.conn, st: q.st, ..p };
            let waits = p.stage == paste::StageView::Globals(rt) || p.stage
                == paste::StageView::Offers(rt);
            let s = p.stepped();
            &&& waits && q.result == Ok::<Progress, ErrorView>(Progress::NeedInput) ==> s.paste
                == there && s.result == Ok::<paste::StepView, ErrorView>(paste::StepView::Receive)
            &&& waits && (q.result matches Ok(Progress::Handled(_))) ==> s.paste == there && s.result
                == Ok::<paste::StepView, ErrorView>(paste::StepView::Continue)
            &&& waits && q.result is Err ==> s.paste.stage is Finished && s.result == Err::<
                paste::StepView,
                ErrorView,
            >(q.result->Err_0)
            &&& p.stage == paste::StageView::Globals(rt) && q.result == Ok::<Progress, ErrorView>(
                Progress::Done,
            ) ==> s == there.bind()
            &&& p.stage == paste::StageView::Offers(rt) && q.result == Ok::<Progress, ErrorView>(
                Progress::Done,
            ) ==> s == there.choose_type()
            &&& p.stage is Pipe ==> s.paste == p && s.result == Ok::<paste::StepView, ErrorView>(
                paste::StepView::OpenPipe,
            )
            &&& p.stage is Data ==> s.paste == p && s.result == Ok::<paste::StepView, ErrorView>(
                paste::StepView::ReadPipe,
            )
            &&& p.stage is Finished ==> s.paste == p && s.result == Ok::<
                paste::StepView,
                ErrorView,
            >(paste::StepView::Done)
            &&& s.paste.target == p.target && s.paste.primary == p.primary && s.paste.rmlastnl
                == p.rmlastnl
        }),
{
}

} // verus!
