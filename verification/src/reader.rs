//! What a session's reader does with each read from the pseudoterminal.
//!
//! The host owns the blocking read and the delivery of events. After every
//! read it asks the `SessionReader` what to publish and whether to go on.
use vstd::prelude::*;
use vstd::slice::slice_subrange;
use vstd::slice::slice_to_vec;
use crate::event::TerminalEvent;
use crate::event::TerminalEventView;
use crate::event::TerminalOutput;
use crate::event::TerminalOutputView;

verus! {

/// The size of the buffer a reader offers to each read.
pub const READ_CHUNK: usize = 4096;

/// How a blocking read ended.
#[derive(Debug, Clone, Copy, PartialEq, Eq)]
pub enum ReadOutcome {
    /// The read filled this many bytes at the start of the buffer; none means
    /// end of stream.
    Bytes(usize),
    /// The read failed.
    Failed,
}

/// What a read delivered.
pub enum Delivery {
    Data(Seq<u8>),
    Failure,
}

impl Delivery {
    /// What a read into `buffer` that ended with `outcome` delivered.
    pub open spec fn of(buffer: Seq<u8>, outcome: ReadOutcome) -> Delivery {
        match outcome {
            ReadOutcome::Bytes(count) => Delivery::Data(buffer.subrange(0, count as int)),
            ReadOutcome::Failed => Delivery::Failure,
        }
    }

    /// End of stream and failure end the session; data does not.
    pub open spec fn ends(self) -> bool {
        match self {
            Delivery::Data(bytes) => bytes.len() == 0,
            Delivery::Failure => true,
        }
    }

    /// The bytes delivered; none for a failure.
    pub open spec fn bytes(self) -> Seq<u8> {
        match self {
            Delivery::Data(bytes) => bytes,
            Delivery::Failure => Seq::empty(),
        }
    }

    /// The notification a running reader of session `id` publishes for it.
    pub open spec fn event(self, id: Seq<char>) -> TerminalEventView {
        if self.ends() {
            TerminalEventView::Closed(id)
        } else {
            TerminalEventView::Output(TerminalOutputView { id, data: self.bytes() })
        }
    }
}

/// The reader of one session: it is running until a read ends the session,
/// and finished from then on.
#[derive(Debug)]
pub struct SessionReader {
    id: String,
    finished: bool,
}

pub struct SessionReaderView {
    pub id: Seq<char>,
    pub finished: bool,
}

impl SessionReaderView {
    /// The reader after a read that delivered `delivery`.
    pub open spec fn after(self, delivery: Delivery) -> SessionReaderView {
        SessionReaderView { id: self.id, finished: self.finished || delivery.ends() }
    }

    /// What the reader publishes for `delivery`: nothing once it is finished.
    pub open spec fn publishes(self, delivery: Delivery) -> Option<TerminalEventView> {
        if self.finished {
            None
        } else {
            Some(delivery.event(self.id))
        }
    }

    /// Everything the reader publishes when it is handed `deliveries` one
    /// after the other.
    pub open spec fn published(self, deliveries: Seq<Delivery>) -> Seq<TerminalEventView>
        decreases deliveries.len(),
    {
        if deliveries.len() == 0 {
            Seq::empty()
        } else {
            let rest = self.after(deliveries[0]).published(deliveries.drop_first());
            match self.publishes(deliveries[0]) {
                Some(event) => seq![event] + rest,
                None => rest,
            }
        }
    }
}

impl View for SessionReader {
    type V = SessionReaderView;

    closed spec fn view(&self) -> SessionReaderView {
        SessionReaderView { id: self.id@, finished: self.finished }
    }
}

impl SessionReader {
    /// A running reader for session `id`.
    pub fn new(id: String) -> (reader: SessionReader)
        ensures
            reader@ == (SessionReaderView { id: id@, finished: false }),
    {
        SessionReader { id, finished: false }
    }

    /// The session this reader belongs to.
    pub fn id(&self) -> (id: &String)
        ensures
            id@ == self@.id,
    {
        &self.id
    }

    /// Whether a read has ended the session. A finished reader reads no more:
    /// the host then takes the session out of the registry and waits for the
    /// shell process.
    pub fn is_finished(&self) -> (finished: bool)
        ensures
            finished == self@.finished,
    {
        self.finished
    }

    /// Takes note of a read into `buffer` that ended with `outcome`, and says
    /// what to publish: the bytes just read, unchanged, as an `Output`; or
    /// `Closed` at end of stream and on failure, after which the reader is
    /// finished and publishes nothing more.
    pub fn on_read(&mut self, buffer: &[u8], outcome: ReadOutcome) -> (event: Option<TerminalEvent>)
        requires
            outcome matches ReadOutcome::Bytes(count) ==> count <= buffer@.len(),
        ensures
            final(self)@ == old(self)@.after(Delivery::of(buffer@, outcome)),
            match event {
                Some(e) => Some(e@) == old(self)@.publishes(Delivery::of(buffer@, outcome)),
                None => old(self)@.publishes(Delivery::of(buffer@, outcome)) is None,
            },
    {
        if self.finished {
            return None;
        }
        match outcome {
            ReadOutcome::Bytes(count) => {
                if count == 0 {
                    self.finished = true;
                    Some(TerminalEvent::Closed(self.id.clone()))
                } else {
                    let data = slice_to_vec(slice_subrange(buffer, 0, count));
                    Some(TerminalEvent::Output(TerminalOutput { id: self.id.clone(), data }))
                }
            },
            ReadOutcome::Failed => {
                self.finished = true;
                Some(TerminalEvent::Closed(self.id.clone()))
            },
        }
    }
}

/// The bytes of the deliveries that come before the one that ends the
/// session, in the order in which they were read.
pub open spec fn forwarded(deliveries: Seq<Delivery>) -> Seq<u8>
    decreases deliveries.len(),
{
    if deliveries.len() == 0 || deliveries[0].ends() {
        Seq::empty()
    } else {
        deliveries[0].bytes() + forwarded(deliveries.drop_first())
    }
}

/// Whether one of the deliveries ends the session.
pub open spec fn ended(deliveries: Seq<Delivery>) -> bool {
    exists|k: int| 0 <= k < deliveries.len() && #[trigger] deliveries[k].ends()
}

/// The payloads of the notifications, one after the other.
pub open spec fn payloads(events: Seq<TerminalEventView>) -> Seq<u8>
    decreases events.len(),
{
    if events.len() == 0 {
        Seq::empty()
    } else {
        events[0].payload() + payloads(events.drop_first())
    }
}

/// How many of the notifications are `Closed`.
pub open spec fn closings(events: Seq<TerminalEventView>) -> nat
    decreases events.len(),
{
    if events.len() == 0 {
        0
    } else {
        let first: nat = if events[0] is Closed {
            1
        } else {
            0
        };
        first + closings(events.drop_first())
    }
}

proof fn lemma_prepend(event: TerminalEventView, rest: Seq<TerminalEventView>)
    ensures
        payloads(seq![event] + rest) == event.payload() + payloads(rest),
        closings(seq![event] + rest) == closings(seq![event]) + closings(rest),
        closings(seq![event]) == if event is Closed {
            1nat
        } else {
            0nat
        },
{
    let all = seq![event] + rest;
    assert(all.drop_first() =~= rest);
    assert(seq![event].drop_first() =~= Seq::<TerminalEventView>::empty());
    assert(closings(seq![event].drop_first()) == 0);
}

/// A finished reader publishes nothing, whatever it is handed.
pub proof fn law_finished_reader_is_silent(reader: SessionReaderView, deliveries: Seq<Delivery>)
    requires
        reader.finished,
    ensures
        reader.published(deliveries) == Seq::<TerminalEventView>::empty(),
    decreases deliveries.len(),
{
    if deliveries.len() > 0 {
        law_finished_reader_is_silent(reader.after(deliveries[0]), deliveries.drop_first());
    }
}

/// A running reader publishes `Closed` once if a delivery ends the session,
/// as its last notification, and never otherwise; and every notification it
/// publishes names the reader's own session.
pub proof fn law_closed_exactly_once(reader: SessionReaderView, deliveries: Seq<Delivery>)
    requires
        !reader.finished,
    ensures
        ended(deliveries) ==> closings(reader.published(deliveries)) == 1 && reader.published(
            deliveries,
        ).last() is Closed,
        !ended(deliveries) ==> closings(reader.published(deliveries)) == 0,
        forall|i: int|
            0 <= i < reader.published(deliveries).len() ==> (#[trigger] reader.published(
                deliveries,
            )[i]).id() == reader.id,
    decreases deliveries.len(),
{
    if deliveries.len() > 0 {
        let first = deliveries[0];
        let rest = deliveries.drop_first();
        let event = first.event(reader.id);
        let tail = reader.after(first).published(rest);
        lemma_prepend(event, tail);
        assert(reader.published(deliveries) == seq![event] + tail);
        if first.ends() {
            law_finished_reader_is_silent(reader.after(first), rest);
            assert(seq![event] + tail =~= seq![event]);
        } else {
            law_closed_exactly_once(reader.after(first), rest);
            if ended(deliveries) {
                let k = choose|k: int| 0 <= k < deliveries.len() && #[trigger] deliveries[k].ends();
                assert(rest[k - 1].ends());
            }
            if ended(rest) {
                let k = choose|k: int| 0 <= k < rest.len() && #[trigger] rest[k].ends();
                assert(deliveries[k + 1].ends());
                assert(tail.len() > 0) by {
                    if tail.len() == 0 {
                        assert(closings(tail) == 0);
                    }
                }
                assert((seq![event] + tail).last() == tail.last());
            }
        }
    }
}

/// What a running reader publishes carries exactly the bytes read before the
/// session ended, in the order in which they were read.
pub proof fn law_output_is_what_was_read(reader: SessionReaderView, deliveries: Seq<Delivery>)
    requires
        !reader.finished,
    ensures
        payloads(reader.published(deliveries)) == forwarded(deliveries),
    decreases deliveries.len(),
{
    if deliveries.len() > 0 {
        let first = deliveries[0];
        let rest = deliveries.drop_first();
        let event = first.event(reader.id);
        let tail = reader.after(first).published(rest);
        lemma_prepend(event, tail);
        if first.ends() {
            law_finished_reader_is_silent(reader.after(first), rest);
            assert(payloads(tail) == Seq::<u8>::empty());
            assert(event.payload() + Seq::<u8>::empty() =~= Seq::<u8>::empty());
        } else {
            law_output_is_what_was_read(reader.after(first), rest);
        }
    }
}

/// Two running readers of different sessions do not mix: whatever each is
/// handed, every notification it publishes names its own session and not
/// the other, and carries the bytes of its own reads only.
pub proof fn law_readers_do_not_mix(
    one: SessionReaderView,
    other: SessionReaderView,
    reads_of_one: Seq<Delivery>,
    reads_of_other: Seq<Delivery>,
)
    requires
        !one.finished,
        !other.finished,
        one.id != other.id,
    ensures
        forall|i: int|
            0 <= i < one.published(reads_of_one).len() ==> (#[trigger] one.published(
                reads_of_one,
            )[i]).id() == one.id && one.published(reads_of_one)[i].id() != other.id,
        forall|i: int|
            0 <= i < other.published(reads_of_other).len() ==> (#[trigger] other.published(
                reads_of_other,
            )[i]).id() == other.id && other.published(reads_of_other)[i].id() != one.id,
        payloads(one.published(reads_of_one)) == forwarded(reads_of_one),
        payloads(other.published(reads_of_other)) == forwarded(reads_of_other),
{
    law_closed_exactly_once(one, reads_of_one);
    law_closed_exactly_once(other, reads_of_other);
    law_output_is_what_was_read(one, reads_of_one);
    law_output_is_what_was_read(other, reads_of_other);
}

} // verus!
