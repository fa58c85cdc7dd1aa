//! The registry of live terminal sessions: a mapping from session id to the
//! session's handles, in which every id occurs once.
use vstd::prelude::*;
use crate::error::failure_of;
use crate::error::resize_verdict;
use crate::error::sink_verdict;
use crate::error::SinkFailure;
use crate::error::TerminalError;
use crate::error::TerminalErrorView;
use crate::event::TerminalInfo;
use crate::event::TerminalInfoView;
use crate::spawn::TerminalSize;
use crate::text::texts;

verus! {

/// The handles a session owns: the sink that carries input to the shell, and
/// the master side of its pseudoterminal, kept for resizing. The registry
/// never looks inside either.
pub struct TerminalSession<W, M> {
    pub writer: W,
    pub master: M,
}

struct Slot<W, M> {
    id: String,
    session: TerminalSession<W, M>,
}

/// The sessions that are running, oldest first.
///
/// As a value it is the map `self@` from id to session; `self.ids()` lists
/// the keys of that map in the order in which they were registered.
pub struct SessionRegistry<W, M> {
    slots: Vec<Slot<W, M>>,
}

spec fn ids_of<W, M>(slots: Seq<Slot<W, M>>) -> Seq<Seq<char>> {
    Seq::new(slots.len(), |i: int| slots[i].id@)
}

impl<W, M> View for SessionRegistry<W, M> {
    type V = Map<Seq<char>, TerminalSession<W, M>>;

    closed spec fn view(&self) -> Map<Seq<char>, TerminalSession<W, M>> {
        Map::new(
            |id: Seq<char>| self.ids().contains(id),
            |id: Seq<char>| self.slots@[self.ids().index_of(id)].session,
        )
    }
}

impl<W, M> SessionRegistry<W, M> {
    /// The registered ids, in order of registration.
    pub closed spec fn ids(&self) -> Seq<Seq<char>> {
        ids_of(self.slots@)
    }

    /// No id is listed twice. Every registry that executable code can hold
    /// satisfies this.
    #[verifier::type_invariant]
    pub closed spec fn wf(&self) -> bool {
        self.ids().no_duplicates()
    }

    /// `after` is `before` with `session` registered under `id`: a session
    /// already there under that id is replaced where it stands, a new id goes
    /// to the end of the list.
    pub open spec fn registers(
        before: Self,
        after: Self,
        id: Seq<char>,
        session: TerminalSession<W, M>,
    ) -> bool {
        &&& after@ == before@.insert(id, session)
        &&& after.ids() == if before@.contains_key(id) {
            before.ids()
        } else {
            before.ids().push(id)
        }
    }

    /// `after` is `before` without `id`; the other ids keep their order.
    pub open spec fn retires(before: Self, after: Self, id: Seq<char>) -> bool {
        &&& after@ == before@.remove(id)
        &&& after.ids() == if before@.contains_key(id) {
            before.ids().remove(before.ids().index_of(id))
        } else {
            before.ids()
        }
    }

    /// The listed ids are exactly the keys of the map.
    pub proof fn lemma_ids_are_keys(self)
        ensures
            forall|id: Seq<char>| self.ids().contains(id) <==> #[trigger] self@.contains_key(id),
            self@.dom() =~= self.ids().to_set(),
            self@.dom().finite(),
    {
        vstd::seq_lib::seq_to_set_is_finite(self.ids());
    }

    proof fn lemma_slot(self, i: int)
        requires
            self.wf(),
            0 <= i < self.slots@.len(),
        ensures
            self.ids()[i] == self.slots@[i].id@,
            self.ids().index_of(self.ids()[i]) == i,
            self@.contains_key(self.ids()[i]),
            self@[self.ids()[i]] == self.slots@[i].session,
    {
        let ids = self.ids();
        assert(ids.contains(ids[i]));
        let k = ids.index_of(ids[i]);
        assert(0 <= k < ids.len() && ids[k] == ids[i]);
    }

    /// A registry without sessions.
    pub fn new() -> (registry: Self)
        ensures
            registry@ == Map::<Seq<char>, TerminalSession<W, M>>::empty(),
            registry.ids() == Seq::<Seq<char>>::empty(),
    {
        let registry = SessionRegistry { slots: Vec::new() };
        assert(registry@ =~= Map::<Seq<char>, TerminalSession<W, M>>::empty());
        assert(registry.ids() =~= Seq::<Seq<char>>::empty());
        registry
    }

    fn position(&self, id: &str) -> (found: Option<usize>)
        ensures
            match found {
                Some(i) => i < self.slots@.len() && self.ids()[i as int] == id@,
                None => !self.ids().contains(id@),
            },
    {
        let key = id.to_owned();
        let mut i: usize = 0;
        while i < self.slots.len()
            invariant
                key@ == id@,
                i <= self.slots@.len(),
                forall|j: int| 0 <= j < i ==> self.ids()[j] != id@,
            decreases self.slots@.len() - i,
        {
            if self.slots[i].id == key {
                return Some(i);
            }
            i += 1;
        }
        None
    }

    fn take_slots(&mut self) -> (slots: Vec<Slot<W, M>>)
        ensures
            slots@ == old(self).slots@,
            final(self).slots@.len() == 0,
    {
        let mut slots: Vec<Slot<W, M>> = Vec::new();
        std::mem::swap(&mut self.slots, &mut slots);
        slots
    }

    fn put_slots(&mut self, slots: Vec<Slot<W, M>>)
        requires
            ids_of(slots@).no_duplicates(),
        ensures
            final(self).slots@ == slots@,
    {
        self.slots = slots;
    }

    /// A registry whose slots pair up with the entries of `map` has `map` as
    /// its value.
    proof fn lemma_view_is(self, map: Map<Seq<char>, TerminalSession<W, M>>)
        requires
            self.wf(),
            forall|k: int|
                0 <= k < self.slots@.len() ==> map.contains_key(#[trigger] self.ids()[k])
                    && map[self.ids()[k]] == self.slots@[k].session,
            forall|id: Seq<char>| #[trigger] map.contains_key(id) ==> self.ids().contains(id),
        ensures
            self@ == map,
    {
        assert forall|id: Seq<char>| #[trigger] self@.contains_key(id) implies map.contains_key(
            id,
        ) && self@[id] == map[id] by {
            let k = self.ids().index_of(id);
            assert(self.ids()[k] == id);
        }
        assert(self@ =~= map);
    }

    /// Registers `session` under `id` and hands back the session that was
    /// registered under that id before, if there was one.
    pub fn insert(&mut self, id: String, session: TerminalSession<W, M>) -> (replaced: Option<
        TerminalSession<W, M>,
    >)
        ensures
            Self::registers(*old(self), *final(self), id@, session),
            replaced == old(self)@.get(id@),
    {
        proof {
            use_type_invariant(&*self);
        }
        let ghost map = self@.insert(id@, session);
        match self.position(id.as_str()) {
            Some(i) => {
                proof {
                    self.lemma_slot(i as int);
                }
                let mut incoming = session;
                let mut slots = self.take_slots();
                std::mem::swap(&mut slots[i].session, &mut incoming);
                proof {
                    assert(ids_of(slots@) =~= old(self).ids());
                }
                self.put_slots(slots);
                proof {
                    assert forall|k: int| 0 <= k < self.slots@.len() implies map.contains_key(
                        #[trigger] self.ids()[k],
                    ) && map[self.ids()[k]] == self.slots@[k].session by {
                        old(self).lemma_slot(k);
                    }
                    self.lemma_view_is(map);
                }
                Some(incoming)
            },
            None => {
                let mut slots = self.take_slots();
                slots.push(Slot { id, session });
                proof {
                    assert(ids_of(slots@) =~= old(self).ids().push(id@));
                }
                self.put_slots(slots);
                proof {
                    assert forall|k: int| 0 <= k < self.slots@.len() implies map.contains_key(
                        #[trigger] self.ids()[k],
                    ) && map[self.ids()[k]] == self.slots@[k].session by {
                        if k < old(self).slots@.len() {
                            old(self).lemma_slot(k);
                        }
                    }
                    assert forall|key: Seq<char>| #[trigger] map.contains_key(key) implies self.ids().contains(
                        key,
                    ) by {
                        if key == id@ {
                            assert(self.ids()[old(self).slots@.len() as int] == key);
                        } else {
                            let k = old(self).ids().index_of(key);
                            assert(self.ids()[k] == key);
                        }
                    }
                    self.lemma_view_is(map);
                }
                None
            },
        }
    }

    /// Registers a session that was started: `session` under `id`, running
    /// `shell`; and describes it for the caller.
    pub fn register(&mut self, id: String, shell: String, session: TerminalSession<W, M>) -> (info:
        TerminalInfo)
        ensures
            Self::registers(*old(self), *final(self), id@, session),
            info@ == (TerminalInfoView { id: id@, shell: shell@ }),
    {
        let key = id.clone();
        self.insert(key, session);
        TerminalInfo { id, shell }
    }

    /// Takes the session registered under `id` out of the registry and hands
    /// it back; a registry that holds no such id is left as it is.
    pub fn remove(&mut self, id: &str) -> (removed: Option<TerminalSession<W, M>>)
        ensures
            Self::retires(*old(self), *final(self), id@),
            removed == old(self)@.get(id@),
    {
        proof {
            use_type_invariant(&*self);
        }
        let ghost map = self@.remove(id@);
        match self.position(id) {
            Some(i) => {
                proof {
                    self.lemma_slot(i as int);
                }
                let mut slots = self.take_slots();
                let slot = slots.remove(i);
                proof {
                    assert(ids_of(slots@) =~= old(self).ids().remove(i as int));
                }
                self.put_slots(slots);
                proof {
                    assert forall|k: int| 0 <= k < self.slots@.len() implies map.contains_key(
                        #[trigger] self.ids()[k],
                    ) && map[self.ids()[k]] == self.slots@[k].session by {
                        if k < i {
                            old(self).lemma_slot(k);
                        } else {
                            old(self).lemma_slot(k + 1);
                        }
                    }
                    assert forall|key: Seq<char>| #[trigger] map.contains_key(key) implies self.ids().contains(
                        key,
                    ) by {
                        let k = old(self).ids().index_of(key);
                        if k < i {
                            assert(self.ids()[k] == key);
                        } else {
                            assert(self.ids()[k - 1] == key);
                        }
                    }
                    self.lemma_view_is(map);
                }
                Some(slot.session)
            },
            None => {
                proof {
                    assert(self@ =~= map);
                }
                None
            },
        }
    }

    /// Runs `f` on the input sink of the session registered under `id`, with
    /// exclusive access, and hands back what `f` returned. Without such a
    /// session `f` is not run and the registry stays as it is.
    ///
    /// While `f` runs the session is held outside the registry; it returns to
    /// its place when `f` returns.
    pub fn with_writer<R, F: FnOnce(&mut W) -> R>(&mut self, id: &str, f: F) -> (outcome: Result<
        R,
        TerminalError,
    >)
        requires
            old(self)@.contains_key(id@) ==> forall|w: &mut W|
                *w == old(self)@[id@].writer ==> call_requires(f, (w,)),
        ensures
            final(self).ids() == old(self).ids(),
            match outcome {
                Ok(out) => old(self)@.contains_key(id@) && exists|w: &mut W|
                    {
                        &&& *w == old(self)@[id@].writer
                        &&& call_ensures(f, (w,), out)
                        &&& final(self)@ == old(self)@.insert(
                            id@,
                            (TerminalSession { writer: *final(w), master: old(self)@[id@].master }),
                        )
                    },
                Err(e) => !old(self)@.contains_key(id@) && final(self)@ == old(self)@ && e@
                    == TerminalErrorView::NotFound(id@),
            },
    {
        proof {
            use_type_invariant(&*self);
        }
        match self.position(id) {
            Some(i) => {
                proof {
                    self.lemma_slot(i as int);
                }
                let mut slots = self.take_slots();
                let mut slot = slots.remove(i);
                proof {
                    assert(ids_of(slots@) =~= old(self).ids().remove(i as int));
                }
                self.put_slots(slots);
                let out = f(&mut slot.session.writer);
                let mut slots = self.take_slots();
                slots.insert(i, slot);
                proof {
                    assert(ids_of(slots@) =~= old(self).ids());
                }
                self.put_slots(slots);
                proof {
                    let map = old(self)@.insert(id@, slot.session);
                    assert forall|k: int| 0 <= k < self.slots@.len() implies map.contains_key(
                        #[trigger] self.ids()[k],
                    ) && map[self.ids()[k]] == self.slots@[k].session by {
                        old(self).lemma_slot(k);
                    }
                    self.lemma_view_is(map);
                }
                Ok(out)
            },
            None => Err(TerminalError::NotFound(id.to_owned())),
        }
    }

    /// Runs `f` on the master handle of the session registered under `id` and
    /// hands back what `f` returned. Without such a session `f` is not run.
    pub fn with_master<R, F: FnOnce(&M) -> R>(&self, id: &str, f: F) -> (outcome: Result<
        R,
        TerminalError,
    >)
        requires
            self@.contains_key(id@) ==> call_requires(f, (&self@[id@].master,)),
        ensures
            match outcome {
                Ok(out) => self@.contains_key(id@) && call_ensures(f, (&self@[id@].master,), out),
                Err(e) => !self@.contains_key(id@) && e@ == TerminalErrorView::NotFound(id@),
            },
    {
        proof {
            use_type_invariant(self);
        }
        match self.position(id) {
            Some(i) => {
                proof {
                    self.lemma_slot(i as int);
                }
                Ok(f(&self.slots[i].session.master))
            },
            None => Err(TerminalError::NotFound(id.to_owned())),
        }
    }

    /// Sends `data` to the shell of session `id`: runs `send` once on the
    /// session's input sink with exactly `data`. A failure of `send` is
    /// reported as the I/O failure it is. Without a session `id`, `send` is
    /// not run and the reply is `NotFound`. In no case does a session leave
    /// the registry.
    pub fn write<F>(&mut self, id: &str, data: &[u8], send: F) -> (reply: Result<
        (),
        TerminalError,
    >) where F: FnOnce(&mut W, &[u8]) -> Result<(), SinkFailure>
        requires
            old(self)@.contains_key(id@) ==> forall|sink: &mut W|
                *sink == old(self)@[id@].writer ==> call_requires(send, (sink, data)),
        ensures
            final(self).ids() == old(self).ids(),
            !old(self)@.contains_key(id@) ==> final(self)@ == old(self)@ && failure_of(reply)
                == Some(TerminalErrorView::NotFound(id@)),
            old(self)@.contains_key(id@) ==> exists|sink: &mut W, sent: Result<(), SinkFailure>|
                {
                    &&& *sink == old(self)@[id@].writer
                    &&& #[trigger] call_ensures(send, (sink, data), sent)
                    &&& final(self)@ == old(self)@.insert(
                        id@,
                        (TerminalSession { writer: *final(sink), master: old(self)@[id@].master }),
                    )
                    &&& failure_of(reply) == sink_verdict(sent)
                },
    {
        let ghost found = self@.contains_key(id@);
        let ghost writer = self@[id@].writer;
        let outcome = self.with_writer(
            id,
            |sink: &mut W| -> (sent: Result<(), SinkFailure>)
                requires
                    found && *sink == writer
                ensures
                    exists|inner: &mut W|
                        *inner == *old(sink) && *final(inner) == *final(sink) && #[trigger] call_ensures(
                            send,
                            (inner, data),
                            sent,
                        )
                { send(sink, data) },
        );
        match outcome {
            Ok(Ok(_)) => Ok(()),
            Ok(Err(failure)) => Err(TerminalError::from_sink(failure)),
            Err(error) => Err(error),
        }
    }

    /// Gives the terminal of session `id` the size `cols` by `rows`: runs
    /// `apply` once on the session's master handle with that size. If
    /// `apply` fails, its cause is reported as a `Resize` failure. Without a
    /// session `id`, `apply` is not run and the reply is `NotFound`.
    pub fn resize<F>(&self, id: &str, cols: u16, rows: u16, apply: F) -> (reply: Result<
        (),
        TerminalError,
    >) where F: FnOnce(&M, TerminalSize) -> Result<(), String>
        requires
            self@.contains_key(id@) ==> call_requires(
                apply,
                (&self@[id@].master, TerminalSize::of_cells(cols, rows)),
            ),
        ensures
            !self@.contains_key(id@) ==> failure_of(reply) == Some(
                TerminalErrorView::NotFound(id@),
            ),
            self@.contains_key(id@) ==> exists|applied: Result<(), String>|
                {
                    &&& #[trigger] call_ensures(
                        apply,
                        (&self@[id@].master, TerminalSize::of_cells(cols, rows)),
                        applied,
                    )
                    &&& failure_of(reply) == resize_verdict(applied)
                },
    {
        let size = TerminalSize::cells(cols, rows);
        let ghost found = self@.contains_key(id@);
        let ghost handle = self@[id@].master;
        let outcome = self.with_master(
            id,
            |master: &M| -> (applied: Result<(), String>)
                requires
                    found && *master == handle
                ensures
                    call_ensures(apply, (master, size), applied)
                { apply(master, size) },
        );
        match outcome {
            Ok(Ok(_)) => Ok(()),
            Ok(Err(cause)) => Err(TerminalError::Resize(cause)),
            Err(error) => Err(error),
        }
    }

    /// A snapshot of the registered ids, in order of registration. Every id
    /// occurs in it once.
    pub fn list_ids(&self) -> (ids: Vec<String>)
        ensures
            ids@.len() == self.ids().len(),
            texts(ids@) == self.ids(),
            self.ids().no_duplicates(),
            self.ids().to_set() == self@.dom(),
    {
        proof {
            use_type_invariant(self);
            self.lemma_ids_are_keys();
        }
        let mut ids: Vec<String> = Vec::new();
        let mut i: usize = 0;
        while i < self.slots.len()
            invariant
                i <= self.slots@.len(),
                ids@.len() == i,
                forall|j: int| 0 <= j < i ==> ids@[j]@ == self.ids()[j],
            decreases self.slots@.len() - i,
        {
            ids.push(self.slots[i].id.clone());
            i += 1;
        }
        assert(texts(ids@) =~= self.ids());
        ids
    }
}

/// A session that has just been registered is listed exactly once, and an
/// operation on its id finds it.
pub proof fn law_registered_id_is_listed_once<W, M>(
    before: SessionRegistry<W, M>,
    after: SessionRegistry<W, M>,
    id: Seq<char>,
    session: TerminalSession<W, M>,
)
    requires
        after.wf(),
        SessionRegistry::registers(before, after, id, session),
    ensures
        after.ids().to_multiset().count(id) == 1,
        after@.contains_key(id),
        after@[id] == session,
{
    after.lemma_ids_are_keys();
    assert(after@.contains_key(id));
    assert(after.ids().contains(id));
    after.ids().to_multiset_ensures();
    after.ids().lemma_multiset_has_no_duplicates();
}

/// Closing a session a second time changes nothing, and once a session is
/// closed no operation finds its id: it is unknown to the map and absent
/// from the list.
pub proof fn law_close_is_idempotent<W, M>(
    before: SessionRegistry<W, M>,
    once: SessionRegistry<W, M>,
    twice: SessionRegistry<W, M>,
    id: Seq<char>,
)
    requires
        before.wf(),
        SessionRegistry::retires(before, once, id),
        SessionRegistry::retires(once, twice, id),
    ensures
        !once@.contains_key(id),
        !once.ids().contains(id),
        twice@ == once@,
        twice.ids() == once.ids(),
{
    once.lemma_ids_are_keys();
    assert(!once@.contains_key(id));
    assert(once@.remove(id) =~= once@);
}

/// Registering, closing or writing to one session leaves every other
/// session as it was.
pub proof fn law_sessions_are_independent<W, M>(
    before: SessionRegistry<W, M>,
    after: SessionRegistry<W, M>,
    id: Seq<char>,
    other: Seq<char>,
)
    requires
        other != id,
        after@ == before@.remove(id) || exists|session: TerminalSession<W, M>|
            after@ == before@.insert(id, session),
    ensures
        after@.contains_key(other) == before@.contains_key(other),
        before@.contains_key(other) ==> after@[other] == before@[other],
{
}

/// Registering a session under an id that is not yet registered adds that
/// one id, at the end of the list, and leaves every session that was there
/// as it was.
pub proof fn law_new_id_adds_one_session<W, M>(
    before: SessionRegistry<W, M>,
    after: SessionRegistry<W, M>,
    id: Seq<char>,
    session: TerminalSession<W, M>,
)
    requires
        before.wf(),
        !before@.contains_key(id),
        SessionRegistry::registers(before, after, id, session),
    ensures
        after.ids() == before.ids().push(id),
        after.ids().to_multiset().count(id) == 1,
        after@.dom().len() == before@.dom().len() + 1,
        forall|other: Seq<char>| #[trigger]
            before@.contains_key(other) ==> after@.contains_key(other) && after@[other]
                == before@[other],
        forall|other: Seq<char>| #[trigger]
            after@.contains_key(other) ==> other == id || before@.contains_key(other),
{
    before.lemma_ids_are_keys();
    assert(!before.ids().contains(id));
    assert(after.ids().no_duplicates()) by {
        let ids = before.ids();
        assert forall|i: int, j: int|
            0 <= i < ids.push(id).len() && 0 <= j < ids.push(id).len() && i != j implies ids.push(
            id,
        )[i] != ids.push(id)[j] by {
            if i < ids.len() {
                assert(ids.contains(ids[i]));
            }
            if j < ids.len() {
                assert(ids.contains(ids[j]));
            }
        }
    }
    assert(after.ids().contains(id)) by {
        assert(after.ids()[before.ids().len() as int] == id);
    }
    after.ids().to_multiset_ensures();
    after.ids().lemma_multiset_has_no_duplicates();
}

} // verus!
