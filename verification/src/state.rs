//! The registry as the whole application shares it: behind one lock, reached
//! by every operation and by every session's reader.
use vstd::prelude::*;
use std::sync::Arc;
use portable_pty::CommandBuilder;
use crate::error::failure_of;
use crate::error::resize_verdict;
use crate::error::sink_verdict;
use crate::error::ErrorKind;
use crate::error::SinkFailure;
use crate::error::SpawnFailure;
use crate::error::TerminalError;
use crate::error::TerminalErrorView;
use crate::event::TerminalInfo;
use crate::event::TerminalInfoView;
use crate::registry::SessionRegistry;
use crate::registry::TerminalSession;
use crate::spawn::fresh_session_id;
use crate::spawn::is_session_id;
use crate::spawn::resolve_shell;
use crate::spawn::resolved_shell;
use crate::spawn::shell_command;
use crate::spawn::starts_shell;
use crate::spawn::HostEnvironment;
use crate::spawn::TerminalSize;
use crate::text::text_of;
use crate::text::texts;

verus! {

/// `lock_api::Mutex`, which `parking_lot::Mutex` is an alias of. Nothing is
/// claimed of what a mutex holds.
#[verifier::external_type_specification]
#[verifier::external_body]
#[verifier::reject_recursive_types(R)]
#[verifier::reject_recursive_types(T)]
pub struct ExMutex<R, T: ?Sized>(parking_lot::lock_api::Mutex<R, T>);

/// `parking_lot::RawMutex`, the lock inside a `parking_lot::Mutex`.
#[verifier::external_type_specification]
#[verifier::external_body]
pub struct ExRawMutex(parking_lot::RawMutex);

/// The shared registry of sessions. Every holder of a `TerminalState` made
/// by `share` works on the same registry; each operation holds the lock for
/// as long as it runs and no longer.
#[verifier::reject_recursive_types(W)]
#[verifier::reject_recursive_types(M)]
pub struct TerminalState<W, M> {
    sessions: Arc<parking_lot::Mutex<SessionRegistry<W, M>>>,
}

/// `parking_lot::Mutex::new`: a new, unlocked mutex around `registry`.
#[verifier::external_body]
fn guard_registry<W, M>(registry: SessionRegistry<W, M>) -> parking_lot::Mutex<
    SessionRegistry<W, M>,
> {
    parking_lot::Mutex::new(registry)
}

/// `Arc::clone`: one more owner of the same mutex.
#[verifier::external_body]
fn same_registry<W, M>(sessions: &Arc<parking_lot::Mutex<SessionRegistry<W, M>>>) -> (shared: Arc<
    parking_lot::Mutex<SessionRegistry<W, M>>,
>)
    ensures
        shared == *sessions,
{
    Arc::clone(sessions)
}

/// `parking_lot::Mutex::lock`: waits for the lock, runs `f` on the registry
/// that the mutex protects, and gives the lock back when `f` has returned.
/// What `f` finds there is whatever the last holder of the lock left, so the
/// contract says only that the result is one that `f` gives on some registry.
///
/// The lock is not reentrant: taken again by the thread that holds it, it
/// never returns. So `f` must not reach for the same mutex.
#[verifier::external_body]
fn locked<W, M, R, F: FnOnce(&mut SessionRegistry<W, M>) -> R>(
    sessions: &parking_lot::Mutex<SessionRegistry<W, M>>,
    f: F,
) -> (result: R)
    requires
        forall|registry: &mut SessionRegistry<W, M>| call_requires(f, (registry,)),
    ensures
        exists|registry: &mut SessionRegistry<W, M>| call_ensures(f, (registry,), result),
{
    let mut guard = sessions.lock();
    f(&mut *guard)
}

impl<W, M> TerminalState<W, M> {
    /// A shared registry without sessions.
    pub fn new() -> (state: Self) {
        TerminalState { sessions: Arc::new(guard_registry(SessionRegistry::new())) }
    }

    /// Another handle on the same registry, for a session's reader.
    pub fn share(&self) -> (state: Self)
        ensures
            state == *self,
    {
        TerminalState { sessions: same_registry(&self.sessions) }
    }
}

impl<W, M> Default for TerminalState<W, M> {
    fn default() -> (state: Self) {
        TerminalState::new()
    }
}

/// Closes the session `id`: takes it out of the registry and drops its
/// handles, which hangs up on the shell if it still runs. Closing an id that
/// is not registered is no error.
///
/// The registry spoken of is the one found under the lock; what other
/// holders of the state do to it before or after is theirs.
pub fn terminal_close<W, M>(state: &TerminalState<W, M>, id: String) -> (reply: Result<
    (),
    TerminalError,
>)
    ensures
        reply is Ok,
        exists|registry: &mut SessionRegistry<W, M>|
            SessionRegistry::retires(*registry, *final(registry), id@),
{
    let key = id.as_str();
    locked(
        &state.sessions,
        |registry: &mut SessionRegistry<W, M>| -> (closed: bool)
            ensures
                SessionRegistry::retires(*old(registry), *final(registry), id@)
            { registry.remove(key).is_some() },
    );
    Ok(())
}

/// The ids of the sessions that are registered at the moment of the call,
/// each once, in the order in which they were registered. The registry
/// found under the lock is left as it is.
pub fn terminal_list<W, M>(state: &TerminalState<W, M>) -> (reply: Result<
    Vec<String>,
    TerminalError,
>)
    ensures
        match reply {
            Ok(ids) => texts(ids@).no_duplicates() && exists|registry: &mut SessionRegistry<W, M>|
                texts(ids@) == registry.ids() && *final(registry) == *registry,
            Err(_) => false,
        },
{
    let ids = locked(
        &state.sessions,
        |registry: &mut SessionRegistry<W, M>| -> (ids: Vec<String>)
            ensures
                texts(ids@).no_duplicates(),
                texts(ids@) == old(registry).ids(),
                *final(registry) == *old(registry)
            { registry.list_ids() },
    );
    Ok(ids)
}

/// Starts a session and registers it.
///
/// The shell is the one asked for, else the host's `SHELL`, else `/bin/bash`.
/// `open` is handed the initial size and the command that `shell_command`
/// builds; it opens the pseudoterminal, starts the shell and hands back the
/// session's handles together with whatever the session's reader needs. If
/// `open` fails, its failure is reported and nothing is registered. Else the
/// session is registered under a new id, and that id, the shell and what
/// `open` gave for the reader are handed back.
pub fn terminal_spawn<W, M, X, F>(
    state: &TerminalState<W, M>,
    shell: Option<String>,
    cwd: Option<String>,
    host: &HostEnvironment,
    open: F,
) -> (reply: Result<(TerminalInfo, X), TerminalError>) where
    F: FnOnce(TerminalSize, CommandBuilder) -> Result<(TerminalSession<W, M>, X), SpawnFailure>,

    requires
        forall|command: CommandBuilder|
            starts_shell(command, resolved_shell(text_of(shell), host@.shell), text_of(cwd), host@)
                ==> call_requires(open, (TerminalSize::initial_size(), command)),
    ensures
        exists|command: CommandBuilder, opened: Result<(TerminalSession<W, M>, X), SpawnFailure>|
            {
                &&& starts_shell(
                    command,
                    resolved_shell(text_of(shell), host@.shell),
                    text_of(cwd),
                    host@,
                )
                &&& #[trigger] call_ensures(open, (TerminalSize::initial_size(), command), opened)
                &&& match opened {
                    Ok((session, rest)) => reply matches Ok((info, reader)) && reader == rest
                        && info@.shell == resolved_shell(text_of(shell), host@.shell)
                        && is_session_id(info@.id) && exists|registry: &mut SessionRegistry<W, M>|
                        SessionRegistry::registers(
                            *registry,
                            *final(registry),
                            info@.id,
                            session,
                        ),
                    Err(failure) => reply matches Err(error) && error@
                        == TerminalErrorView::of_spawn(failure),
                }
            },
        reply matches Err(error) ==> error@.kind() == ErrorKind::Resource,
{
    let shell_path = resolve_shell(shell, &host.shell);
    let command = shell_command(shell_path.as_str(), &cwd, host);
    let ghost planned = command;
    let opened = open(TerminalSize::initial(), command);
    assert(call_ensures(open, (TerminalSize::initial_size(), planned), opened));
    match opened {
        Err(failure) => Err(TerminalError::from_spawn(failure)),
        Ok((session, reader)) => {
            let id = fresh_session_id();
            let ghost shell_text = shell_path@;
            let info = locked(
                &state.sessions,
                |registry: &mut SessionRegistry<W, M>| -> (info: TerminalInfo)
                    ensures
                        info@ == (TerminalInfoView { id: id@, shell: shell_text }),
                        SessionRegistry::registers(*old(registry), *final(registry), id@, session)
                    { registry.register(id, shell_path, session) },
            );
            Ok((info, reader))
        },
    }
}

/// Sends `data` to the shell of session `id`.
///
/// `send` is run once on the session's input sink, with exactly `data`, while
/// the lock is held; it writes all of it and flushes. A failure of `send` is
/// reported and leaves the session registered. Without a session `id`,
/// `send` is not run and the reply is `NotFound`.
///
/// The lock is not reentrant: `send` must not call an operation on the same
/// state, or the call never returns.
pub fn terminal_write<W, M, F>(
    state: &TerminalState<W, M>,
    id: String,
    data: Vec<u8>,
    send: F,
) -> (reply: Result<(), TerminalError>) where F: FnOnce(&mut W, &[u8]) -> Result<(), SinkFailure>
    requires
        forall|sink: &mut W, bytes: &[u8]| bytes@ == data@ ==> call_requires(send, (sink, bytes)),
    ensures
        failure_of(reply) == Some(TerminalErrorView::NotFound(id@)) || exists|
            sink: &mut W,
            bytes: &[u8],
            sent: Result<(), SinkFailure>,
        |
            {
                &&& bytes@ == data@
                &&& #[trigger] call_ensures(send, (sink, bytes), sent)
                &&& failure_of(reply) == sink_verdict(sent)
            },
{
    let key = id.as_str();
    let bytes = data.as_slice();
    locked(
        &state.sessions,
        |registry: &mut SessionRegistry<W, M>| -> (reply: Result<(), TerminalError>)
            ensures
                failure_of(reply) == Some(TerminalErrorView::NotFound(id@)) || exists|
                    sink: &mut W,
                    sent: Result<(), SinkFailure>,
                |
                    #[trigger] call_ensures(send, (sink, bytes), sent) && failure_of(reply)
                        == sink_verdict(sent)
            { registry.write(key, bytes, send) },
    )
}

/// Gives the terminal of session `id` the size `cols` by `rows`.
///
/// `apply` is run once on the session's master handle, with that size, while
/// the lock is held. If it fails, its cause is reported as a `Resize`
/// failure and the session stays registered. Without a session `id`, `apply`
/// is not run and the reply is `NotFound`.
///
/// The lock is not reentrant: `apply` must not call an operation on the same
/// state, or the call never returns.
pub fn terminal_resize<W, M, F>(
    state: &TerminalState<W, M>,
    id: String,
    cols: u16,
    rows: u16,
    apply: F,
) -> (reply: Result<(), TerminalError>) where F: FnOnce(&M, TerminalSize) -> Result<(), String>
    requires
        forall|master: &M| call_requires(apply, (master, TerminalSize::of_cells(cols, rows))),
    ensures
        failure_of(reply) == Some(TerminalErrorView::NotFound(id@)) || exists|
            master: &M,
            applied: Result<(), String>,
        |
            {
                &&& #[trigger] call_ensures(
                    apply,
                    (master, TerminalSize::of_cells(cols, rows)),
                    applied,
                )
                &&& failure_of(reply) == resize_verdict(applied)
            },
{
    let key = id.as_str();
    locked(
        &state.sessions,
        |registry: &mut SessionRegistry<W, M>| -> (reply: Result<(), TerminalError>)
            ensures
                failure_of(reply) == Some(TerminalErrorView::NotFound(id@)) || exists|
                    master: &M,
                    applied: Result<(), String>,
                |
                    #[trigger] call_ensures(
                        apply,
                        (master, TerminalSize::of_cells(cols, rows)),
                        applied,
                    ) && failure_of(reply) == resize_verdict(applied)
            { registry.resize(key, cols, rows, apply) },
    )
}

} // verus!
