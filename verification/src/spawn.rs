//! How a shell session is started: which shell, in which directory, with
//! which environment, at which size, and under which id.
use vstd::prelude::*;
use portable_pty::CommandBuilder;
use crate::command::command_argv;
use crate::command::command_cwd;
use crate::command::command_overrides;
use crate::command::is_portable_name;
use crate::command::new_command;
use crate::command::nothing_set;
use crate::command::set_cwd;
use crate::command::set_env;
use crate::text::text_of;

verus! {

/// The size of a terminal, in character cells and in pixels.
#[derive(Clone, Copy, Debug, PartialEq, Eq, Structural)]
pub struct TerminalSize {
    pub rows: u16,
    pub cols: u16,
    pub pixel_width: u16,
    pub pixel_height: u16,
}

impl TerminalSize {
    /// A size given in cells alone; the pixel measures are zero.
    pub open spec fn of_cells(cols: u16, rows: u16) -> TerminalSize {
        TerminalSize { rows, cols, pixel_width: 0, pixel_height: 0 }
    }

    /// The size every session starts with: 80 columns by 24 rows.
    pub open spec fn initial_size() -> TerminalSize {
        TerminalSize::of_cells(80, 24)
    }

    /// A size given in cells alone; the pixel measures are zero.
    pub fn cells(cols: u16, rows: u16) -> (size: TerminalSize)
        ensures
            size == TerminalSize::of_cells(cols, rows),
    {
        TerminalSize { rows, cols, pixel_width: 0, pixel_height: 0 }
    }

    /// The size every session starts with: 80 columns by 24 rows.
    pub fn initial() -> (size: TerminalSize)
        ensures
            size == TerminalSize::initial_size(),
    {
        TerminalSize::cells(80, 24)
    }
}

/// The variables of the host's own environment that matter to a session,
/// each `None` where the host has none.
#[derive(Debug, Clone, PartialEq, Eq)]
pub struct HostEnvironment {
    /// `SHELL`
    pub shell: Option<String>,
    /// `LANG`
    pub lang: Option<String>,
    /// `PATH`
    pub path: Option<String>,
    /// `HOME`
    pub home: Option<String>,
    /// `USER`
    pub user: Option<String>,
}

pub struct HostEnvironmentView {
    pub shell: Option<Seq<char>>,
    pub lang: Option<Seq<char>>,
    pub path: Option<Seq<char>>,
    pub home: Option<Seq<char>>,
    pub user: Option<Seq<char>>,
}

impl View for HostEnvironment {
    type V = HostEnvironmentView;

    open spec fn view(&self) -> HostEnvironmentView {
        HostEnvironmentView {
            shell: text_of(self.shell),
            lang: text_of(self.lang),
            path: text_of(self.path),
            home: text_of(self.home),
            user: text_of(self.user),
        }
    }
}

/// The shell a session runs: the one asked for, else the host's `SHELL`,
/// else `/bin/bash`.
pub open spec fn resolved_shell(asked: Option<Seq<char>>, inherited: Option<Seq<char>>) -> Seq<
    char,
> {
    match asked {
        Some(shell) => shell,
        None => match inherited {
            Some(shell) => shell,
            None => "/bin/bash"@,
        },
    }
}

/// `map` with `name` set to `value`, if there is a value.
pub open spec fn with_variable(
    map: Map<Seq<char>, Seq<char>>,
    name: Seq<char>,
    value: Option<Seq<char>>,
) -> Map<Seq<char>, Seq<char>> {
    match value {
        Some(text) => map.insert(name, text),
        None => map,
    }
}

/// The variables a shell is started with on top of what it inherits: `TERM`
/// and `COLORTERM` are fixed; `LANG` is the host's, or a UTF-8 locale where
/// the host has none; `PATH`, `HOME` and `USER` are the host's where it has
/// them and are not set where it has not.
pub open spec fn child_overrides(host: HostEnvironmentView) -> Map<Seq<char>, Seq<char>> {
    let lang = match host.lang {
        Some(text) => text,
        None => "en_US.UTF-8"@,
    };
    let fixed = nothing_set().insert("TERM"@, "xterm-256color"@).insert(
        "COLORTERM"@,
        "truecolor"@,
    ).insert("LANG"@, lang);
    with_variable(
        with_variable(with_variable(fixed, "PATH"@, host.path), "HOME"@, host.home),
        "USER"@,
        host.user,
    )
}

/// Whether `command` starts `shell` in `cwd` with the variables that
/// `child_overrides` gives for `host`.
pub open spec fn starts_shell(
    command: CommandBuilder,
    shell: Seq<char>,
    cwd: Option<Seq<char>>,
    host: HostEnvironmentView,
) -> bool {
    &&& command_argv(command) == seq![shell]
    &&& command_cwd(command) == cwd
    &&& command_overrides(command) == child_overrides(host)
}

/// The shell a session runs: the one asked for, else the host's `SHELL`,
/// else `/bin/bash`.
pub fn resolve_shell(asked: Option<String>, inherited: &Option<String>) -> (shell: String)
    ensures
        shell@ == resolved_shell(text_of(asked), text_of(*inherited)),
{
    match asked {
        Some(shell) => shell,
        None => match inherited {
            Some(shell) => shell.clone(),
            None => "/bin/bash".to_owned(),
        },
    }
}

proof fn lemma_names_are_portable()
    ensures
        is_portable_name("TERM"@),
        is_portable_name("COLORTERM"@),
        is_portable_name("LANG"@),
        is_portable_name("PATH"@),
        is_portable_name("HOME"@),
        is_portable_name("USER"@),
{
    reveal_strlit("TERM");
    reveal_strlit("COLORTERM");
    reveal_strlit("LANG");
    reveal_strlit("PATH");
    reveal_strlit("HOME");
    reveal_strlit("USER");
}

/// Sets `name` on `command` if the host has a value for it.
fn inherit(command: &mut CommandBuilder, name: &str, value: &Option<String>)
    requires
        is_portable_name(name@),
        forall|other: Seq<char>| #[trigger]
            command_overrides(*old(command)).contains_key(other) ==> is_portable_name(other),
    ensures
        command_overrides(*final(command)) == with_variable(
            command_overrides(*old(command)),
            name@,
            text_of(*value),
        ),
        command_argv(*final(command)) == command_argv(*old(command)),
        command_cwd(*final(command)) == command_cwd(*old(command)),
        forall|other: Seq<char>| #[trigger]
            command_overrides(*final(command)).contains_key(other) ==> is_portable_name(other),
{
    match value {
        Some(text) => set_env(command, name, text.as_str()),
        None => {},
    }
}

/// The command that starts `shell` for a session: in `cwd` if one is given,
/// with `TERM=xterm-256color`, `COLORTERM=truecolor`, the host's `LANG` or
/// `en_US.UTF-8`, and the host's `PATH`, `HOME` and `USER` where it has them.
pub fn shell_command(shell: &str, cwd: &Option<String>, host: &HostEnvironment) -> (command:
    CommandBuilder)
    ensures
        starts_shell(command, shell@, text_of(*cwd), host@),
{
    proof {
        lemma_names_are_portable();
    }
    let mut command = new_command(shell);
    match cwd {
        Some(dir) => set_cwd(&mut command, dir.as_str()),
        None => {},
    }
    set_env(&mut command, "TERM", "xterm-256color");
    set_env(&mut command, "COLORTERM", "truecolor");
    match &host.lang {
        Some(lang) => set_env(&mut command, "LANG", lang.as_str()),
        None => set_env(&mut command, "LANG", "en_US.UTF-8"),
    }
    inherit(&mut command, "PATH", &host.path);
    inherit(&mut command, "HOME", &host.home);
    inherit(&mut command, "USER", &host.user);
    command
}

/// A digit or one of the letters `a` to `f`.
pub open spec fn is_lower_hex(c: char) -> bool {
    ('0' <= c && c <= '9') || ('a' <= c && c <= 'f')
}

/// The form of a session id: a random UUID written with hyphens, as in
/// `67e55044-10b1-426f-9247-bb680e5fe0c8`. It has 36 characters, hyphens
/// in four fixed places and lower-case hexadecimal digits elsewhere; the
/// digit after the second hyphen is `4`, the one after the third is `8`, `9`,
/// `a` or `b`.
pub open spec fn is_session_id(text: Seq<char>) -> bool {
    &&& text.len() == 36
    &&& forall|i: int|
        0 <= i < 36 ==> if i == 8 || i == 13 || i == 18 || i == 23 {
            #[trigger] text[i] == '-'
        } else {
            is_lower_hex(text[i])
        }
    &&& text[14] == '4'
    &&& (text[19] == '8' || text[19] == '9' || text[19] == 'a' || text[19] == 'b')
}

/// `uuid::Uuid::new_v4`, written out by the `Display` of `Uuid`: a new random
/// id. Which id comes is up to the random source; its form is fixed.
#[verifier::external_body]
pub(crate) fn fresh_session_id() -> (id: String)
    ensures
        is_session_id(id@),
{
    uuid::Uuid::new_v4().to_string()
}

} // verus!
