//! The command that starts a shell, as `portable_pty::CommandBuilder` holds
//! it. Verus does not look inside a builder: the three functions below name
//! what one holds, and the contracts of the calls into `portable_pty` say how
//! each call changes it.
use vstd::prelude::*;
use portable_pty::CommandBuilder;

verus! {

/// `portable_pty::CommandBuilder`.
#[verifier::external_type_specification]
#[verifier::external_body]
pub struct ExCommandBuilder(portable_pty::CommandBuilder);

/// The program and its arguments: what `CommandBuilder::get_argv` returns.
pub uninterp spec fn command_argv(command: CommandBuilder) -> Seq<Seq<char>>;

/// The working directory, if one was set: what `CommandBuilder::get_cwd`
/// returns.
pub uninterp spec fn command_cwd(command: CommandBuilder) -> Option<Seq<char>>;

/// The variables that were set on the builder, each under the name it was
/// set with: what `CommandBuilder::iter_extra_env_as_str` goes through. The
/// variables a builder inherits from the process are not among them.
pub uninterp spec fn command_overrides(command: CommandBuilder) -> Map<Seq<char>, Seq<char>>;

/// No variable at all.
pub open spec fn nothing_set() -> Map<Seq<char>, Seq<char>> {
    Map::empty()
}

/// Names made of upper-case letters, digits and underscores. Two of them are
/// the same variable only if they are equal, also where the platform takes
/// no account of case.
pub open spec fn is_portable_name(name: Seq<char>) -> bool {
    forall|i: int|
        0 <= i < name.len() ==> {
            let c = #[trigger] name[i];
            ('A' <= c && c <= 'Z') || ('0' <= c && c <= '9') || c == '_'
        }
}

/// `CommandBuilder::new`: a builder that runs `program` without arguments,
/// in the directory of the process, with nothing set on top of the
/// environment it inherits.
#[verifier::external_body]
pub(crate) fn new_command(program: &str) -> (command: CommandBuilder)
    ensures
        command_argv(command) == seq![program@],
        command_cwd(command) is None,
        command_overrides(command) == nothing_set(),
{
    CommandBuilder::new(program)
}

/// `CommandBuilder::cwd`: sets the working directory and nothing else.
#[verifier::external_body]
pub(crate) fn set_cwd(command: &mut CommandBuilder, dir: &str)
    ensures
        command_cwd(*final(command)) == Some(dir@),
        command_argv(*final(command)) == command_argv(*old(command)),
        command_overrides(*final(command)) == command_overrides(*old(command)),
{
    command.cwd(dir)
}

/// `CommandBuilder::env`: sets one variable, in place of an earlier value of
/// the same variable, and nothing else. The names are held to
/// `is_portable_name` because on a platform that ignores case the builder
/// files a variable under its lower-case name.
#[verifier::external_body]
pub(crate) fn set_env(command: &mut CommandBuilder, name: &str, value: &str)
    requires
        is_portable_name(name@),
        forall|other: Seq<char>| #[trigger]
            command_overrides(*old(command)).contains_key(other) ==> is_portable_name(other),
    ensures
        command_overrides(*final(command)) == command_overrides(*old(command)).insert(
            name@,
            value@,
        ),
        command_argv(*final(command)) == command_argv(*old(command)),
        command_cwd(*final(command)) == command_cwd(*old(command)),
{
    command.env(name, value)
}

} // verus!
