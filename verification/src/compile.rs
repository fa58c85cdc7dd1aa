//! Building a Flux source file: which compiler is tried, with which
//! arguments, where the outputs are looked for, and how the outcome is
//! reported. Running the compiler and reading its outputs is the host's
//! part.
use vstd::prelude::*;
use vstd::string::*;
use crate::text::text_of_str;
use crate::text::texts;

verus! {

/// What a build gave: whether the compiler succeeded, what it printed, and
/// the three outputs where it succeeded and they were found.
#[derive(Debug, Clone, PartialEq, Eq)]
pub struct CompileResult {
    pub success: bool,
    pub stdout: String,
    pub stderr: String,
    pub html: Option<String>,
    pub js: Option<String>,
    pub css: Option<String>,
}

/// A program to run and the arguments to run it with.
#[derive(Debug, Clone, PartialEq, Eq)]
pub struct Invocation {
    pub program: String,
    pub args: Vec<String>,
}

/// Where the compiler that ships with the application is looked for.
#[derive(Debug, Clone, Copy, PartialEq, Eq)]
pub enum Anchor {
    /// Below the directory of the running executable.
    Executable,
    /// Below the working directory.
    WorkingDirectory,
}

/// A place where the shipped compiler may lie: a path below an anchor.
#[derive(Debug, Clone, PartialEq, Eq)]
pub struct Candidate {
    pub anchor: Anchor,
    pub relative: String,
}

/// The places of the shipped compiler, in the order in which they are
/// tried: inside an application bundle, beside the executable, below the
/// working directory, and beside the working directory.
pub open spec fn candidate_places() -> Seq<(Anchor, Seq<char>)> {
    seq![
        (Anchor::Executable, "../Resources/flux-compiler/src/cli/index.ts"@),
        (Anchor::Executable, "flux-compiler/src/cli/index.ts"@),
        (Anchor::WorkingDirectory, "flux-compiler/src/cli/index.ts"@),
        (Anchor::WorkingDirectory, "../flux-compiler/src/cli/index.ts"@),
    ]
}

/// The places of the shipped compiler, in the order in which they are tried;
/// the first that exists is the compiler.
pub fn compiler_candidates() -> (places: Vec<Candidate>)
    ensures
        places@.len() == candidate_places().len(),
        forall|i: int|
            0 <= i < places@.len() ==> (#[trigger] places@[i]).anchor == candidate_places()[i].0
                && places@[i].relative@ == candidate_places()[i].1,
{
    let mut places: Vec<Candidate> = Vec::new();
    places.push(
        Candidate {
            anchor: Anchor::Executable,
            relative: "../Resources/flux-compiler/src/cli/index.ts".to_owned(),
        },
    );
    places.push(
        Candidate {
            anchor: Anchor::Executable,
            relative: "flux-compiler/src/cli/index.ts".to_owned(),
        },
    );
    places.push(
        Candidate {
            anchor: Anchor::WorkingDirectory,
            relative: "flux-compiler/src/cli/index.ts".to_owned(),
        },
    );
    places.push(
        Candidate {
            anchor: Anchor::WorkingDirectory,
            relative: "../flux-compiler/src/cli/index.ts".to_owned(),
        },
    );
    places
}

/// How the shipped compiler at `compiler` is run on `file_path`.
pub open spec fn shipped_command(
    compiler: Seq<char>,
    file_path: Seq<char>,
    output_dir: Seq<char>,
) -> (Seq<char>, Seq<Seq<char>>) {
    ("npx"@, seq!["tsx"@, compiler, "build"@, file_path, "-o"@, output_dir])
}

/// How the compiler installed on the system is run on `file_path`.
pub open spec fn system_command(file_path: Seq<char>, output_dir: Seq<char>) -> (
    Seq<char>,
    Seq<Seq<char>>,
) {
    ("flux"@, seq!["build"@, file_path, "-o"@, output_dir])
}

/// The compilers to try, in order: the shipped one if it was found, then
/// the one installed on the system.
pub open spec fn attempts(
    compiler: Option<Seq<char>>,
    file_path: Seq<char>,
    output_dir: Seq<char>,
) -> Seq<(Seq<char>, Seq<Seq<char>>)> {
    match compiler {
        Some(path) => seq![
            shipped_command(path, file_path, output_dir),
            system_command(file_path, output_dir),
        ],
        None => seq![system_command(file_path, output_dir)],
    }
}

impl Invocation {
    /// The program and its arguments as texts.
    pub open spec fn command(self) -> (Seq<char>, Seq<Seq<char>>) {
        (self.program@, texts(self.args@))
    }
}

fn invocation_of(program: &str, args: Vec<String>) -> (invocation: Invocation)
    ensures
        invocation.command() == (program@, texts(args@)),
{
    Invocation { program: program.to_owned(), args }
}

/// The compilers to try on `file_path`, in order: the shipped one if it was
/// found at `compiler`, then the one installed on the system. The build is
/// the first of them that can be started.
pub fn build_attempts(compiler: Option<&str>, file_path: &str, output_dir: &str) -> (plan: Vec<
    Invocation,
>)
    ensures
        plan@.len() == attempts(text_of_str(compiler), file_path@, output_dir@).len(),
        forall|i: int|
            0 <= i < plan@.len() ==> (#[trigger] plan@[i]).command() == attempts(
                text_of_str(compiler),
                file_path@,
                output_dir@,
            )[i],
{
    let mut plan: Vec<Invocation> = Vec::new();
    match compiler {
        Some(path) => {
            let mut args: Vec<String> = Vec::new();
            args.push("tsx".to_owned());
            args.push(path.to_owned());
            args.push("build".to_owned());
            args.push(file_path.to_owned());
            args.push("-o".to_owned());
            args.push(output_dir.to_owned());
            assert(texts(args@) =~= seq!["tsx"@, path@, "build"@, file_path@, "-o"@, output_dir@]);
            plan.push(invocation_of("npx", args));
        },
        None => {},
    }
    let mut args: Vec<String> = Vec::new();
    args.push("build".to_owned());
    args.push(file_path.to_owned());
    args.push("-o".to_owned());
    args.push(output_dir.to_owned());
    assert(texts(args@) =~= seq!["build"@, file_path@, "-o"@, output_dir@]);
    plan.push(invocation_of("flux", args));
    plan
}

/// The name the outputs of a build go by: the stem of the source file's
/// name, or `output` where it has none.
pub fn output_name(stem: Option<String>) -> (name: String)
    ensures
        name@ == match stem {
            Some(text) => text@,
            None => "output"@,
        },
{
    match stem {
        Some(text) => text,
        None => "output".to_owned(),
    }
}

/// The path of the output with the given extension.
pub open spec fn output_path(output_dir: Seq<char>, name: Seq<char>, extension: Seq<char>) -> Seq<
    char,
> {
    output_dir + "/"@ + name + "."@ + extension
}

fn path_of(output_dir: &str, name: &str, extension: &str) -> (path: String)
    ensures
        path@ == output_path(output_dir@, name@, extension@),
{
    String::from_str(output_dir).concat("/").concat(name).concat(".").concat(extension)
}

/// Where the outputs of a build are looked for: the page, the script and
/// the style sheet, in that order.
pub fn output_paths(output_dir: &str, name: &str) -> (paths: (String, String, String))
    ensures
        paths.0@ == output_path(output_dir@, name@, "html"@),
        paths.1@ == output_path(output_dir@, name@, "js"@),
        paths.2@ == output_path(output_dir@, name@, "css"@),
{
    (path_of(output_dir, name, "html"), path_of(output_dir, name, "js"), path_of(output_dir, name, "css"))
}

impl CompileResult {
    /// The report of a compiler that ran: what it printed, and the outputs
    /// that were found if it succeeded. The outputs of a compiler that
    /// failed are not reported.
    pub fn finished(
        success: bool,
        stdout: String,
        stderr: String,
        html: Option<String>,
        js: Option<String>,
        css: Option<String>,
    ) -> (result: CompileResult)
        ensures
            result.success == success,
            result.stdout == stdout,
            result.stderr == stderr,
            result.html == if success { html } else { None },
            result.js == if success { js } else { None },
            result.css == if success { css } else { None },
    {
        if success {
            CompileResult { success, stdout, stderr, html, js, css }
        } else {
            CompileResult { success, stdout, stderr, html: None, js: None, css: None }
        }
    }

    /// The report of a build for which no compiler could be started.
    pub fn not_started(cause: &str) -> (result: CompileResult)
        ensures
            !result.success,
            result.stdout@ == Seq::<char>::empty(),
            result.stderr@ == "Failed to run flux compiler: "@ + cause@
                + ". Make sure flux is installed and in your PATH, or check the bundled compiler."@,
            result.html is None,
            result.js is None,
            result.css is None,
    {
        let stderr = String::from_str("Failed to run flux compiler: ").concat(cause).concat(
            ". Make sure flux is installed and in your PATH, or check the bundled compiler.",
        );
        CompileResult { success: false, stdout: String::new(), stderr, html: None, js: None, css: None }
    }
}

/// Whether a place is looked at: those below the executable only when the
/// directory of the executable is known.
pub open spec fn is_eligible(anchor: Anchor, has_executable_dir: bool) -> bool {
    anchor is WorkingDirectory || has_executable_dir
}

/// Whether `places` are the places of the shipped compiler, in their order.
pub open spec fn are_candidate_places(places: Seq<Candidate>) -> bool {
    &&& places.len() == candidate_places().len()
    &&& forall|i: int|
        0 <= i < places.len() ==> (#[trigger] places[i]).anchor == candidate_places()[i].0
            && places[i].relative@ == candidate_places()[i].1
}

/// Picks the place of the shipped compiler: the first of the candidate
/// places, in their order, of which `lies_at` says that the compiler lies
/// there. Places below the executable are passed over when the directory of
/// the executable is not known. `lies_at` is asked about no place behind the
/// one picked.
pub fn pick_compiler<F: Fn(&Candidate) -> bool>(has_executable_dir: bool, lies_at: F) -> (picked:
    Option<Candidate>)
    requires
        forall|place: &Candidate| call_requires(lies_at, (place,)),
    ensures
        exists|places: Seq<Candidate>|
            {
                &&& are_candidate_places(places)
                &&& match picked {
                    Some(place) => exists|k: int|
                        {
                            &&& 0 <= k < places.len()
                            &&& place == #[trigger] places[k]
                            &&& is_eligible(place.anchor, has_executable_dir)
                            &&& call_ensures(lies_at, (&place,), true)
                            &&& forall|j: int|
                                0 <= j < k && is_eligible(
                                    (#[trigger] places[j]).anchor,
                                    has_executable_dir,
                                ) ==> call_ensures(lies_at, (&places[j],), false)
                        },
                    None => forall|j: int|
                        0 <= j < places.len() && is_eligible(
                            (#[trigger] places[j]).anchor,
                            has_executable_dir,
                        ) ==> call_ensures(lies_at, (&places[j],), false),
                }
            },
{
    let mut places = compiler_candidates();
    let ghost all = places@;
    let mut i: usize = 0;
    while i < places.len()
        invariant
            places@ == all,
            are_candidate_places(all),
            i <= all.len(),
            forall|place: &Candidate| call_requires(lies_at, (place,)),
            forall|j: int|
                0 <= j < i && is_eligible((#[trigger] all[j]).anchor, has_executable_dir)
                    ==> call_ensures(lies_at, (&all[j],), false),
        decreases all.len() - i,
    {
        let eligible = match places[i].anchor {
            Anchor::Executable => has_executable_dir,
            Anchor::WorkingDirectory => true,
        };
        if eligible {
            let found = lies_at(&places[i]);
            if found {
                let place = places.swap_remove(i);
                proof {
                    assert(place == all[i as int]);
                    assert(call_ensures(lies_at, (&place,), true));
                    assert(are_candidate_places(all));
                }
                return Some(place);
            }
        }
        i += 1;
    }
    proof {
        assert(are_candidate_places(all));
    }
    None
}

/// How an attempt to start a compiler ended.
#[derive(Debug)]
pub enum Launch {
    /// The compiler ran to its end, with or without success.
    Ran { success: bool, stdout: String, stderr: String },
    /// The compiler could not be started; the cause as the operating system
    /// worded it.
    NotStarted(String),
}

/// `result` reports a compiler that ran: what it printed, and `found` as its
/// outputs if it succeeded.
pub open spec fn reports_run(
    result: CompileResult,
    success: bool,
    stdout: String,
    stderr: String,
    found: (Option<String>, Option<String>, Option<String>),
) -> bool {
    &&& result.success == success
    &&& result.stdout == stdout
    &&& result.stderr == stderr
    &&& result.html == if success { found.0 } else { None }
    &&& result.js == if success { found.1 } else { None }
    &&& result.css == if success { found.2 } else { None }
}

/// `result` reports that no compiler could be started, for `cause`.
pub open spec fn reports_no_start(result: CompileResult, cause: Seq<char>) -> bool {
    &&& !result.success
    &&& result.stdout@ == Seq::<char>::empty()
    &&& result.stderr@ == "Failed to run flux compiler: "@ + cause
        + ". Make sure flux is installed and in your PATH, or check the bundled compiler."@
    &&& result.html is None
    &&& result.js is None
    &&& result.css is None
}

/// What a build reports after `launches`, the attempts made in order: the
/// run, if the last attempt ran; else that nothing could be started, for
/// the cause of the last attempt.
pub open spec fn settles<G: FnOnce() -> (Option<String>, Option<String>, Option<String>)>(
    launches: Seq<Launch>,
    outputs: G,
    result: CompileResult,
) -> bool {
    if launches.len() == 0 {
        reports_no_start(result, Seq::empty())
    } else {
        match launches.last() {
            Launch::Ran { success, stdout, stderr } => exists|
                found: (Option<String>, Option<String>, Option<String>),
            |
                (success ==> call_ensures(outputs, (), found)) && #[trigger] reports_run(
                    result,
                    success,
                    stdout,
                    stderr,
                    found,
                ),
            Launch::NotStarted(cause) => reports_no_start(result, cause@),
        }
    }
}

/// Builds by the plan: tries its compilers in order with `launch`, and
/// takes the first that can be started as the build, whether it then
/// succeeds or fails; no later compiler is tried. If that compiler
/// succeeded, `outputs` is run once to read what it left. If none can be
/// started, the report says so, with the cause of the last attempt.
pub fn run_build<F, G>(plan: Vec<Invocation>, launch: F, outputs: G) -> (result: CompileResult) where
    F: Fn(&Invocation) -> Launch,
    G: FnOnce() -> (Option<String>, Option<String>, Option<String>),

    requires
        forall|k: int| 0 <= k < plan@.len() ==> call_requires(launch, (&#[trigger] plan@[k],)),
        call_requires(outputs, ()),
    ensures
        exists|launches: Seq<Launch>|
            {
                &&& launches.len() <= plan@.len()
                &&& forall|k: int|
                    0 <= k < launches.len() ==> call_ensures(
                        launch,
                        (&plan@[k],),
                        #[trigger] launches[k],
                    )
                &&& forall|k: int|
                    0 <= k < launches.len() - 1 ==> (#[trigger] launches[k]) is NotStarted
                &&& launches.len() < plan@.len() ==> launches.len() > 0 && launches.last() is Ran
                &&& settles(launches, outputs, result)
            },
{
    let mut cause = String::new();
    let ghost mut launches: Seq<Launch> = Seq::empty();
    let mut i: usize = 0;
    while i < plan.len()
        invariant
            i <= plan@.len(),
            launches.len() == i,
            forall|k: int| 0 <= k < plan@.len() ==> call_requires(launch, (&#[trigger] plan@[k],)),
            call_requires(outputs, ()),
            forall|k: int|
                0 <= k < i ==> call_ensures(launch, (&plan@[k],), #[trigger] launches[k])
                    && launches[k] is NotStarted,
            i == 0 ==> cause@ == Seq::<char>::empty(),
            i > 0 ==> launches.last() == Launch::NotStarted(cause),
        decreases plan@.len() - i,
    {
        let launched = launch(&plan[i]);
        proof {
            launches = launches.push(launched);
        }
        match launched {
            Launch::Ran { success, stdout, stderr } => {
                let found = if success {
                    outputs()
                } else {
                    (None, None, None)
                };
                let result = CompileResult::finished(success, stdout, stderr, found.0, found.1, found.2);
                proof {
                    assert(reports_run(result, success, stdout, stderr, found));
                    assert(settles(launches, outputs, result));
                }
                return result;
            },
            Launch::NotStarted(why) => {
                cause = why;
            },
        }
        i += 1;
    }
    let result = CompileResult::not_started(cause.as_str());
    proof {
        assert(settles(launches, outputs, result));
    }
    result
}

} // verus!
