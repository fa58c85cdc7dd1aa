use flux_ide::compile::build_attempts;
use flux_ide::compile::compiler_candidates;
use flux_ide::compile::output_name;
use flux_ide::compile::output_paths;
use flux_ide::compile::pick_compiler;
use flux_ide::compile::run_build;
use flux_ide::compile::Launch;
use flux_ide::compile::Anchor;
use flux_ide::compile::Candidate;
use flux_ide::compile::CompileResult;
use flux_ide::compile::Invocation;

fn strings(items: &[&str]) -> Vec<String> {
    items.iter().map(|s| s.to_string()).collect()
}

#[test]
fn shipped_compiler_is_looked_for_in_four_places() {
    let place = |anchor, relative: &str| Candidate { anchor, relative: relative.to_string() };
    assert_eq!(
        compiler_candidates(),
        vec![
            place(Anchor::Executable, "../Resources/flux-compiler/src/cli/index.ts"),
            place(Anchor::Executable, "flux-compiler/src/cli/index.ts"),
            place(Anchor::WorkingDirectory, "flux-compiler/src/cli/index.ts"),
            place(Anchor::WorkingDirectory, "../flux-compiler/src/cli/index.ts"),
        ]
    );
}

#[test]
fn shipped_compiler_is_tried_before_the_installed_one() {
    let plan = build_attempts(Some("/app/flux-compiler/src/cli/index.ts"), "main.flux", "dist");
    assert_eq!(
        plan,
        vec![
            Invocation {
                program: "npx".to_string(),
                args: strings(&["tsx", "/app/flux-compiler/src/cli/index.ts", "build", "main.flux", "-o", "dist"]),
            },
            Invocation { program: "flux".to_string(), args: strings(&["build", "main.flux", "-o", "dist"]) },
        ]
    );
}

#[test]
fn without_a_shipped_compiler_only_the_installed_one_is_tried() {
    let plan = build_attempts(None, "src/app.flux", "/tmp/out");
    assert_eq!(
        plan,
        vec![Invocation { program: "flux".to_string(), args: strings(&["build", "src/app.flux", "-o", "/tmp/out"]) }]
    );
}

#[test]
fn outputs_go_by_the_stem_of_the_source() {
    assert_eq!(output_name(Some("main".to_string())), "main");
    assert_eq!(output_name(None), "output");
}

#[test]
fn outputs_are_looked_for_in_the_output_directory() {
    let (html, js, css) = output_paths("dist", "main");
    assert_eq!(html, "dist/main.html");
    assert_eq!(js, "dist/main.js");
    assert_eq!(css, "dist/main.css");
    let (html, _, _) = output_paths("", "");
    assert_eq!(html, "/.html");
}

#[test]
fn a_successful_build_reports_what_was_found() {
    let result = CompileResult::finished(
        true,
        "ok".to_string(),
        String::new(),
        Some("<html>".to_string()),
        None,
        Some("body{}".to_string()),
    );
    assert_eq!(
        result,
        CompileResult {
            success: true,
            stdout: "ok".to_string(),
            stderr: String::new(),
            html: Some("<html>".to_string()),
            js: None,
            css: Some("body{}".to_string()),
        }
    );
}

#[test]
fn a_failed_build_reports_no_outputs() {
    let result = CompileResult::finished(
        false,
        String::new(),
        "syntax error".to_string(),
        Some("stale".to_string()),
        Some("stale".to_string()),
        Some("stale".to_string()),
    );
    assert_eq!(
        result,
        CompileResult {
            success: false,
            stdout: String::new(),
            stderr: "syntax error".to_string(),
            html: None,
            js: None,
            css: None,
        }
    );
}

#[test]
fn a_build_that_could_not_start_says_so() {
    let result = CompileResult::not_started("No such file or directory (os error 2)");
    assert!(!result.success);
    assert_eq!(result.stdout, "");
    assert_eq!(
        result.stderr,
        "Failed to run flux compiler: No such file or directory (os error 2). Make sure flux is installed and in your PATH, or check the bundled compiler."
    );
    assert_eq!((result.html, result.js, result.css), (None, None, None));
}

fn place(anchor: Anchor, relative: &str) -> Candidate {
    Candidate { anchor, relative: relative.to_string() }
}

#[test]
fn the_first_place_that_exists_is_picked() {
    let asked = std::cell::RefCell::new(Vec::new());
    let picked = pick_compiler(true, |candidate: &Candidate| {
        asked.borrow_mut().push(candidate.clone());
        candidate.relative == "flux-compiler/src/cli/index.ts"
    });
    assert_eq!(picked, Some(place(Anchor::Executable, "flux-compiler/src/cli/index.ts")));
    assert_eq!(
        *asked.borrow(),
        vec![
            place(Anchor::Executable, "../Resources/flux-compiler/src/cli/index.ts"),
            place(Anchor::Executable, "flux-compiler/src/cli/index.ts"),
        ]
    );
}

#[test]
fn places_below_the_executable_are_passed_over_when_its_directory_is_unknown() {
    let asked = std::cell::RefCell::new(Vec::new());
    let picked = pick_compiler(false, |candidate: &Candidate| {
        asked.borrow_mut().push(candidate.clone());
        true
    });
    assert_eq!(picked, Some(place(Anchor::WorkingDirectory, "flux-compiler/src/cli/index.ts")));
    assert_eq!(*asked.borrow(), vec![place(Anchor::WorkingDirectory, "flux-compiler/src/cli/index.ts")]);
}

#[test]
fn the_last_place_is_picked_when_only_it_exists() {
    let picked = pick_compiler(true, |candidate: &Candidate| candidate.relative.starts_with("../flux"));
    assert_eq!(picked, Some(place(Anchor::WorkingDirectory, "../flux-compiler/src/cli/index.ts")));
}

#[test]
fn no_place_is_picked_when_none_exists() {
    let count = std::cell::Cell::new(0);
    let picked = pick_compiler(true, |_candidate: &Candidate| {
        count.set(count.get() + 1);
        false
    });
    assert_eq!(picked, None);
    assert_eq!(count.get(), 4);
    assert_eq!(pick_compiler(false, |_candidate: &Candidate| false), None);
}

fn ran(success: bool, stdout: &str, stderr: &str) -> Launch {
    Launch::Ran { success, stdout: stdout.to_string(), stderr: stderr.to_string() }
}

fn all_outputs() -> (Option<String>, Option<String>, Option<String>) {
    (Some("<html>".to_string()), Some("js()".to_string()), None)
}

#[test]
fn the_first_compiler_that_starts_is_the_build() {
    let plan = build_attempts(Some("c.ts"), "main.flux", "dist");
    let tried = std::cell::RefCell::new(Vec::new());
    let result = run_build(
        plan,
        |attempt: &Invocation| {
            tried.borrow_mut().push(attempt.program.clone());
            ran(true, "built", "")
        },
        all_outputs,
    );
    assert_eq!(*tried.borrow(), vec!["npx".to_string()]);
    assert_eq!(
        result,
        CompileResult {
            success: true,
            stdout: "built".to_string(),
            stderr: String::new(),
            html: Some("<html>".to_string()),
            js: Some("js()".to_string()),
            css: None,
        }
    );
}

#[test]
fn a_compiler_that_starts_and_fails_is_still_the_build() {
    let plan = build_attempts(Some("c.ts"), "main.flux", "dist");
    let tried = std::cell::Cell::new(0);
    let read = std::cell::Cell::new(false);
    let result = run_build(
        plan,
        |_attempt: &Invocation| {
            tried.set(tried.get() + 1);
            ran(false, "", "syntax error")
        },
        || {
            read.set(true);
            all_outputs()
        },
    );
    assert_eq!(tried.get(), 1);
    assert!(!read.get());
    assert_eq!(
        result,
        CompileResult {
            success: false,
            stdout: String::new(),
            stderr: "syntax error".to_string(),
            html: None,
            js: None,
            css: None,
        }
    );
}

#[test]
fn the_installed_compiler_is_tried_when_the_shipped_one_does_not_start() {
    let plan = build_attempts(Some("c.ts"), "main.flux", "dist");
    let tried = std::cell::RefCell::new(Vec::new());
    let result = run_build(
        plan,
        |attempt: &Invocation| {
            tried.borrow_mut().push(attempt.program.clone());
            if attempt.program == "npx" {
                Launch::NotStarted("npx: not found".to_string())
            } else {
                ran(true, "ok", "warn")
            }
        },
        all_outputs,
    );
    assert_eq!(*tried.borrow(), vec!["npx".to_string(), "flux".to_string()]);
    assert!(result.success);
    assert_eq!(result.stdout, "ok");
    assert_eq!(result.stderr, "warn");
    assert_eq!(result.html, Some("<html>".to_string()));
}

#[test]
fn the_cause_of_the_last_attempt_is_reported_when_nothing_starts() {
    let plan = build_attempts(Some("c.ts"), "main.flux", "dist");
    let read = std::cell::Cell::new(false);
    let result = run_build(
        plan,
        |attempt: &Invocation| Launch::NotStarted(format!("{}: not found", attempt.program)),
        || {
            read.set(true);
            all_outputs()
        },
    );
    assert!(!read.get());
    assert_eq!(result, CompileResult::not_started("flux: not found"));
    assert_eq!(
        result.stderr,
        "Failed to run flux compiler: flux: not found. Make sure flux is installed and in your PATH, or check the bundled compiler."
    );
}

#[test]
fn an_empty_plan_reports_that_nothing_started() {
    let result = run_build(Vec::new(), |_attempt: &Invocation| ran(true, "", ""), all_outputs);
    assert_eq!(result, CompileResult::not_started(""));
}
