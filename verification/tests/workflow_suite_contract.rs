//! Contract tests that each pull request runs the test suite once.
//!
//! The coverage step in `ci.yml`'s `build-test` job runs the tests, but not
//! the doctests, which `build-test` runs in a step of its own. These tests
//! read the workflow textually and hold the split:
//!
//! - no workflow line runs the suite, in any spelling of `make test`,
//!   `make all`, `cargo test`, `cargo nextest` or `cargo llvm-cov`, options
//!   before the subcommand included, except the one doctest step;
//! - that doctest step is in `build-test`, and neither the job nor the step
//!   carries an `if:`;
//! - `build-test` runs the coverage action in one unguarded step, and no
//!   workflow turns on its doctests.
//!
//! The workflow under test is held here as text.

use rentaneko::{
    chars_contain, chars_of, chars_start_with, chars_trim, command_text, job_header,
    job_is_conditional, jobs, run_command, runs_suite, segments, split_lines,
    step_is_conditional, steps, suite_job, suite_runs, Workflow, SUITE_JOB,
};

/// The one suite command a workflow may run outside the coverage step.
const DOCTEST_COMMAND: &str = "cargo test --doc --workspace --all-features";

/// The coverage action every pull request's suite run goes through.
const COVERAGE_ACTION: &str = "leynos/shared-actions/.github/actions/generate-coverage@";

/// The continuous-integration workflow.
const CI_WORKFLOW: &str = "name: CI

on:
  pull_request:
    branches: [main]

jobs:
  build-test:
    runs-on: ubuntu-latest
    permissions:
      contents: read
    steps:
      - uses: actions/checkout@v4
      - name: Setup Rust
        uses: leynos/shared-actions/.github/actions/setup-rust@v1
      - name: Format
        run: make check-fmt
      - name: Markdown lint
        run: make markdownlint
      - name: Audit
        run: make audit
      - name: Lint
        run: make lint
      - name: Test and Measure Coverage
        uses: leynos/shared-actions/.github/actions/generate-coverage@v1
        with:
          output-path: lcov.info
          format: lcov
      # The coverage run leaves the doctests to the next step.
      - name: Doctests
        run: cargo test --doc --workspace --all-features
";

fn workflows() -> Vec<Workflow> {
    vec![Workflow::new("ci.yml", CI_WORKFLOW)]
}

fn text(chars: &[char]) -> String {
    chars.iter().collect()
}

fn suite_line(line: &str) -> bool {
    runs_suite(&chars_of(line))
}

#[test]
fn only_the_doctest_step_runs_the_suite_outside_coverage() {
    let found = workflows();
    let (doctests, repeated): (Vec<_>, Vec<_>) = suite_runs(&found).into_iter().partition(|run| {
        text(&run.command) == DOCTEST_COMMAND
            && text(&run.workflow) == "ci.yml"
            && text(&run.job) == SUITE_JOB
    });
    assert!(repeated.is_empty(), "the suite runs outside coverage in {repeated:?}");
    assert_eq!(doctests.len(), 1, "`{DOCTEST_COMMAND}` must run once, in {SUITE_JOB}");
}

#[test]
fn build_test_runs_the_doctests_unconditionally() {
    let found = workflows();
    let job = suite_job(&found);
    assert!(!job.is_empty(), "ci.yml must define {SUITE_JOB}");
    assert!(!job_is_conditional(&job), "{SUITE_JOB} must run on every pull request");
    let doctest_steps: Vec<Vec<Vec<char>>> = steps(&job)
        .into_iter()
        .filter(|step| {
            step.iter()
                .any(|line| run_command(line).map(|command| text(&command)).as_deref() == Some(DOCTEST_COMMAND))
        })
        .collect();
    assert_eq!(doctest_steps.len(), 1, "{SUITE_JOB} must run the doctests in one step");
    assert!(
        !doctest_steps.iter().any(|step| step_is_conditional(step)),
        "the doctest step must run on every event"
    );
}

#[test]
fn build_test_runs_coverage_unconditionally() {
    let found = workflows();
    let job = suite_job(&found);
    let action = chars_of(COVERAGE_ACTION);
    let coverage_steps: Vec<Vec<Vec<char>>> = steps(&job)
        .into_iter()
        .filter(|step| step.iter().any(|line| chars_contain(line, &action)))
        .collect();
    assert_eq!(coverage_steps.len(), 1, "{SUITE_JOB} must run the coverage action once");
    assert!(
        !coverage_steps.iter().any(|step| step_is_conditional(step)),
        "the coverage step must run on every event"
    );
}

#[test]
fn coverage_leaves_the_doctests_off() {
    let found = workflows();
    let key = chars_of("doctests:");
    let enabled = chars_of("true");
    let enabling: Vec<String> = found
        .iter()
        .filter(|workflow| {
            split_lines(&workflow.text).iter().any(|raw| {
                let line = chars_trim(raw);
                chars_start_with(&line, &key) && chars_contain(&line, &enabled)
            })
        })
        .map(|workflow| text(&workflow.name))
        .collect();
    assert!(enabling.is_empty(), "coverage would repeat the doctests in {enabling:?}");
}

#[test]
fn suite_spelling_plain() {
    assert!(suite_line("make test"));
}

#[test]
fn suite_spelling_act_flag() {
    assert!(suite_line("make test WITH_ACT=1"));
}

#[test]
fn suite_spelling_make_option() {
    assert!(suite_line("make -j2 test"));
}

#[test]
fn suite_spelling_make_directory() {
    assert!(suite_line("make -C . test"));
}

#[test]
fn suite_spelling_make_all() {
    assert!(suite_line("make all"));
}

#[test]
fn suite_spelling_cargo() {
    assert!(suite_line("cargo test --all-features"));
}

#[test]
fn suite_spelling_cargo_config() {
    assert!(suite_line("cargo --config tools/dev-fast/config.toml test"));
}

#[test]
fn suite_spelling_cargo_toolchain() {
    assert!(suite_line("cargo +nightly test"));
}

#[test]
fn suite_spelling_nextest() {
    assert!(suite_line("cargo nextest run --all-targets"));
}

#[test]
fn suite_spelling_llvm_cov() {
    assert!(suite_line("cargo llvm-cov nextest --lcov"));
}

#[test]
fn suite_spelling_chained() {
    assert!(suite_line("set -eu && make test"));
}

#[test]
fn suite_spelling_named_target() {
    assert!(!suite_line("make test-workflow-contracts"));
}

#[test]
fn suite_spelling_lint() {
    assert!(!suite_line("make lint"));
}

#[test]
fn suite_spelling_build() {
    assert!(!suite_line("cargo build --all-targets"));
}

#[test]
fn suite_spelling_run_argument() {
    assert!(!suite_line("cargo run -- test"));
}

#[test]
fn suite_spelling_by_path_and_after_semicolon() {
    assert!(suite_line("/usr/bin/make test"));
    assert!(suite_line("echo start; cargo test"));
    assert!(suite_line("cargo build | cat || make all"));
    assert!(!suite_line("echo cargo"));
}

#[test]
fn segments_split_at_shell_separators() {
    let found = segments(&chars_of("a b; c && d | e ; f"));
    let words: Vec<Vec<String>> = found
        .iter()
        .map(|segment| segment.iter().map(|word| text(word)).collect())
        .collect();
    assert_eq!(
        words,
        vec![
            vec!["a".to_owned(), "b".to_owned()],
            vec!["c".to_owned()],
            vec!["d".to_owned()],
            vec!["e".to_owned()],
            vec!["f".to_owned()],
        ]
    );
}

#[test]
fn command_text_reads_run_lines_and_skips_comments() {
    assert_eq!(text(&command_text(&chars_of("        run: make lint  "))), "make lint");
    assert_eq!(text(&command_text(&chars_of("  # make test"))), "");
    assert_eq!(text(&command_text(&chars_of("  cargo test \\"))), "cargo test \\");
    assert!(run_command(&chars_of("  name: Lint")).is_none());
}

#[test]
fn job_headers_name_jobs() {
    assert_eq!(job_header(&chars_of("  build-test:")).map(|name| text(&name)).as_deref(), Some("build-test"));
    assert!(job_header(&chars_of("    steps:")).is_none());
    assert!(job_header(&chars_of("  build test:")).is_none());
    assert!(job_header(&chars_of("  :")).is_none());
}

#[test]
fn jobs_and_steps_are_read_from_the_workflow() {
    let found = jobs(&chars_of(CI_WORKFLOW));
    assert_eq!(found.len(), 1);
    assert_eq!(text(&found[0].name), "build-test");
    let job_steps = steps(&found[0].lines);
    assert_eq!(job_steps.len(), 8);
    assert_eq!(text(&job_steps[0][0]).trim(), "- uses: actions/checkout@v4");
}

#[test]
fn a_second_suite_run_is_detected() {
    let act = "name: Act\njobs:\n  act:\n    steps:\n      - run: make test WITH_ACT=1\n";
    let found = vec![Workflow::new("ci.yml", CI_WORKFLOW), Workflow::new("act-validation.yml", act)];
    let runs = suite_runs(&found);
    assert_eq!(runs.len(), 2);
    assert_eq!(text(&runs[1].workflow), "act-validation.yml");
    assert_eq!(text(&runs[1].job), "act");
    assert_eq!(text(&runs[1].command), "- run: make test WITH_ACT=1");
}

#[test]
fn conditions_on_jobs_and_steps_are_detected() {
    let guarded = "jobs:\n  build-test:\n    if: github.event_name == 'push'\n    steps:\n      - if: always()\n        run: cargo test --doc --workspace --all-features\n";
    let found = vec![Workflow::new("ci.yml", guarded)];
    let job = suite_job(&found);
    assert!(job_is_conditional(&job));
    let job_steps = steps(&job);
    assert_eq!(job_steps.len(), 1);
    assert!(step_is_conditional(&job_steps[0]));
}

#[test]
fn a_missing_suite_job_reads_as_no_lines() {
    let found = vec![Workflow::new("other.yml", CI_WORKFLOW)];
    assert!(suite_job(&found).is_empty());
}
