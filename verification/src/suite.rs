//! The workflow suite contract: each pull request runs the test suite once.
//!
//! The coverage step of the `build-test` job in `ci.yml` runs the suite
//! without its doctests, which `build-test` runs in a step of its own. The
//! contract reads the workflows textually: it splits each workflow into its
//! jobs and each job into its steps, reads the command of every line, and
//! recognises a command that runs the suite in any spelling of
//! `make test`, `make all`, `cargo test`, `cargo nextest` or
//! `cargo llvm-cov`, options before the subcommand included.

use crate::text::{
    chars_contain, chars_end_with, chars_equal, chars_of, chars_start_with, chars_strip_prefix,
    chars_strip_suffix, chars_trim, chars_trim_end, chars_trim_end_matches, chars_trim_start,
    chars_trim_start_matches, concat_chars, contains, copy_chars, copy_texts, ends_with, lines,
    split_lines, split_words, starts_with, strip_prefix, strip_suffix, texts, texts_contain,
    trim, trim_end, trim_end_matches, trim_start, trim_start_matches, words,
};
use vstd::prelude::*;

verus! {

broadcast use vstd::slice::group_slice_axioms;

/// The workflow that holds the job that runs the suite.
pub const SUITE_WORKFLOW: &'static str = "ci.yml";

/// The job that must run both the coverage step and the doctest step.
pub const SUITE_JOB: &'static str = "build-test";

/// Cargo options that take their value as the next word.
pub open spec fn cargo_value_options() -> Seq<Seq<char>> {
    seq!["--config"@, "-Z"@, "-C"@, "--manifest-path"@, "--color"@, "--target-dir"@]
}

/// Make options that take their value as the next word.
pub open spec fn make_value_options() -> Seq<Seq<char>> {
    seq!["-C"@, "-f"@, "-I"@, "-o"@, "-W"@, "--directory"@, "--file"@, "--makefile"@]
}

/// Cargo subcommands that run the suite.
pub open spec fn suite_subcommands() -> Seq<Seq<char>> {
    seq!["test"@, "nextest"@, "llvm-cov"@]
}

/// Make targets that run the suite.
pub open spec fn suite_targets() -> Seq<Seq<char>> {
    seq!["test"@, "all"@]
}

/// The shell segments of `words` from position `i` on, with `current` the
/// words of the segment read so far: `&&`, `||`, `|` and a trailing `;`
/// end a segment, and a word that is only `;` is a separator too.
pub open spec fn segments_from(words: Seq<Seq<char>>, i: int, current: Seq<Seq<char>>) -> Seq<
    Seq<Seq<char>>,
>
    decreases words.len() - i,
{
    if i < 0 || i >= words.len() {
        seq![current]
    } else {
        let word = words[i];
        let trimmed = trim_end_matches(word, ';');
        let separator = word == "&&"@ || word == "||"@ || word == "|"@ || trimmed.len() == 0;
        let next = if separator {
            current
        } else {
            current.push(trimmed)
        };
        if separator || ends_with(word, ";"@) {
            seq![next] + segments_from(words, i + 1, seq![])
        } else {
            segments_from(words, i + 1, next)
        }
    }
}

/// The word lists of the shell segments of `command`, so that a suite run
/// after `&&`, `||`, `;` or `|` is read as its own command.
pub open spec fn spec_segments(command: Seq<char>) -> Seq<Seq<Seq<char>>> {
    segments_from(words(command), 0, seq![])
}

/// Whether `word` is `program` or names it by path.
pub open spec fn names_program(word: Seq<char>, program: Seq<char>) -> bool {
    word == program || ends_with(word, "/"@ + program)
}

/// The first position from `i` on of a word that names `program`.
pub open spec fn program_position(words: Seq<Seq<char>>, program: Seq<char>, i: int) -> Option<int>
    decreases words.len() - i,
{
    if i < 0 || i >= words.len() {
        None
    } else if names_program(words[i], program) {
        Some(i)
    } else {
        program_position(words, program, i + 1)
    }
}

/// The words after the first word that names `program`, in one segment.
pub open spec fn spec_arguments_of(words: Seq<Seq<char>>, program: Seq<char>) -> Option<Seq<Seq<char>>> {
    match program_position(words, program, 0) {
        Some(start) => Some(words.subrange(start + 1, words.len() as int)),
        None => None,
    }
}

/// Whether a word is an operand rather than an option, a toolchain
/// selector or a variable assignment.
pub open spec fn spec_is_operand(word: Seq<char>) -> bool {
    !(starts_with(word, "-"@) || starts_with(word, "+"@)) && !contains(word, "="@)
}

/// The operands of `arguments` from position `i` on: its words less
/// options, the values of `value_options`, toolchain selectors and
/// variable assignments.
pub open spec fn operands_from(arguments: Seq<Seq<char>>, value_options: Seq<Seq<char>>, i: int) -> Seq<
    Seq<char>,
>
    decreases arguments.len() - i,
{
    if i < 0 || i >= arguments.len() {
        seq![]
    } else if value_options.contains(arguments[i]) {
        if i + 1 >= arguments.len() {
            seq![]
        } else {
            operands_from(arguments, value_options, i + 2)
        }
    } else if spec_is_operand(arguments[i]) {
        seq![arguments[i]] + operands_from(arguments, value_options, i + 1)
    } else {
        operands_from(arguments, value_options, i + 1)
    }
}

/// The operands of a command line.
pub open spec fn spec_operands(arguments: Seq<Seq<char>>, value_options: Seq<Seq<char>>) -> Seq<Seq<char>> {
    operands_from(arguments, value_options, 0)
}

/// Whether one shell segment runs `cargo` with a subcommand that runs the
/// suite.
pub open spec fn spec_cargo_runs_suite(words: Seq<Seq<char>>) -> bool {
    match spec_arguments_of(words, "cargo"@) {
        Some(arguments) => {
            let found = spec_operands(arguments, cargo_value_options());
            found.len() > 0 && suite_subcommands().contains(found[0])
        },
        None => false,
    }
}

/// Whether one of `targets` runs the suite.
pub open spec fn has_suite_target(targets: Seq<Seq<char>>) -> bool {
    exists|k: int| 0 <= k < targets.len() && suite_targets().contains(#[trigger] targets[k])
}

/// Whether one shell segment runs `make` with a target that runs the suite.
pub open spec fn spec_make_runs_suite(words: Seq<Seq<char>>) -> bool {
    match spec_arguments_of(words, "make"@) {
        Some(arguments) => has_suite_target(spec_operands(arguments, make_value_options())),
        None => false,
    }
}

/// Whether one shell segment runs the suite: `cargo` whose subcommand runs
/// it, or `make` with a target that runs it.
pub open spec fn spec_segment_runs_suite(words: Seq<Seq<char>>) -> bool {
    spec_cargo_runs_suite(words) || spec_make_runs_suite(words)
}

/// Whether a shell command line runs the suite, in any spelling.
pub open spec fn spec_runs_suite(line: Seq<char>) -> bool {
    exists|k: int| 0 <= k < spec_segments(line).len() && spec_segment_runs_suite(#[trigger] spec_segments(line)[k])
}

/// The command a `run:` line carries.
pub open spec fn spec_run_command(line: Seq<char>) -> Option<Seq<char>> {
    match strip_prefix(trim_start(line), "run:"@) {
        Some(rest) => Some(trim(rest)),
        None => None,
    }
}

/// A workflow line read as a command: without a `run:` prefix, and empty
/// for a comment.
pub open spec fn spec_command_text(line: Seq<char>) -> Seq<char> {
    let trimmed = trim(line);
    if starts_with(trimmed, "#"@) {
        seq![]
    } else {
        match spec_run_command(trimmed) {
            Some(command) => command,
            None => trimmed,
        }
    }
}

/// Whether `c` may appear in a job name.
pub open spec fn is_job_name_char(c: char) -> bool {
    let u = c as u32;
    ||| 0x30 <= u <= 0x39
    ||| 0x41 <= u <= 0x5a
    ||| 0x61 <= u <= 0x7a
    ||| c == '-'
    ||| c == '_'
}

/// The name of the job a `  name:` line under `jobs:` opens.
pub open spec fn spec_job_header(line: Seq<char>) -> Option<Seq<char>> {
    match strip_prefix(line, "  "@) {
        Some(rest) => match strip_suffix(rest, ":"@) {
            Some(name) => if name.len() > 0 && forall|k: int|
                0 <= k < name.len() ==> is_job_name_char(#[trigger] name[k]) {
                Some(name)
            } else {
                None
            },
            None => None,
        },
        None => None,
    }
}

/// A job of a workflow: its name and its lines.
pub struct JobView {
    pub name: Seq<char>,
    pub lines: Seq<Seq<char>>,
}

/// The jobs finished so far, followed by the job being read, if any.
pub open spec fn with_current_job(done: Seq<JobView>, current: Option<JobView>) -> Seq<JobView> {
    match current {
        Some(job) => done.push(job),
        None => done,
    }
}

/// The jobs of a workflow from line `i` on: a line at the top level opens
/// a section, and within the `jobs:` section a job header opens a job whose
/// lines follow it.
pub open spec fn jobs_from(
    lines: Seq<Seq<char>>,
    i: int,
    in_jobs: bool,
    done: Seq<JobView>,
    current: Option<JobView>,
) -> Seq<JobView>
    decreases lines.len() - i,
{
    if i < 0 || i >= lines.len() {
        with_current_job(done, current)
    } else {
        let line = lines[i];
        if !starts_with(line, " "@) && trim(line).len() > 0 {
            jobs_from(lines, i + 1, trim_end(line) == "jobs:"@, done, current)
        } else if !in_jobs {
            jobs_from(lines, i + 1, in_jobs, done, current)
        } else {
            match spec_job_header(line) {
                Some(name) => jobs_from(
                    lines,
                    i + 1,
                    in_jobs,
                    with_current_job(done, current),
                    Some(JobView { name, lines: seq![] }),
                ),
                None => match current {
                    Some(job) => jobs_from(
                        lines,
                        i + 1,
                        in_jobs,
                        done,
                        Some(JobView { name: job.name, lines: job.lines.push(line) }),
                    ),
                    None => jobs_from(lines, i + 1, in_jobs, done, current),
                },
            }
        }
    }
}

/// Each job's name and lines, in order.
pub open spec fn spec_jobs(workflow: Seq<char>) -> Seq<JobView> {
    jobs_from(lines(workflow), 0, false, seq![], None)
}

/// Whether a line begins a step: a `- ` list item.
pub open spec fn opens_step(line: Seq<char>) -> bool {
    starts_with(trim_start(line), "- "@)
}

/// The steps finished so far, followed by the step being read, if any.
pub open spec fn with_current_step(done: Seq<Seq<Seq<char>>>, current: Option<Seq<Seq<char>>>) -> Seq<
    Seq<Seq<char>>,
> {
    match current {
        Some(step) => done.push(step),
        None => done,
    }
}

/// The steps of a job from line `i` on.
pub open spec fn steps_from(
    job: Seq<Seq<char>>,
    i: int,
    done: Seq<Seq<Seq<char>>>,
    current: Option<Seq<Seq<char>>>,
) -> Seq<Seq<Seq<char>>>
    decreases job.len() - i,
{
    if i < 0 || i >= job.len() {
        with_current_step(done, current)
    } else if opens_step(job[i]) {
        steps_from(job, i + 1, with_current_step(done, current), Some(seq![job[i]]))
    } else {
        match current {
            Some(step) => steps_from(job, i + 1, done, Some(step.push(job[i]))),
            None => steps_from(job, i + 1, done, current),
        }
    }
}

/// The steps of a job, each a run of lines starting at a `- ` list item,
/// so that a step can be found by what it runs rather than by its name.
pub open spec fn spec_steps(job: Seq<Seq<char>>) -> Seq<Seq<Seq<char>>> {
    steps_from(job, 0, seq![], None)
}

/// Whether a job carries its own `if:` condition.
pub open spec fn spec_job_is_conditional(job: Seq<Seq<char>>) -> bool {
    exists|k: int| 0 <= k < job.len() && starts_with(#[trigger] job[k], "    if:"@)
}

/// Whether a step line carries an `if:` condition.
pub open spec fn line_is_condition(line: Seq<char>) -> bool {
    starts_with(trim_start_matches(trim_start(line), "- "@), "if:"@)
}

/// Whether a step carries an `if:` condition.
pub open spec fn spec_step_is_conditional(step: Seq<Seq<char>>) -> bool {
    exists|k: int| 0 <= k < step.len() && line_is_condition(#[trigger] step[k])
}

/// A workflow file: its name and its text.
pub struct WorkflowView {
    pub name: Seq<char>,
    pub text: Seq<char>,
}

/// The lines of the first job named `SUITE_JOB` in a workflow named
/// `SUITE_WORKFLOW`, among `found` from position `i` on; no lines when
/// there is none.
pub open spec fn suite_job_from(found: Seq<WorkflowView>, i: int) -> Seq<Seq<char>>
    decreases found.len() - i,
{
    if i < 0 || i >= found.len() {
        seq![]
    } else if found[i].name == SUITE_WORKFLOW@ && first_job_named(spec_jobs(found[i].text), SUITE_JOB@, 0)
        is Some {
        first_job_named(spec_jobs(found[i].text), SUITE_JOB@, 0)->0
    } else {
        suite_job_from(found, i + 1)
    }
}

/// The lines of the first job from position `i` on that is named `name`.
pub open spec fn first_job_named(jobs: Seq<JobView>, name: Seq<char>, i: int) -> Option<Seq<Seq<char>>>
    decreases jobs.len() - i,
{
    if i < 0 || i >= jobs.len() {
        None
    } else if jobs[i].name == name {
        Some(jobs[i].lines)
    } else {
        first_job_named(jobs, name, i + 1)
    }
}

/// The `build-test` job of `ci.yml`.
pub open spec fn spec_suite_job(found: Seq<WorkflowView>) -> Seq<Seq<char>> {
    suite_job_from(found, 0)
}

/// A workflow line that runs the suite: the workflow, the job and the
/// command.
pub struct SuiteRunView {
    pub workflow: Seq<char>,
    pub job: Seq<char>,
    pub command: Seq<char>,
}

/// The suite runs among the lines of `job` from position `i` on.
pub open spec fn job_suite_runs(workflow: Seq<char>, job: JobView, i: int) -> Seq<SuiteRunView>
    decreases job.lines.len() - i,
{
    if i < 0 || i >= job.lines.len() {
        seq![]
    } else {
        let command = spec_command_text(job.lines[i]);
        let rest = job_suite_runs(workflow, job, i + 1);
        if spec_runs_suite(command) {
            seq![SuiteRunView { workflow, job: job.name, command }] + rest
        } else {
            rest
        }
    }
}

/// The suite runs among the jobs of a workflow from position `i` on.
pub open spec fn jobs_suite_runs(workflow: Seq<char>, jobs: Seq<JobView>, i: int) -> Seq<
    SuiteRunView,
>
    decreases jobs.len() - i,
{
    if i < 0 || i >= jobs.len() {
        seq![]
    } else {
        job_suite_runs(workflow, jobs[i], 0) + jobs_suite_runs(workflow, jobs, i + 1)
    }
}

/// The suite runs among the workflows of `found` from position `i` on.
pub open spec fn workflows_suite_runs(found: Seq<WorkflowView>, i: int) -> Seq<SuiteRunView>
    decreases found.len() - i,
{
    if i < 0 || i >= found.len() {
        seq![]
    } else {
        jobs_suite_runs(found[i].name, spec_jobs(found[i].text), 0) + workflows_suite_runs(found, i + 1)
    }
}

/// Every workflow line that runs the suite, in order.
pub open spec fn spec_suite_runs(found: Seq<WorkflowView>) -> Seq<SuiteRunView> {
    workflows_suite_runs(found, 0)
}

/// The texts of a sequence of groups of lines or words.
pub open spec fn nested_texts(found: Seq<Vec<Vec<char>>>) -> Seq<Seq<Seq<char>>> {
    found.map_values(|segment: Vec<Vec<char>>| texts(segment@))
}

/// Appends the text `item` to `list`.
fn push_text(list: &mut Vec<Vec<char>>, item: &str)
    ensures
        texts(final(list)@) == texts(old(list)@).push(item@),
{
    let chars = chars_of(item);
    list.push(chars);
    assert(texts(list@) =~= texts(old(list)@).push(item@));
}

/// Returns the cargo options that take their value as the next word.
fn cargo_value_option_list() -> (options: Vec<Vec<char>>)
    ensures
        texts(options@) == cargo_value_options(),
{
    let mut options: Vec<Vec<char>> = Vec::new();
    push_text(&mut options, "--config");
    push_text(&mut options, "-Z");
    push_text(&mut options, "-C");
    push_text(&mut options, "--manifest-path");
    push_text(&mut options, "--color");
    push_text(&mut options, "--target-dir");
    assert(texts(options@) =~= cargo_value_options());
    options
}

/// Returns the make options that take their value as the next word.
fn make_value_option_list() -> (options: Vec<Vec<char>>)
    ensures
        texts(options@) == make_value_options(),
{
    let mut options: Vec<Vec<char>> = Vec::new();
    push_text(&mut options, "-C");
    push_text(&mut options, "-f");
    push_text(&mut options, "-I");
    push_text(&mut options, "-o");
    push_text(&mut options, "-W");
    push_text(&mut options, "--directory");
    push_text(&mut options, "--file");
    push_text(&mut options, "--makefile");
    assert(texts(options@) =~= make_value_options());
    options
}

/// Returns the cargo subcommands that run the suite.
fn suite_subcommand_list() -> (subcommands: Vec<Vec<char>>)
    ensures
        texts(subcommands@) == suite_subcommands(),
{
    let mut subcommands: Vec<Vec<char>> = Vec::new();
    push_text(&mut subcommands, "test");
    push_text(&mut subcommands, "nextest");
    push_text(&mut subcommands, "llvm-cov");
    assert(texts(subcommands@) =~= suite_subcommands());
    subcommands
}

/// Returns the make targets that run the suite.
fn suite_target_list() -> (targets: Vec<Vec<char>>)
    ensures
        texts(targets@) == suite_targets(),
{
    let mut targets: Vec<Vec<char>> = Vec::new();
    push_text(&mut targets, "test");
    push_text(&mut targets, "all");
    assert(texts(targets@) =~= suite_targets());
    targets
}

/// Splits a command into the word lists of its shell segments, so that a
/// suite run after `&&`, `||`, `;` or `|` is read as its own command.
pub fn segments(command: &[char]) -> (found: Vec<Vec<Vec<char>>>)
    ensures
        nested_texts(found@) == spec_segments(command@),
{
    let words = split_words(command);
    let and = chars_of("&&");
    let or = chars_of("||");
    let pipe = chars_of("|");
    let semicolon = chars_of(";");
    let mut found: Vec<Vec<Vec<char>>> = Vec::new();
    let mut current: Vec<Vec<char>> = Vec::new();
    let mut i: usize = 0;
    assert(texts(current@) =~= Seq::<Seq<char>>::empty());
    assert(nested_texts(found@) + segments_from(texts(words@), 0, seq![]) =~= segments_from(
        texts(words@),
        0,
        seq![],
    ));
    while i < words.len()
        invariant
            i <= words@.len(),
            texts(words@) == crate::text::words(command@),
            and@ == "&&"@,
            or@ == "||"@,
            pipe@ == "|"@,
            semicolon@ == ";"@,
            nested_texts(found@) + segments_from(texts(words@), i as int, texts(current@))
                == spec_segments(command@),
        decreases words@.len() - i,
    {
        let word = words[i].as_slice();
        assert(word@ == texts(words@)[i as int]);
        let ghost before = texts(current@);
        let trimmed = chars_trim_end_matches(word, ';');
        let separator = chars_equal(word, and.as_slice()) || chars_equal(word, or.as_slice())
            || chars_equal(word, pipe.as_slice()) || trimmed.len() == 0;
        if !separator {
            current.push(trimmed);
            assert(texts(current@) =~= before.push(trim_end_matches(word@, ';')));
        }
        if separator || chars_end_with(word, semicolon.as_slice()) {
            let ghost seen = nested_texts(found@);
            let ghost closed = texts(current@);
            found.push(current);
            current = Vec::new();
            assert(nested_texts(found@) =~= seen.push(closed));
            assert(texts(current@) =~= Seq::<Seq<char>>::empty());
            assert(seen.push(closed) + segments_from(texts(words@), i + 1, seq![]) =~= seen + (seq![
                closed,
            ] + segments_from(texts(words@), i + 1, seq![])));
        }
        i += 1;
    }
    let ghost seen = nested_texts(found@);
    let ghost closed = texts(current@);
    found.push(current);
    assert(nested_texts(found@) =~= seen + seq![closed]);
    found
}

/// Returns the words after the first word equal to `program`, or naming it
/// by path, in one segment.
pub fn arguments_of(words: &[Vec<char>], program: &[char]) -> (arguments: Option<Vec<Vec<char>>>)
    ensures
        match arguments {
            Some(arguments) => spec_arguments_of(texts(words@), program@) == Some(
                texts(arguments@),
            ),
            None => spec_arguments_of(texts(words@), program@) is None,
        },
{
    let slash = chars_of("/");
    let suffix = concat_chars(slash.as_slice(), program);
    let mut i: usize = 0;
    while i < words.len()
        invariant
            i <= words@.len(),
            suffix@ == "/"@ + program@,
            program_position(texts(words@), program@, 0) == program_position(
                texts(words@),
                program@,
                i as int,
            ),
        decreases words@.len() - i,
    {
        let word = words[i].as_slice();
        assert(word@ == texts(words@)[i as int]);
        if chars_equal(word, program) || chars_end_with(word, suffix.as_slice()) {
            return Some(copy_texts(words, i + 1, words.len()));
        }
        i += 1;
    }
    None
}

/// Returns whether a word is an operand rather than an option, a toolchain
/// selector or a variable assignment.
pub fn is_operand(word: &[char]) -> (operand: bool)
    ensures
        operand == spec_is_operand(word@),
{
    let dash = chars_of("-");
    let plus = chars_of("+");
    let equals = chars_of("=");
    let is_flag = chars_start_with(word, dash.as_slice()) || chars_start_with(
        word,
        plus.as_slice(),
    );
    !is_flag && !chars_contain(word, equals.as_slice())
}

/// Returns the operands of a command line: its words less options, their
/// values, toolchain selectors and variable assignments.
pub fn operands(arguments: &[Vec<char>], value_options: &[Vec<char>]) -> (found: Vec<Vec<char>>)
    ensures
        texts(found@) == spec_operands(texts(arguments@), texts(value_options@)),
{
    let ghost args = texts(arguments@);
    let ghost options = texts(value_options@);
    let mut found: Vec<Vec<char>> = Vec::new();
    let mut i: usize = 0;
    while i < arguments.len()
        invariant
            i <= arguments@.len(),
            args == texts(arguments@),
            options == texts(value_options@),
            texts(found@) + operands_from(args, options, i as int) == spec_operands(args, options),
        decreases arguments@.len() - i,
    {
        let word = arguments[i].as_slice();
        assert(word@ == args[i as int]);
        if texts_contain(value_options, word) {
            if i + 1 >= arguments.len() {
                i = arguments.len();
            } else {
                i += 2;
            }
        } else if is_operand(word) {
            let ghost seen = texts(found@);
            let item = crate::text::copy_range(word, 0, word.len());
            assert(item@ =~= word@);
            found.push(item);
            assert(texts(found@) =~= seen.push(word@));
            assert(seen.push(word@) + operands_from(args, options, i + 1) =~= seen + (seq![word@]
                + operands_from(args, options, i + 1)));
            i += 1;
        } else {
            i += 1;
        }
    }
    assert(texts(found@) + Seq::<Seq<char>>::empty() =~= texts(found@));
    found
}

/// Returns whether one shell segment runs `cargo` with a subcommand that
/// runs the suite.
fn cargo_runs_suite(words: &[Vec<char>]) -> (runs: bool)
    ensures
        runs == spec_cargo_runs_suite(texts(words@)),
{
    let program = chars_of("cargo");
    match arguments_of(words, program.as_slice()) {
        Some(arguments) => {
            let options = cargo_value_option_list();
            let subcommands = suite_subcommand_list();
            let found = operands(arguments.as_slice(), options.as_slice());
            if found.len() > 0 {
                assert(found@[0]@ == texts(found@)[0]);
                texts_contain(subcommands.as_slice(), found[0].as_slice())
            } else {
                false
            }
        },
        None => false,
    }
}

/// Returns whether one shell segment runs `make` with a target that runs
/// the suite.
fn make_runs_suite(words: &[Vec<char>]) -> (runs: bool)
    ensures
        runs == spec_make_runs_suite(texts(words@)),
{
    let program = chars_of("make");
    match arguments_of(words, program.as_slice()) {
        Some(arguments) => {
            let options = make_value_option_list();
            let targets = suite_target_list();
            let found = operands(arguments.as_slice(), options.as_slice());
            let ghost spec_found = spec_operands(texts(arguments@), make_value_options());
            let mut k: usize = 0;
            while k < found.len()
                invariant
                    k <= found@.len(),
                    spec_arguments_of(texts(words@), "make"@) == Some(texts(arguments@)),
                    spec_found == spec_operands(texts(arguments@), make_value_options()),
                    texts(found@) == spec_found,
                    texts(targets@) == suite_targets(),
                    forall|j: int|
                        0 <= j < k ==> !suite_targets().contains(#[trigger] spec_found[j]),
                    spec_found.len() == found@.len(),
                decreases found@.len() - k,
            {
                assert(found@[k as int]@ == spec_found[k as int]);
                if texts_contain(targets.as_slice(), found[k].as_slice()) {
                    assert(has_suite_target(spec_found));
                    return true;
                }
                k += 1;
            }
            false
        },
        None => false,
    }
}

/// Returns whether one shell segment runs the suite.
pub fn segment_runs_suite(words: &[Vec<char>]) -> (runs: bool)
    ensures
        runs == spec_segment_runs_suite(texts(words@)),
{
    cargo_runs_suite(words) || make_runs_suite(words)
}

/// Returns whether a shell command line runs the suite, in any spelling.
pub fn runs_suite(line: &[char]) -> (runs: bool)
    ensures
        runs == spec_runs_suite(line@),
{
    let found = segments(line);
    let mut k: usize = 0;
    while k < found.len()
        invariant
            k <= found@.len(),
            nested_texts(found@) == spec_segments(line@),
            forall|j: int| 0 <= j < k ==> !spec_segment_runs_suite(#[trigger] spec_segments(line@)[j]),
        decreases found@.len() - k,
    {
        assert(texts(found@[k as int]@) == spec_segments(line@)[k as int]);
        if segment_runs_suite(found[k].as_slice()) {
            return true;
        }
        k += 1;
    }
    false
}

/// Returns the command a `run:` line carries, or `None` for other lines.
pub fn run_command(line: &[char]) -> (command: Option<Vec<char>>)
    ensures
        match command {
            Some(command) => spec_run_command(line@) == Some(command@),
            None => spec_run_command(line@) is None,
        },
{
    let prefix = chars_of("run:");
    let start = chars_trim_start(line);
    match chars_strip_prefix(start.as_slice(), prefix.as_slice()) {
        Some(rest) => Some(chars_trim(rest.as_slice())),
        None => None,
    }
}

/// Returns a workflow line as a command: without a `run:` prefix, and empty
/// for a comment. Every line is read, so a suite run inside a multi-line
/// `run: |` block is seen as well as a single-line one.
pub fn command_text(line: &[char]) -> (command: Vec<char>)
    ensures
        command@ == spec_command_text(line@),
{
    let hash = chars_of("#");
    let trimmed = chars_trim(line);
    if chars_start_with(trimmed.as_slice(), hash.as_slice()) {
        return Vec::new();
    }
    match run_command(trimmed.as_slice()) {
        Some(command) => command,
        None => trimmed,
    }
}

/// Returns whether `c` may appear in a job name.
fn job_name_char(c: char) -> (allowed: bool)
    ensures
        allowed == is_job_name_char(c),
{
    let u = c as u32;
    (0x30 <= u && u <= 0x39) || (0x41 <= u && u <= 0x5a) || (0x61 <= u && u <= 0x7a) || c == '-'
        || c == '_'
}

/// Returns the name of the job a line opens, for a `  name:` line under
/// `jobs:`.
pub fn job_header(line: &[char]) -> (name: Option<Vec<char>>)
    ensures
        match name {
            Some(name) => spec_job_header(line@) == Some(name@),
            None => spec_job_header(line@) is None,
        },
{
    let indent = chars_of("  ");
    let colon = chars_of(":");
    let rest = match chars_strip_prefix(line, indent.as_slice()) {
        Some(rest) => rest,
        None => {
            return None;
        },
    };
    let name = match chars_strip_suffix(rest.as_slice(), colon.as_slice()) {
        Some(name) => name,
        None => {
            return None;
        },
    };
    if name.len() == 0 {
        return None;
    }
    let mut k: usize = 0;
    while k < name.len()
        invariant
            k <= name@.len(),
            name@.len() > 0,
            strip_prefix(line@, "  "@) == Some(rest@),
            strip_suffix(rest@, ":"@) == Some(name@),
            forall|j: int| 0 <= j < k ==> is_job_name_char(#[trigger] name@[j]),
        decreases name@.len() - k,
    {
        if !job_name_char(name[k]) {
            return None;
        }
        k += 1;
    }
    Some(name)
}

/// Returns whether a job carries its own `if:` condition.
pub fn job_is_conditional(job: &[Vec<char>]) -> (conditional: bool)
    ensures
        conditional == spec_job_is_conditional(texts(job@)),
{
    let condition = chars_of("    if:");
    let mut k: usize = 0;
    while k < job.len()
        invariant
            k <= job@.len(),
            condition@ == "    if:"@,
            forall|j: int| 0 <= j < k ==> !starts_with(#[trigger] texts(job@)[j], "    if:"@),
        decreases job@.len() - k,
    {
        assert(job@[k as int]@ == texts(job@)[k as int]);
        if chars_start_with(job[k].as_slice(), condition.as_slice()) {
            return true;
        }
        k += 1;
    }
    false
}

/// Returns whether a step carries an `if:` condition.
pub fn step_is_conditional(step: &[Vec<char>]) -> (conditional: bool)
    ensures
        conditional == spec_step_is_conditional(texts(step@)),
{
    let item = chars_of("- ");
    let condition = chars_of("if:");
    proof {
        reveal_strlit("- ");
    }
    let mut k: usize = 0;
    while k < step.len()
        invariant
            k <= step@.len(),
            item@ == "- "@,
            item@.len() > 0,
            condition@ == "if:"@,
            forall|j: int| 0 <= j < k ==> !line_is_condition(#[trigger] texts(step@)[j]),
        decreases step@.len() - k,
    {
        assert(step@[k as int]@ == texts(step@)[k as int]);
        let start = chars_trim_start(step[k].as_slice());
        let body = chars_trim_start_matches(start.as_slice(), item.as_slice());
        if chars_start_with(body.as_slice(), condition.as_slice()) {
            return true;
        }
        k += 1;
    }
    false
}

/// A job of a workflow: its name and its lines.
#[derive(Debug)]
pub struct Job {
    pub name: Vec<char>,
    pub lines: Vec<Vec<char>>,
}

impl View for Job {
    type V = JobView;

    open spec fn view(&self) -> JobView {
        JobView { name: self.name@, lines: texts(self.lines@) }
    }
}

/// The abstract values of a sequence of jobs.
pub open spec fn job_views(jobs: Seq<Job>) -> Seq<JobView> {
    jobs.map_values(|job: Job| job@)
}

/// The abstract value of the job being read, if any.
pub open spec fn current_job_view(current: Option<Job>) -> Option<JobView> {
    match current {
        Some(job) => Some(job@),
        None => None,
    }
}

/// Returns each job's name and lines, in order.
pub fn jobs(workflow: &[char]) -> (found: Vec<Job>)
    ensures
        job_views(found@) == spec_jobs(workflow@),
{
    let lines = split_lines(workflow);
    let space = chars_of(" ");
    let section = chars_of("jobs:");
    let mut done: Vec<Job> = Vec::new();
    let mut current: Option<Job> = None;
    let mut in_jobs = false;
    let mut i: usize = 0;
    assert(job_views(done@) =~= Seq::<JobView>::empty());
    while i < lines.len()
        invariant
            i <= lines@.len(),
            texts(lines@) == crate::text::lines(workflow@),
            space@ == " "@,
            section@ == "jobs:"@,
            jobs_from(texts(lines@), i as int, in_jobs, job_views(done@), current_job_view(current))
                == spec_jobs(workflow@),
        decreases lines@.len() - i,
    {
        let line = lines[i].as_slice();
        assert(line@ == texts(lines@)[i as int]);
        if !chars_start_with(line, space.as_slice()) && chars_trim(line).len() > 0 {
            let end = chars_trim_end(line);
            in_jobs = chars_equal(end.as_slice(), section.as_slice());
        } else if in_jobs {
            match job_header(line) {
                Some(name) => {
                    let ghost seen = job_views(done@);
                    let ghost finished = current_job_view(current);
                    if let Some(job) = current {
                        done.push(job);
                    }
                    assert(job_views(done@) =~= with_current_job(seen, finished));
                    let lines_of_job: Vec<Vec<char>> = Vec::new();
                    assert(texts(lines_of_job@) =~= Seq::<Seq<char>>::empty());
                    current = Some(Job { name, lines: lines_of_job });
                },
                None => {
                    current =
                    match current {
                        Some(job) => {
                            let Job { name, lines: mut job_lines } = job;
                            let ghost before = texts(job_lines@);
                            job_lines.push(copy_chars(line));
                            assert(texts(job_lines@) =~= before.push(line@));
                            Some(Job { name, lines: job_lines })
                        },
                        None => None,
                    };
                },
            }
        }
        i += 1;
    }
    let ghost seen = job_views(done@);
    let ghost finished = current_job_view(current);
    if let Some(job) = current {
        done.push(job);
    }
    assert(job_views(done@) =~= with_current_job(seen, finished));
    done
}

/// Splits a job into its steps, each a run of lines starting at a `- `
/// list item.
pub fn steps(job: &[Vec<char>]) -> (found: Vec<Vec<Vec<char>>>)
    ensures
        nested_texts(found@) == spec_steps(texts(job@)),
{
    let item = chars_of("- ");
    let mut done: Vec<Vec<Vec<char>>> = Vec::new();
    let mut current: Option<Vec<Vec<char>>> = None;
    let mut i: usize = 0;
    assert(nested_texts(done@) =~= Seq::<Seq<Seq<char>>>::empty());
    while i < job.len()
        invariant
            i <= job@.len(),
            item@ == "- "@,
            steps_from(texts(job@), i as int, nested_texts(done@), current_step_view(current))
                == spec_steps(texts(job@)),
        decreases job@.len() - i,
    {
        let line = job[i].as_slice();
        assert(line@ == texts(job@)[i as int]);
        let start = chars_trim_start(line);
        if chars_start_with(start.as_slice(), item.as_slice()) {
            let ghost seen = nested_texts(done@);
            let ghost finished = current_step_view(current);
            if let Some(step) = current {
                done.push(step);
            }
            assert(nested_texts(done@) =~= with_current_step(seen, finished));
            let mut step: Vec<Vec<char>> = Vec::new();
            step.push(copy_chars(line));
            assert(texts(step@) =~= seq![line@]);
            current = Some(step);
        } else {
            current =
            match current {
                Some(mut step) => {
                    let ghost before = texts(step@);
                    step.push(copy_chars(line));
                    assert(texts(step@) =~= before.push(line@));
                    Some(step)
                },
                None => None,
            };
        }
        i += 1;
    }
    let ghost seen = nested_texts(done@);
    let ghost finished = current_step_view(current);
    if let Some(step) = current {
        done.push(step);
    }
    assert(nested_texts(done@) =~= with_current_step(seen, finished));
    done
}

/// The lines of the step being read, if any.
pub open spec fn current_step_view(current: Option<Vec<Vec<char>>>) -> Option<Seq<Seq<char>>> {
    match current {
        Some(step) => Some(texts(step@)),
        None => None,
    }
}

/// A workflow file: its name and its text.
#[derive(Debug)]
pub struct Workflow {
    pub name: Vec<char>,
    pub text: Vec<char>,
}

impl View for Workflow {
    type V = WorkflowView;

    open spec fn view(&self) -> WorkflowView {
        WorkflowView { name: self.name@, text: self.text@ }
    }
}

/// The abstract values of a sequence of workflows.
pub open spec fn workflow_views(found: Seq<Workflow>) -> Seq<WorkflowView> {
    found.map_values(|workflow: Workflow| workflow@)
}

impl Workflow {
    /// Creates a workflow from its file name and text.
    pub fn new(name: &str, text: &str) -> (workflow: Self)
        ensures
            workflow@ == (WorkflowView { name: name@, text: text@ }),
    {
        Workflow { name: chars_of(name), text: chars_of(text) }
    }
}

/// Returns the lines of the first job named `name` among `jobs`.
fn first_job_lines(jobs: &[Job], name: &[char]) -> (lines: Option<Vec<Vec<char>>>)
    ensures
        match lines {
            Some(lines) => first_job_named(job_views(jobs@), name@, 0) == Some(texts(lines@)),
            None => first_job_named(job_views(jobs@), name@, 0) is None,
        },
{
    let mut i: usize = 0;
    while i < jobs.len()
        invariant
            i <= jobs@.len(),
            first_job_named(job_views(jobs@), name@, 0) == first_job_named(
                job_views(jobs@),
                name@,
                i as int,
            ),
        decreases jobs@.len() - i,
    {
        assert(jobs@[i as int]@ == job_views(jobs@)[i as int]);
        if chars_equal(jobs[i].name.as_slice(), name) {
            return Some(copy_texts(jobs[i].lines.as_slice(), 0, jobs[i].lines.len()));
        }
        i += 1;
    }
    None
}

/// Returns the lines of the `build-test` job of `ci.yml`, or no lines when
/// there is none.
pub fn suite_job(found: &[Workflow]) -> (job: Vec<Vec<char>>)
    ensures
        texts(job@) == spec_suite_job(workflow_views(found@)),
{
    let workflow_name = chars_of(SUITE_WORKFLOW);
    let job_name = chars_of(SUITE_JOB);
    let mut i: usize = 0;
    while i < found.len()
        invariant
            i <= found@.len(),
            workflow_name@ == SUITE_WORKFLOW@,
            job_name@ == SUITE_JOB@,
            spec_suite_job(workflow_views(found@)) == suite_job_from(
                workflow_views(found@),
                i as int,
            ),
        decreases found@.len() - i,
    {
        assert(found@[i as int]@ == workflow_views(found@)[i as int]);
        if chars_equal(found[i].name.as_slice(), workflow_name.as_slice()) {
            let workflow_jobs = jobs(found[i].text.as_slice());
            match first_job_lines(workflow_jobs.as_slice(), job_name.as_slice()) {
                Some(lines) => {
                    return lines;
                },
                None => {},
            }
        }
        i += 1;
    }
    let none: Vec<Vec<char>> = Vec::new();
    assert(texts(none@) =~= Seq::<Seq<char>>::empty());
    none
}

/// A workflow line that runs the suite: the workflow, the job and the
/// command.
#[derive(Debug)]
pub struct SuiteRun {
    pub workflow: Vec<char>,
    pub job: Vec<char>,
    pub command: Vec<char>,
}

impl View for SuiteRun {
    type V = SuiteRunView;

    open spec fn view(&self) -> SuiteRunView {
        SuiteRunView { workflow: self.workflow@, job: self.job@, command: self.command@ }
    }
}

/// The abstract values of a sequence of suite runs.
pub open spec fn run_views(runs: Seq<SuiteRun>) -> Seq<SuiteRunView> {
    runs.map_values(|run: SuiteRun| run@)
}

/// Appends the suite runs among the lines of `job` to `runs`.
fn collect_job_runs(workflow: &[char], job: &Job, runs: &mut Vec<SuiteRun>)
    ensures
        run_views(final(runs)@) == run_views(old(runs)@) + job_suite_runs(workflow@, job@, 0),
{
    let mut k: usize = 0;
    while k < job.lines.len()
        invariant
            k <= job.lines@.len(),
            run_views(runs@) + job_suite_runs(workflow@, job@, k as int) == run_views(old(runs)@)
                + job_suite_runs(workflow@, job@, 0),
        decreases job.lines@.len() - k,
    {
        assert(job.lines@[k as int]@ == job@.lines[k as int]);
        let command = command_text(job.lines[k].as_slice());
        if runs_suite(command.as_slice()) {
            let ghost seen = run_views(runs@);
            let ghost run = SuiteRunView { workflow: workflow@, job: job.name@, command: command@ };
            runs.push(
                SuiteRun {
                    workflow: copy_chars(workflow),
                    job: copy_chars(job.name.as_slice()),
                    command,
                },
            );
            assert(run_views(runs@) =~= seen.push(run));
            assert(seen.push(run) + job_suite_runs(workflow@, job@, k + 1) =~= seen + (seq![run]
                + job_suite_runs(workflow@, job@, k + 1)));
        }
        k += 1;
    }
    assert(run_views(runs@) + Seq::<SuiteRunView>::empty() =~= run_views(runs@));
}

/// Appends the suite runs among the jobs of `workflow` to `runs`.
fn collect_workflow_runs(workflow: &Workflow, runs: &mut Vec<SuiteRun>)
    ensures
        run_views(final(runs)@) == run_views(old(runs)@) + jobs_suite_runs(
            workflow@.name,
            spec_jobs(workflow@.text),
            0,
        ),
{
    let workflow_jobs = jobs(workflow.text.as_slice());
    let ghost all = job_views(workflow_jobs@);
    let mut j: usize = 0;
    while j < workflow_jobs.len()
        invariant
            j <= workflow_jobs@.len(),
            all == job_views(workflow_jobs@),
            all == spec_jobs(workflow@.text),
            run_views(runs@) + jobs_suite_runs(workflow@.name, all, j as int) == run_views(
                old(runs)@,
            ) + jobs_suite_runs(workflow@.name, all, 0),
        decreases workflow_jobs@.len() - j,
    {
        assert(workflow_jobs@[j as int]@ == all[j as int]);
        let ghost seen = run_views(runs@);
        collect_job_runs(workflow.name.as_slice(), &workflow_jobs[j], runs);
        assert(seen + job_suite_runs(workflow@.name, all[j as int], 0) + jobs_suite_runs(
            workflow@.name,
            all,
            j + 1,
        ) =~= seen + jobs_suite_runs(workflow@.name, all, j as int));
        j += 1;
    }
    assert(run_views(runs@) + Seq::<SuiteRunView>::empty() =~= run_views(runs@));
}

/// Returns every workflow line that runs the suite, in order.
pub fn suite_runs(found: &[Workflow]) -> (runs: Vec<SuiteRun>)
    ensures
        run_views(runs@) == spec_suite_runs(workflow_views(found@)),
{
    let mut runs: Vec<SuiteRun> = Vec::new();
    let ghost all = workflow_views(found@);
    let mut i: usize = 0;
    assert(run_views(runs@) + workflows_suite_runs(all, 0) =~= workflows_suite_runs(all, 0));
    while i < found.len()
        invariant
            i <= found@.len(),
            all == workflow_views(found@),
            run_views(runs@) + workflows_suite_runs(all, i as int) == spec_suite_runs(all),
        decreases found@.len() - i,
    {
        assert(found@[i as int]@ == all[i as int]);
        let ghost seen = run_views(runs@);
        collect_workflow_runs(&found[i], &mut runs);
        assert(seen + jobs_suite_runs(all[i as int].name, spec_jobs(all[i as int].text), 0)
            + workflows_suite_runs(all, i + 1) =~= seen + workflows_suite_runs(all, i as int));
        i += 1;
    }
    assert(run_views(runs@) + Seq::<SuiteRunView>::empty() =~= run_views(runs@));
    runs
}

/// Filter-map distributes over concatenation.
proof fn lemma_filter_map_concat<A, B>(a: Seq<A>, b: Seq<A>, f: spec_fn(A) -> Option<B>)
    ensures
        (a + b).filter_map(f) == a.filter_map(f) + b.filter_map(f),
    decreases b.len(),
{
    if b.len() == 0 {
        assert(a + b =~= a);
        assert(b.filter_map(f) =~= Seq::<B>::empty());
        assert(a.filter_map(f) + b.filter_map(f) =~= a.filter_map(f));
    } else {
        lemma_filter_map_concat(a, b.drop_last(), f);
        assert((a + b).drop_last() =~= a + b.drop_last());
        assert((a + b).last() == b.last());
        match f(b.last()) {
            Some(x) => {
                assert((a + b).filter_map(f) == (a + b).drop_last().filter_map(f) + seq![x]);
                assert(b.filter_map(f) == b.drop_last().filter_map(f) + seq![x]);
                assert(a.filter_map(f) + b.drop_last().filter_map(f) + seq![x] =~= a.filter_map(f)
                    + (b.drop_last().filter_map(f) + seq![x]));
            },
            None => {
                assert((a + b).filter_map(f) == (a + b).drop_last().filter_map(f));
                assert(b.filter_map(f) == b.drop_last().filter_map(f));
            },
        }
    }
}

/// Filter-map read from the front: the image of the first item, if any,
/// followed by the filter-map of the rest.
proof fn lemma_filter_map_first<A, B>(s: Seq<A>, f: spec_fn(A) -> Option<B>)
    requires
        s.len() > 0,
    ensures
        s.filter_map(f) == (match f(s[0]) {
            Some(x) => seq![x],
            None => Seq::<B>::empty(),
        }) + s.drop_first().filter_map(f),
{
    assert(s =~= seq![s[0]] + s.drop_first());
    lemma_filter_map_concat(seq![s[0]], s.drop_first(), f);
    Seq::lemma_filter_map_singleton(s[0], f);
}

/// The suite run a workflow line stands for, if it runs the suite: the
/// line read as a command, in the given workflow and job.
pub open spec fn suite_run_of_line(workflow: Seq<char>, job: Seq<char>) -> spec_fn(Seq<char>) -> Option<
    SuiteRunView,
> {
    |line: Seq<char>|
        if spec_runs_suite(spec_command_text(line)) {
            Some(SuiteRunView { workflow, job, command: spec_command_text(line) })
        } else {
            None
        }
}

proof fn lemma_job_suite_runs_from(workflow: Seq<char>, job: JobView, i: int)
    requires
        0 <= i <= job.lines.len(),
    ensures
        job_suite_runs(workflow, job, i) == job.lines.subrange(i, job.lines.len() as int).filter_map(
            suite_run_of_line(workflow, job.name),
        ),
    decreases job.lines.len() - i,
{
    let rest = job.lines.subrange(i, job.lines.len() as int);
    let f = suite_run_of_line(workflow, job.name);
    if i == job.lines.len() {
        assert(rest =~= Seq::<Seq<char>>::empty());
        assert(rest.filter_map(f) =~= Seq::<SuiteRunView>::empty());
    } else {
        lemma_job_suite_runs_from(workflow, job, i + 1);
        lemma_filter_map_first(rest, f);
        assert(rest.drop_first() =~= job.lines.subrange(i + 1, job.lines.len() as int));
        assert(rest[0] == job.lines[i]);
        let command = spec_command_text(job.lines[i]);
        if spec_runs_suite(command) {
            assert(f(rest[0]) == Some(SuiteRunView { workflow, job: job.name, command }));
        } else {
            assert(f(rest[0]) is None);
            assert(Seq::<SuiteRunView>::empty() + job_suite_runs(workflow, job, i + 1)
                =~= job_suite_runs(workflow, job, i + 1));
        }
    }
}

/// Every line of a job that runs the suite is reported, once and in order
/// of the lines, and no other line is: the suite runs of a job are exactly
/// its lines that run the suite, each read as a command.
pub proof fn law_every_suite_line_is_reported(workflow: Seq<char>, job: JobView)
    ensures
        job_suite_runs(workflow, job, 0) == job.lines.filter_map(suite_run_of_line(workflow, job.name)),
        job_suite_runs(workflow, job, 0).len() == job.lines.filter(
            |line: Seq<char>| spec_runs_suite(spec_command_text(line)),
        ).len(),
{
    lemma_job_suite_runs_from(workflow, job, 0);
    assert(job.lines.subrange(0, job.lines.len() as int) =~= job.lines);
    lemma_filter_map_filter_len(job.lines, workflow, job.name);
}

/// The number of suite runs among `lines` is the number of them that run
/// the suite.
proof fn lemma_filter_map_filter_len(lines: Seq<Seq<char>>, workflow: Seq<char>, job: Seq<char>)
    ensures
        lines.filter_map(suite_run_of_line(workflow, job)).len() == lines.filter(
            |line: Seq<char>| spec_runs_suite(spec_command_text(line)),
        ).len(),
    decreases lines.len(),
{
    let p = |line: Seq<char>| spec_runs_suite(spec_command_text(line));
    let f = suite_run_of_line(workflow, job);
    if lines.len() > 0 {
        lemma_filter_map_filter_len(lines.drop_last(), workflow, job);
        reveal(Seq::filter);
        if p(lines.last()) {
            assert(f(lines.last()) is Some);
        } else {
            assert(f(lines.last()) is None);
        }
    } else {
        reveal(Seq::filter);
        assert(lines.filter_map(f) =~= Seq::<SuiteRunView>::empty());
    }
}

/// The suite runs of each job of a workflow, job after job.
pub open spec fn suite_lines_of_jobs(workflow: Seq<char>, jobs: Seq<JobView>) -> Seq<SuiteRunView> {
    jobs.map_values(
        |job: JobView| job.lines.filter_map(suite_run_of_line(workflow, job.name)),
    ).flatten()
}

/// The suite runs of each workflow, workflow after workflow.
pub open spec fn suite_lines_of_workflows(found: Seq<WorkflowView>) -> Seq<SuiteRunView> {
    found.map_values(
        |workflow: WorkflowView| suite_lines_of_jobs(workflow.name, spec_jobs(workflow.text)),
    ).flatten()
}

proof fn lemma_jobs_suite_runs_from(workflow: Seq<char>, jobs: Seq<JobView>, i: int)
    requires
        0 <= i <= jobs.len(),
    ensures
        jobs_suite_runs(workflow, jobs, i) == suite_lines_of_jobs(
            workflow,
            jobs.subrange(i, jobs.len() as int),
        ),
    decreases jobs.len() - i,
{
    let rest = jobs.subrange(i, jobs.len() as int);
    let g = |job: JobView| job.lines.filter_map(suite_run_of_line(workflow, job.name));
    if i == jobs.len() {
        assert(rest.map_values(g) =~= Seq::<Seq<SuiteRunView>>::empty());
    } else {
        lemma_jobs_suite_runs_from(workflow, jobs, i + 1);
        law_every_suite_line_is_reported(workflow, jobs[i]);
        assert(rest.map_values(g).drop_first() =~= jobs.subrange(i + 1, jobs.len() as int).map_values(
            g,
        ));
        assert(rest.map_values(g).first() == g(jobs[i]));
    }
}

proof fn lemma_workflows_suite_runs_from(found: Seq<WorkflowView>, i: int)
    requires
        0 <= i <= found.len(),
    ensures
        workflows_suite_runs(found, i) == suite_lines_of_workflows(
            found.subrange(i, found.len() as int),
        ),
    decreases found.len() - i,
{
    let rest = found.subrange(i, found.len() as int);
    let g = |workflow: WorkflowView| suite_lines_of_jobs(workflow.name, spec_jobs(workflow.text));
    if i == found.len() {
        assert(rest.map_values(g) =~= Seq::<Seq<SuiteRunView>>::empty());
    } else {
        lemma_workflows_suite_runs_from(found, i + 1);
        let jobs = spec_jobs(found[i].text);
        lemma_jobs_suite_runs_from(found[i].name, jobs, 0);
        assert(jobs.subrange(0, jobs.len() as int) =~= jobs);
        assert(rest.map_values(g).drop_first() =~= found.subrange(i + 1, found.len() as int).map_values(
            g,
        ));
        assert(rest.map_values(g).first() == g(found[i]));
    }
}

/// The suite runs of a set of workflows are every line, of every job of
/// every workflow, that runs the suite, in order of workflows, jobs and
/// lines, so that a second run of the suite anywhere is reported.
pub proof fn law_suite_runs_are_every_suite_line(found: Seq<WorkflowView>)
    ensures
        spec_suite_runs(found) == suite_lines_of_workflows(found),
{
    lemma_workflows_suite_runs_from(found, 0);
    assert(found.subrange(0, found.len() as int) =~= found);
}

/// Whether a workflow line opens a top-level section.
pub open spec fn opens_section(line: Seq<char>) -> bool {
    !starts_with(line, " "@) && trim(line).len() > 0
}

/// The names of a sequence of jobs, in order.
pub open spec fn job_names(jobs: Seq<JobView>) -> Seq<Seq<char>> {
    jobs.map_values(|job: JobView| job.name)
}

/// The job names that the header lines among `lines` open, in order.
pub open spec fn header_names(lines: Seq<Seq<char>>) -> Seq<Seq<char>> {
    lines.filter_map(|line: Seq<char>| spec_job_header(line))
}

/// Within the `jobs:` section every job header opens one job of its own:
/// reading lines that open no new section adds one job per header line,
/// named as the header, in order, after the jobs read before.
pub proof fn law_each_header_opens_a_job(
    lines: Seq<Seq<char>>,
    i: int,
    done: Seq<JobView>,
    current: Option<JobView>,
)
    requires
        0 <= i <= lines.len(),
        forall|j: int| i <= j < lines.len() ==> !opens_section(#[trigger] lines[j]),
    ensures
        job_names(jobs_from(lines, i, true, done, current)) == job_names(
            with_current_job(done, current),
        ) + header_names(lines.subrange(i, lines.len() as int)),
    decreases lines.len() - i,
{
    let rest = lines.subrange(i, lines.len() as int);
    let h = |line: Seq<char>| spec_job_header(line);
    if i == lines.len() {
        assert(rest =~= Seq::<Seq<char>>::empty());
        assert(header_names(rest) =~= Seq::<Seq<char>>::empty());
        assert(job_names(with_current_job(done, current)) + header_names(rest) =~= job_names(
            with_current_job(done, current),
        ));
    } else {
        let line = lines[i];
        assert(!opens_section(line));
        lemma_filter_map_first(rest, h);
        assert(rest[0] == line);
        assert(rest.drop_first() =~= lines.subrange(i + 1, lines.len() as int));
        let later = header_names(lines.subrange(i + 1, lines.len() as int));
        match spec_job_header(line) {
            Some(name) => {
                let before = with_current_job(done, current);
                let opened = JobView { name, lines: seq![] };
                law_each_header_opens_a_job(lines, i + 1, before, Some(opened));
                assert(job_names(before.push(opened)) =~= job_names(before).push(name));
                assert(job_names(before).push(name) + later =~= job_names(before) + (seq![name]
                    + later));
            },
            None => {
                assert(Seq::<Seq<char>>::empty() + later =~= later);
                match current {
                    Some(job) => {
                        let grown = JobView { name: job.name, lines: job.lines.push(line) };
                        law_each_header_opens_a_job(lines, i + 1, done, Some(grown));
                        assert(job_names(done.push(grown)) =~= job_names(done.push(job)));
                    },
                    None => {
                        law_each_header_opens_a_job(lines, i + 1, done, current);
                    },
                }
            },
        }
    }
}

/// A workflow whose first line is the `jobs:` section and whose other
/// lines open no section has one job per job header, named as the header,
/// in the order of the headers.
pub proof fn law_jobs_are_the_headers(workflow: Seq<char>, first: Seq<char>, body: Seq<Seq<char>>)
    requires
        lines(workflow) == seq![first] + body,
        opens_section(first),
        trim_end(first) == "jobs:"@,
        forall|j: int| 0 <= j < body.len() ==> !opens_section(#[trigger] body[j]),
    ensures
        job_names(spec_jobs(workflow)) == header_names(body),
        spec_jobs(workflow).len() == header_names(body).len(),
{
    let all = seq![first] + body;
    assert(all[0] == first);
    assert forall|j: int| 1 <= j < all.len() implies !opens_section(#[trigger] all[j]) by {
        assert(all[j] == body[j - 1]);
    }
    law_each_header_opens_a_job(all, 1, seq![], None);
    assert(all.subrange(1, all.len() as int) =~= body);
    assert(job_names(Seq::<JobView>::empty()) =~= Seq::<Seq<char>>::empty());
    assert(Seq::<Seq<char>>::empty() + header_names(body) =~= header_names(body));
    assert(spec_jobs(workflow) == jobs_from(all, 1, true, seq![], None));
}

/// A make option that takes a value is not an operand.
proof fn lemma_make_value_option_is_not_operand(word: Seq<char>)
    requires
        make_value_options().contains(word),
    ensures
        !spec_is_operand(word),
{
    reveal_strlit("-");
    reveal_strlit("-C");
    reveal_strlit("-f");
    reveal_strlit("-I");
    reveal_strlit("-o");
    reveal_strlit("-W");
    reveal_strlit("--directory");
    reveal_strlit("--file");
    reveal_strlit("--makefile");
    let k = choose|k: int| 0 <= k < make_value_options().len() && make_value_options()[k] == word;
    assert(word.subrange(0, 1) =~= "-"@);
}

/// A cargo option that takes a value is not an operand.
proof fn lemma_cargo_value_option_is_not_operand(word: Seq<char>)
    requires
        cargo_value_options().contains(word),
    ensures
        !spec_is_operand(word),
{
    reveal_strlit("-");
    reveal_strlit("--config");
    reveal_strlit("-Z");
    reveal_strlit("-C");
    reveal_strlit("--manifest-path");
    reveal_strlit("--color");
    reveal_strlit("--target-dir");
    let k = choose|k: int| 0 <= k < cargo_value_options().len() && cargo_value_options()[k] == word;
    assert(word.subrange(0, 1) =~= "-"@);
}

/// Words that are all operands are their own operands, when no option
/// that takes a value is an operand.
proof fn lemma_operands_of_operands(words: Seq<Seq<char>>, value_options: Seq<Seq<char>>, i: int)
    requires
        0 <= i <= words.len(),
        forall|j: int| 0 <= j < words.len() ==> spec_is_operand(#[trigger] words[j]),
        forall|j: int| 0 <= j < value_options.len() ==> !spec_is_operand(#[trigger] value_options[j]),
    ensures
        operands_from(words, value_options, i) == words.subrange(i, words.len() as int),
    decreases words.len() - i,
{
    if i == words.len() {
        assert(words.subrange(i, words.len() as int) =~= Seq::<Seq<char>>::empty());
    } else {
        assert(!value_options.contains(words[i]));
        lemma_operands_of_operands(words, value_options, i + 1);
        assert(words.subrange(i, words.len() as int) =~= seq![words[i]] + words.subrange(
            i + 1,
            words.len() as int,
        ));
    }
}

/// The first word naming `program` is found after words that do not.
proof fn lemma_program_after(words: Seq<Seq<char>>, program: Seq<char>, at: int, i: int)
    requires
        0 <= i <= at < words.len(),
        names_program(words[at], program),
        forall|j: int| 0 <= j < at ==> !names_program(#[trigger] words[j], program),
    ensures
        program_position(words, program, i) == Some(at),
    decreases at - i,
{
    if i < at {
        lemma_program_after(words, program, at, i + 1);
    }
}

/// A segment that runs `make` with a target `test` or `all` among its
/// operands runs the suite, whatever the target's position among them.
pub proof fn law_make_runs_suite_with_any_target(words: Seq<Seq<char>>, k: int)
    requires
        spec_arguments_of(words, "make"@) is Some,
        0 <= k < spec_operands(spec_arguments_of(words, "make"@)->0, make_value_options()).len(),
        suite_targets().contains(
            spec_operands(spec_arguments_of(words, "make"@)->0, make_value_options())[k],
        ),
    ensures
        spec_segment_runs_suite(words),
{
    let found = spec_operands(spec_arguments_of(words, "make"@)->0, make_value_options());
    assert(suite_targets().contains(found[k]));
    assert(has_suite_target(found));
}

/// `make` followed by plain operands, after words that do not name `make`,
/// runs the suite when any of those operands is `test` or `all`, at any
/// position: `make lint test` runs it as `make test lint` does.
pub proof fn law_make_target_at_any_position(
    before: Seq<Seq<char>>,
    targets: Seq<Seq<char>>,
    k: int,
)
    requires
        forall|j: int| 0 <= j < before.len() ==> !names_program(#[trigger] before[j], "make"@),
        forall|j: int| 0 <= j < targets.len() ==> spec_is_operand(#[trigger] targets[j]),
        0 <= k < targets.len(),
        suite_targets().contains(targets[k]),
    ensures
        spec_segment_runs_suite(before + seq!["make"@] + targets),
{
    let words = before + seq!["make"@] + targets;
    let at = before.len() as int;
    assert(words[at] == "make"@);
    assert forall|j: int| 0 <= j < at implies !names_program(#[trigger] words[j], "make"@) by {
        assert(words[j] == before[j]);
    }
    lemma_program_after(words, "make"@, at, 0);
    assert(words.subrange(at + 1, words.len() as int) =~= targets);
    assert forall|j: int| 0 <= j < make_value_options().len() implies !spec_is_operand(
        #[trigger] make_value_options()[j],
    ) by {
        lemma_make_value_option_is_not_operand(make_value_options()[j]);
    }
    lemma_operands_of_operands(targets, make_value_options(), 0);
    assert(targets.subrange(0, targets.len() as int) =~= targets);
    assert(spec_operands(targets, make_value_options()) == targets);
    law_make_runs_suite_with_any_target(words, k);
}

/// The header line that opens the job `name`.
pub open spec fn header_line(name: Seq<char>) -> Seq<char> {
    "  "@ + name + ":"@
}

/// The lines a job was read from: its header line, then its own lines.
pub open spec fn job_source(job: JobView) -> Seq<Seq<char>> {
    seq![header_line(job.name)] + job.lines
}

/// The lines a sequence of jobs was read from, job after job.
pub open spec fn jobs_source(jobs: Seq<JobView>) -> Seq<Seq<char>> {
    jobs.map_values(|job: JobView| job_source(job)).flatten()
}

/// A job header line is the header line of the job it names.
proof fn lemma_header_line(line: Seq<char>)
    requires
        spec_job_header(line) is Some,
    ensures
        line == header_line(spec_job_header(line)->0),
{
    let indent = "  "@;
    let colon = ":"@;
    let rest = line.subrange(indent.len() as int, line.len() as int);
    let name = spec_job_header(line)->0;
    assert(starts_with(line, indent));
    assert(line.subrange(0, indent.len() as int) == indent);
    assert(strip_prefix(line, indent) == Some(rest));
    assert(ends_with(rest, colon));
    assert(rest.subrange(rest.len() - colon.len(), rest.len() as int) == colon);
    assert(name == rest.subrange(0, rest.len() - colon.len()));
    assert(line =~= "  "@ + name + ":"@);
}

proof fn lemma_jobs_source_push(done: Seq<JobView>, job: JobView)
    ensures
        jobs_source(done.push(job)) == jobs_source(done) + job_source(job),
{
    let r = |job: JobView| job_source(job);
    assert(done.push(job).map_values(r) =~= done.map_values(r).push(job_source(job)));
    done.map_values(r).lemma_flatten_push(job_source(job));
}

proof fn lemma_section_source(
    lines: Seq<Seq<char>>,
    i: int,
    done: Seq<JobView>,
    current: JobView,
)
    requires
        0 <= i <= lines.len(),
        forall|j: int| i <= j < lines.len() ==> !opens_section(#[trigger] lines[j]),
    ensures
        jobs_source(jobs_from(lines, i, true, done, Some(current))) == jobs_source(done)
            + job_source(current) + lines.subrange(i, lines.len() as int),
    decreases lines.len() - i,
{
    if i == lines.len() {
        lemma_jobs_source_push(done, current);
        assert(lines.subrange(i, lines.len() as int) =~= Seq::<Seq<char>>::empty());
        assert(jobs_source(done) + job_source(current) + Seq::<Seq<char>>::empty() =~= jobs_source(
            done,
        ) + job_source(current));
    } else {
        let line = lines[i];
        assert(!opens_section(line));
        let after = lines.subrange(i + 1, lines.len() as int);
        assert(lines.subrange(i, lines.len() as int) =~= seq![line] + after);
        match spec_job_header(line) {
            Some(name) => {
                let opened = JobView { name, lines: seq![] };
                lemma_section_source(lines, i + 1, done.push(current), opened);
                lemma_jobs_source_push(done, current);
                lemma_header_line(line);
                assert(job_source(opened) =~= seq![line]);
                assert(jobs_source(done) + job_source(current) + job_source(opened) + after
                    =~= jobs_source(done) + job_source(current) + (seq![line] + after));
            },
            None => {
                let grown = JobView { name: current.name, lines: current.lines.push(line) };
                lemma_section_source(lines, i + 1, done, grown);
                assert(job_source(grown) =~= job_source(current).push(line));
                assert(jobs_source(done) + job_source(grown) + after =~= jobs_source(done)
                    + job_source(current) + (seq![line] + after));
            },
        }
    }
}

/// A workflow whose first line is the `jobs:` section, whose second line
/// is a job header and whose other lines open no section is split into
/// jobs without losing, repeating or reordering a line: each job's header
/// line followed by its lines, job after job, gives back the section.
pub proof fn law_jobs_partition_the_section(
    workflow: Seq<char>,
    first: Seq<char>,
    body: Seq<Seq<char>>,
)
    requires
        lines(workflow) == seq![first] + body,
        opens_section(first),
        trim_end(first) == "jobs:"@,
        body.len() > 0,
        spec_job_header(body[0]) is Some,
        forall|j: int| 0 <= j < body.len() ==> !opens_section(#[trigger] body[j]),
    ensures
        jobs_source(spec_jobs(workflow)) == body,
{
    let all = seq![first] + body;
    assert(all[0] == first);
    assert(all[1] == body[0]);
    assert forall|j: int| 1 <= j < all.len() implies !opens_section(#[trigger] all[j]) by {
        assert(all[j] == body[j - 1]);
    }
    let name = spec_job_header(body[0])->0;
    let opened = JobView { name, lines: seq![] };
    assert(spec_jobs(workflow) == jobs_from(all, 1, true, seq![], None));
    assert(jobs_from(all, 1, true, seq![], None) == jobs_from(all, 2, true, seq![], Some(opened)));
    lemma_section_source(all, 2, seq![], opened);
    lemma_header_line(body[0]);
    assert(jobs_source(Seq::<JobView>::empty()) =~= Seq::<Seq<char>>::empty());
    assert(job_source(opened) =~= seq![body[0]]);
    assert(all.subrange(2, all.len() as int) =~= body.subrange(1, body.len() as int));
    assert(Seq::<Seq<char>>::empty() + seq![body[0]] + body.subrange(1, body.len() as int) =~= body);
}

/// `cargo` followed by plain operands, after words that do not name
/// `cargo`, runs the suite when its first operand is `test`, `nextest` or
/// `llvm-cov`, whatever operands follow.
pub proof fn law_cargo_subcommand_runs_suite(
    before: Seq<Seq<char>>,
    subcommand: Seq<char>,
    rest: Seq<Seq<char>>,
)
    requires
        forall|j: int| 0 <= j < before.len() ==> !names_program(#[trigger] before[j], "cargo"@),
        suite_subcommands().contains(subcommand),
        spec_is_operand(subcommand),
        forall|j: int| 0 <= j < rest.len() ==> spec_is_operand(#[trigger] rest[j]),
    ensures
        spec_segment_runs_suite(before + seq!["cargo"@] + (seq![subcommand] + rest)),
{
    let arguments = seq![subcommand] + rest;
    let words = before + seq!["cargo"@] + arguments;
    let at = before.len() as int;
    assert(words[at] == "cargo"@);
    assert forall|j: int| 0 <= j < at implies !names_program(#[trigger] words[j], "cargo"@) by {
        assert(words[j] == before[j]);
    }
    lemma_program_after(words, "cargo"@, at, 0);
    assert(words.subrange(at + 1, words.len() as int) =~= arguments);
    assert forall|j: int| 0 <= j < arguments.len() implies spec_is_operand(
        #[trigger] arguments[j],
    ) by {
        if j > 0 {
            assert(arguments[j] == rest[j - 1]);
        }
    }
    assert forall|j: int| 0 <= j < cargo_value_options().len() implies !spec_is_operand(
        #[trigger] cargo_value_options()[j],
    ) by {
        lemma_cargo_value_option_is_not_operand(cargo_value_options()[j]);
    }
    lemma_operands_of_operands(arguments, cargo_value_options(), 0);
    assert(arguments.subrange(0, arguments.len() as int) =~= arguments);
    assert(spec_operands(arguments, cargo_value_options())[0] == subcommand);
}

} // verus!
