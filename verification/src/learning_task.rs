//! The training that runs in the background: one at a time, saved as it goes, taken up again
//! after a stop.

use vstd::prelude::*;
use vstd::string::*;
use crate::prob_reasoner::Fraction;
use crate::table::{fresh_uuid, hyphenated};
use crate::text::{decimal, push_decimal, same_text};
use crate::training::Progress;

verus! {

/// How a training learns.
#[derive(Clone, Copy, Debug, PartialEq, Eq, Structural)]
pub enum TrainingMode {
    SelfPlay,
    Genetic,
    Record,
    FromLogs,
}

/// The mode that a text names; self-play where it names none.
pub open spec fn mode_named(text: Seq<char>) -> TrainingMode {
    if text == "genetic"@ {
        TrainingMode::Genetic
    } else if text == "record"@ {
        TrainingMode::Record
    } else if text == "fromlogs"@ {
        TrainingMode::FromLogs
    } else {
        TrainingMode::SelfPlay
    }
}

/// The mode that a text names.
pub fn training_mode(text: &str) -> (mode: TrainingMode)
    ensures
        mode == mode_named(text@),
{
    if same_text(text, "genetic") {
        TrainingMode::Genetic
    } else if same_text(text, "record") {
        TrainingMode::Record
    } else if same_text(text, "fromlogs") {
        TrainingMode::FromLogs
    } else {
        TrainingMode::SelfPlay
    }
}

/// The mode of a saved training that names none.
pub fn default_mode() -> (mode: String)
    ensures
        mode@ == "selfplay"@,
        mode_named(mode@) == TrainingMode::SelfPlay,
{
    proof {
        reveal_strlit("selfplay");
        reveal_strlit("genetic");
        reveal_strlit("record");
        reveal_strlit("fromlogs");
        assert("selfplay"@.len() == 8 && "genetic"@.len() == 7 && "record"@.len() == 6);
        assert("selfplay"@[0] == 's' && "fromlogs"@[0] == 'f');
    }
    "selfplay".to_owned()
}

/// The population of a saved training that names none.
pub fn default_population() -> (n: usize)
    ensures
        n == 8,
{
    8
}

/// A training, running or stopped.
#[derive(Debug)]
pub struct LearningTask {
    pub job_id: String,
    pub matches_per_eval: u32,
    pub iterations: u32,
    pub output_path: String,
    pub started_at: u64,
    pub current_iteration: u32,
    pub matches_completed: u64,
    pub current_eval_score: Fraction,
    pub best_score: Fraction,
    pub status_message: String,
    pub is_running: bool,
    pub mode: String,
    pub population_size: usize,
}

/// A training as it is saved.
#[derive(Debug)]
pub struct SavedLearningState {
    pub job_id: String,
    pub matches_per_eval: u32,
    pub iterations: u32,
    pub output_path: String,
    pub current_iteration: u32,
    pub matches_completed: u64,
    pub current_eval_score: Fraction,
    pub best_score: Fraction,
    pub status_message: String,
    pub mode: String,
    pub population_size: usize,
}

/// What is told of the training.
#[derive(Debug)]
pub struct LearningStatus {
    pub is_running: bool,
    pub job_id: Option<String>,
    pub progress: Fraction,
    pub current_iteration: u32,
    pub total_iterations: u32,
    pub current_eval_score: Fraction,
    pub best_score: Fraction,
    pub matches_completed: u64,
    pub matches_total: u64,
    pub start_time: Option<String>,
    pub elapsed_seconds: u64,
    pub status_message: String,
    pub params_path: Option<String>,
}

/// What is asked of a new training.
#[derive(Debug)]
pub struct LearningRequest {
    pub matches_per_eval: u32,
    pub iterations: u32,
    pub output_path: String,
    pub mode: String,
    pub population_size: usize,
}

/// What was found where a training is saved.
#[derive(Debug)]
pub enum SavedFile {
    Missing,
    Unreadable { reason: String },
    Malformed { reason: String },
    Found { state: SavedLearningState },
}

/// What is to be done to the saved training.
#[derive(Debug)]
pub enum FileChange {
    Keep,
    Write { state: SavedLearningState },
    Remove,
}

/// The training, if there is one, and how many have been started.
#[derive(Debug)]
pub struct TaskManager {
    pub task: Option<LearningTask>,
    pub generation: u64,
}

/// A task and its saved form say the same.
pub open spec fn saves(saved: SavedLearningState, task: LearningTask) -> bool {
    &&& saved.job_id@ == task.job_id@
    &&& saved.matches_per_eval == task.matches_per_eval
    &&& saved.iterations == task.iterations
    &&& saved.output_path@ == task.output_path@
    &&& saved.current_iteration == task.current_iteration
    &&& saved.matches_completed == task.matches_completed
    &&& saved.current_eval_score == task.current_eval_score
    &&& saved.best_score == task.best_score
    &&& saved.status_message@ == task.status_message@
    &&& saved.mode@ == task.mode@
    &&& saved.population_size == task.population_size
}

/// A task holds the progress of a saved one.
pub open spec fn continues(task: LearningTask, saved: SavedLearningState) -> bool {
    &&& task.job_id == saved.job_id
    &&& task.output_path == saved.output_path
    &&& task.current_iteration == saved.current_iteration
    &&& task.matches_completed == saved.matches_completed
    &&& task.current_eval_score == saved.current_eval_score
    &&& task.best_score == saved.best_score
}

/// A task has the settings of a request.
pub open spec fn as_asked(task: LearningTask, request: LearningRequest) -> bool {
    &&& task.matches_per_eval == request.matches_per_eval
    &&& task.iterations == request.iterations
    &&& task.mode == request.mode
    &&& task.population_size == request.population_size
}

/// Whether a training runs.
pub open spec fn running(tasks: TaskManager) -> bool {
    tasks.task matches Some(t) && t.is_running
}

pub open spec fn no_score() -> Fraction {
    Fraction { num: 0, den: 1 }
}

/// A text with another before it.
fn headed(head: &str, text: &str) -> (out: String)
    ensures
        out@ == head@ + text@,
{
    let mut out: String = head.to_owned();
    out.append(text);
    out
}

/// The form in which a task is saved.
pub fn save_state(task: &LearningTask) -> (saved: SavedLearningState)
    ensures
        saves(saved, *task),
{
    SavedLearningState {
        job_id: task.job_id.clone(),
        matches_per_eval: task.matches_per_eval,
        iterations: task.iterations,
        output_path: task.output_path.clone(),
        current_iteration: task.current_iteration,
        matches_completed: task.matches_completed,
        current_eval_score: task.current_eval_score,
        best_score: task.best_score,
        status_message: task.status_message.clone(),
        mode: task.mode.clone(),
        population_size: task.population_size,
    }
}

/// Starts without a training, or with the saved one, stopped.
pub fn init_task_manager(saved: Option<SavedLearningState>, now: u64) -> (tasks: TaskManager)
    ensures
        tasks.generation == 0,
        !running(tasks),
        match saved {
            None => tasks.task is None,
            Some(s) => tasks.task matches Some(t) && continues(t, s) && t.matches_per_eval
                == s.matches_per_eval && t.iterations == s.iterations && t.mode == s.mode
                && t.population_size == s.population_size && t.started_at == now
                && t.status_message@ == "Recovered from previous session: "@ + s.status_message@,
        },
{
    let task: Option<LearningTask> = match saved {
        None => None,
        Some(s) => Some(
            LearningTask {
                status_message: headed(
                    "Recovered from previous session: ",
                    s.status_message.as_str(),
                ),
                job_id: s.job_id,
                matches_per_eval: s.matches_per_eval,
                iterations: s.iterations,
                output_path: s.output_path,
                started_at: now,
                current_iteration: s.current_iteration,
                matches_completed: s.matches_completed,
                current_eval_score: s.current_eval_score,
                best_score: s.best_score,
                is_running: false,
                mode: s.mode,
                population_size: s.population_size,
            },
        ),
    };
    TaskManager { task, generation: 0 }
}

/// How many trainings have been started.
pub fn current_generation(tasks: &TaskManager) -> (generation: u64)
    ensures
        generation == tasks.generation,
{
    tasks.generation
}

/// Whether a training runs.
pub fn is_running(tasks: &TaskManager) -> (b: bool)
    ensures
        b == running(*tasks),
{
    match &tasks.task {
        Some(t) => t.is_running,
        None => false,
    }
}

/// Whether the training of this generation still runs: no later one has been started, and nobody
/// has stopped it.
pub fn is_running_generation(tasks: &TaskManager, generation: u64) -> (b: bool)
    ensures
        b == (generation == tasks.generation && running(*tasks)),
{
    generation == tasks.generation && is_running(tasks)
}

/// The generation after another.
pub open spec fn next_generation(generation: u64) -> u64 {
    if generation == u64::MAX {
        0
    } else {
        (generation + 1) as u64
    }
}

/// The identifier of a training: a new one behind a tag.
pub open spec fn job_named(id: Seq<char>) -> bool {
    "learn_"@.is_prefix_of(id) && hyphenated(id.skip(6))
}

/// What a start is answered, and what it leaves behind.
pub open spec fn started(
    before: TaskManager,
    after: TaskManager,
    request: LearningRequest,
    file: SavedFile,
    now: u64,
    answer: Result<String, String>,
) -> bool {
    if running(before) {
        after == before && (answer matches Err(e) && e@ == "A learning task is already running"@)
    } else {
        &&& after.generation == next_generation(before.generation)
        &&& match file {
            SavedFile::Unreadable { reason } => after.task == before.task && (answer matches Err(e)
                && e@ == "Failed to read saved state: "@ + reason@),
            SavedFile::Malformed { reason } => after.task == before.task && (answer matches Err(e)
                && e@ == "Failed to parse saved state: "@ + reason@),
            SavedFile::Found { state } => (answer matches Ok(id) && id@ == state.job_id@) && (
            after.task matches Some(t) && continues(t, state) && as_asked(t, request)
                && t.is_running && t.started_at == now && t.status_message@
                == "Resuming from saved progress..."@),
            SavedFile::Missing => (after.task matches Some(t) && as_asked(t, request)
                && t.is_running && t.started_at == now && t.output_path == request.output_path
                && t.current_iteration == 0 && t.matches_completed == 0 && t.current_eval_score
                == no_score() && t.best_score == no_score() && t.status_message@
                == "Starting learning..."@ && job_named(t.job_id@) && (
            answer matches Ok(id) && id@ == t.job_id@)),
        }
    }
}

/// Starts a training, unless one runs. Where one was saved, the new one has the settings asked
/// for and goes on from the saved progress.
pub fn start_learning(tasks: &mut TaskManager, request: LearningRequest, file: SavedFile, now: u64) -> (answer:
    Result<String, String>)
    ensures
        started(*old(tasks), *final(tasks), request, file, now, answer),
{
    if is_running(tasks) {
        return Err("A learning task is already running".to_owned());
    }
    tasks.generation = if tasks.generation == u64::MAX {
        0
    } else {
        tasks.generation + 1
    };
    match file {
        SavedFile::Unreadable { reason } => Err(
            headed("Failed to read saved state: ", reason.as_str()),
        ),
        SavedFile::Malformed { reason } => Err(
            headed("Failed to parse saved state: ", reason.as_str()),
        ),
        SavedFile::Found { state } => {
            let job_id = state.job_id.clone();
            tasks.task = Some(
                LearningTask {
                    job_id: state.job_id,
                    matches_per_eval: request.matches_per_eval,
                    iterations: request.iterations,
                    output_path: state.output_path,
                    started_at: now,
                    current_iteration: state.current_iteration,
                    matches_completed: state.matches_completed,
                    current_eval_score: state.current_eval_score,
                    best_score: state.best_score,
                    status_message: "Resuming from saved progress...".to_owned(),
                    is_running: true,
                    mode: request.mode,
                    population_size: request.population_size,
                },
            );
            Ok(job_id)
        },
        SavedFile::Missing => {
            let fresh = fresh_uuid();
            let job_id = headed("learn_", fresh.as_str());
            proof {
                reveal_strlit("learn_");
                assert("learn_"@.is_prefix_of(job_id@));
                assert(job_id@.skip(6) =~= fresh@);
            }
            let answer = job_id.clone();
            tasks.task = Some(
                LearningTask {
                    job_id,
                    matches_per_eval: request.matches_per_eval,
                    iterations: request.iterations,
                    output_path: request.output_path,
                    started_at: now,
                    current_iteration: 0,
                    matches_completed: 0,
                    current_eval_score: Fraction { num: 0, den: 1 },
                    best_score: Fraction { num: 0, den: 1 },
                    status_message: "Starting learning...".to_owned(),
                    is_running: true,
                    mode: request.mode,
                    population_size: request.population_size,
                },
            );
            Ok(answer)
        },
    }
}

/// How far a training has come.
#[derive(Debug)]
pub struct ProgressReport {
    pub iteration: u32,
    pub matches_done: u64,
    pub eval_score: Fraction,
    pub best_score: Fraction,
    pub message: String,
}

/// Takes in a report of progress; a stopped training takes none.
pub fn update_progress(tasks: &mut TaskManager, report: ProgressReport) -> (change: FileChange)
    ensures
        final(tasks).generation == old(tasks).generation,
        !running(*old(tasks)) ==> *final(tasks) == *old(tasks) && change is Keep,
        running(*old(tasks)) ==> {
            &&& final(tasks).task == Some(
                LearningTask {
                    current_iteration: report.iteration,
                    matches_completed: report.matches_done,
                    current_eval_score: report.eval_score,
                    best_score: report.best_score,
                    status_message: report.message,
                    ..old(tasks).task->Some_0
                },
            )
            &&& change matches FileChange::Write { state } && saves(
                state,
                final(tasks).task->Some_0,
            )
        },
{
    let mut task: Option<LearningTask> = None;
    std::mem::swap(&mut task, &mut tasks.task);
    match task {
        Some(mut t) => {
            if !t.is_running {
                tasks.task = Some(t);
                return FileChange::Keep;
            }
            t.current_iteration = report.iteration;
            t.matches_completed = report.matches_done;
            t.current_eval_score = report.eval_score;
            t.best_score = report.best_score;
            t.status_message = report.message;
            let state = save_state(&t);
            tasks.task = Some(t);
            FileChange::Write { state }
        },
        None => FileChange::Keep,
    }
}

/// Ends the training. One that failed stays saved; one that succeeded does not.
pub fn finish_learning(tasks: &mut TaskManager, success: bool, message: &str) -> (change: FileChange)
    ensures
        final(tasks).task is None,
        final(tasks).generation == old(tasks).generation,
        match old(tasks).task {
            None => change is Keep,
            Some(t) => if success {
                change is Remove
            } else {
                change matches FileChange::Write { state } && state.status_message@
                    == "Learning failed: "@ + message@ && saves(
                    state,
                    LearningTask { status_message: state.status_message, ..t },
                )
            },
        },
{
    let mut task: Option<LearningTask> = None;
    std::mem::swap(&mut task, &mut tasks.task);
    match task {
        Some(mut t) => {
            if success {
                FileChange::Remove
            } else {
                t.status_message = headed("Learning failed: ", message);
                FileChange::Write { state: save_state(&t) }
            }
        },
        None => FileChange::Keep,
    }
}

/// Stops the training, which stays saved and can be taken up again.
pub fn stop_learning(tasks: &mut TaskManager) -> (answer: Result<(String, SavedLearningState), String>)
    ensures
        final(tasks).generation == old(tasks).generation,
        !running(*final(tasks)),
        match old(tasks).task {
            None => *final(tasks) == *old(tasks) && (answer matches Err(e) && e@
                == "No learning task is running"@),
            Some(t) => {
                &&& final(tasks).task matches Some(s) && s.status_message@
                    == "Learning stopped by user"@ && s == (LearningTask {
                    is_running: false,
                    status_message: s.status_message,
                    ..t
                }) && (answer matches Ok((text, saved)) && text@ == "Learning task "@ + t.job_id@
                    + " stopped"@ && saves(saved, s))
            },
        },
{
    let mut task: Option<LearningTask> = None;
    std::mem::swap(&mut task, &mut tasks.task);
    match task {
        None => Err("No learning task is running".to_owned()),
        Some(mut t) => {
            t.is_running = false;
            t.status_message = "Learning stopped by user".to_owned();
            let saved = save_state(&t);
            let mut text = headed("Learning task ", t.job_id.as_str());
            text.append(" stopped");
            tasks.task = Some(t);
            Ok((text, saved))
        },
    }
}

/// Seconds from one time in milliseconds to another.
pub open spec fn seconds_since(start: u64, now: u64) -> u64 {
    if now >= start {
        ((now - start) / 1000) as u64
    } else {
        0
    }
}

/// What is told of a training.
pub open spec fn status_tells(status: LearningStatus, t: LearningTask, now: u64) -> bool {
    let total = t.matches_per_eval * t.iterations;
    &&& status.is_running == t.is_running
    &&& status.job_id matches Some(id) && id@ == t.job_id@
    &&& status.progress == if total > 0 {
        Fraction { num: t.matches_completed as i128, den: total as i128 }
    } else {
        no_score()
    }
    &&& status.current_iteration == t.current_iteration
    &&& status.total_iterations == t.iterations
    &&& status.current_eval_score == t.current_eval_score
    &&& status.best_score == t.best_score
    &&& status.matches_completed == t.matches_completed
    &&& status.matches_total == total
    &&& status.start_time matches Some(text) && text@ == decimal(
        seconds_since(t.started_at, now) as nat,
    )
    &&& status.elapsed_seconds == seconds_since(t.started_at, now)
    &&& status.status_message@ == t.status_message@
    &&& status.params_path matches Some(path) && path@ == t.output_path@
}

/// Tells how the training stands.
pub fn get_status(tasks: &TaskManager, now: u64) -> (status: LearningStatus)
    ensures
        match tasks.task {
            Some(t) => status_tells(status, t, now),
            None => !status.is_running && status.job_id is None && status.progress == no_score()
                && status.current_iteration == 0 && status.total_iterations == 0
                && status.current_eval_score == no_score() && status.best_score == no_score()
                && status.matches_completed == 0 && status.matches_total == 0
                && status.start_time is None && status.elapsed_seconds == 0
                && status.status_message@ == "No learning task running"@ && status.params_path is None,
        },
{
    match &tasks.task {
        Some(t) => {
            let elapsed: u64 = if now >= t.started_at {
                (now - t.started_at) / 1000
            } else {
                0
            };
            proof {
                assert(0 <= t.matches_per_eval * t.iterations <= u32::MAX * u32::MAX)
                    by (nonlinear_arith)
                    requires
                        t.matches_per_eval <= u32::MAX,
                        t.iterations <= u32::MAX,
                ;
            }
            let total: u64 = t.matches_per_eval as u64 * t.iterations as u64;
            let mut since: String = String::new();
            push_decimal(&mut since, elapsed);
            assert(since@ =~= decimal(elapsed as nat));
            LearningStatus {
                is_running: t.is_running,
                job_id: Some(t.job_id.clone()),
                progress: if total > 0 {
                    Fraction { num: t.matches_completed as i128, den: total as i128 }
                } else {
                    Fraction { num: 0, den: 1 }
                },
                current_iteration: t.current_iteration,
                total_iterations: t.iterations,
                current_eval_score: t.current_eval_score,
                best_score: t.best_score,
                matches_completed: t.matches_completed,
                matches_total: total,
                start_time: Some(since),
                elapsed_seconds: elapsed,
                status_message: t.status_message.clone(),
                params_path: Some(t.output_path.clone()),
            }
        },
        None => LearningStatus {
            is_running: false,
            job_id: None,
            progress: Fraction { num: 0, den: 1 },
            current_iteration: 0,
            total_iterations: 0,
            current_eval_score: Fraction { num: 0, den: 1 },
            best_score: Fraction { num: 0, den: 1 },
            matches_completed: 0,
            matches_total: 0,
            start_time: None,
            elapsed_seconds: 0,
            status_message: "No learning task running".to_owned(),
            params_path: None,
        },
    }
}

/// Whether a saved training is taken up when the server starts: where it has not come to its
/// end. Then the request that takes it up has its own settings.
pub fn auto_resume(saved: &SavedLearningState) -> (request: Option<LearningRequest>)
    ensures
        match request {
            Some(r) => saved.current_iteration < saved.iterations && r.matches_per_eval
                == saved.matches_per_eval && r.iterations == saved.iterations && r.output_path@
                == saved.output_path@ && r.mode@ == saved.mode@ && r.population_size
                == saved.population_size,
            None => saved.current_iteration >= saved.iterations,
        },
{
    if saved.current_iteration >= saved.iterations {
        return None;
    }
    Some(
        LearningRequest {
            matches_per_eval: saved.matches_per_eval,
            iterations: saved.iterations,
            output_path: saved.output_path.clone(),
            mode: saved.mode.clone(),
            population_size: saved.population_size,
        },
    )
}

/// Where a saved training says to go on from.
pub fn saved_progress(saved: &SavedLearningState) -> (progress: Progress)
    ensures
        progress == (Progress {
            iteration: saved.current_iteration,
            matches_done: saved.matches_completed,
            best_score: saved.best_score,
        }),
{
    Progress {
        iteration: saved.current_iteration,
        matches_done: saved.matches_completed,
        best_score: saved.best_score,
    }
}

/// A training that has been superseded never counts as running again: once a later one has been
/// started, the earlier generation is not the current one, whatever the answer was.
pub proof fn superseded_training_stops(
    before: TaskManager,
    after: TaskManager,
    request: LearningRequest,
    file: SavedFile,
    now: u64,
    answer: Result<String, String>,
)
    requires
        !running(before),
        started(before, after, request, file, now, answer),
    ensures
        after.generation != before.generation,
        answer is Ok <==> running(after),
{
    if answer is Err {
        assert(after.task == before.task);
    }
}

/// What was stopped is taken up where it was: starting again from what a stop has saved goes on
/// with the same job, file, iteration, matches and scores.
pub proof fn stopped_training_resumes(
    stopped: LearningTask,
    saved: SavedLearningState,
    before: TaskManager,
    after: TaskManager,
    request: LearningRequest,
    now: u64,
    answer: Result<String, String>,
)
    requires
        saves(saved, stopped),
        !running(before),
        started(before, after, request, SavedFile::Found { state: saved }, now, answer),
    ensures
        after.task matches Some(t) && t.is_running && t.job_id@ == stopped.job_id@
            && t.output_path@ == stopped.output_path@ && t.current_iteration
            == stopped.current_iteration && t.matches_completed == stopped.matches_completed
            && t.best_score == stopped.best_score,
{
}

/// Time is told in whole seconds, and none has passed before the start.
pub proof fn whole_seconds_are_told(start: u64, now: u64)
    ensures
        now >= start ==> 1000 * seconds_since(start, now) <= now - start < 1000 * seconds_since(
            start,
            now,
        ) + 1000,
        now < start ==> seconds_since(start, now) == 0,
{
}

/// A start is refused while a training runs, and then changes nothing; otherwise every start, even
/// one that fails, counts, so that an earlier training stops.
pub proof fn one_training_runs_at_a_time(
    before: TaskManager,
    after: TaskManager,
    request: LearningRequest,
    file: SavedFile,
    now: u64,
    answer: Result<String, String>,
)
    requires
        started(before, after, request, file, now, answer),
    ensures
        (before.task matches Some(t) && t.is_running) ==> answer is Err && after == before,
        !(before.task matches Some(t) && t.is_running) ==> (answer is Ok <==> file is Missing
            || file is Found),
        answer is Ok ==> (after.task matches Some(t) && t.is_running && t.matches_per_eval
            == request.matches_per_eval && t.iterations == request.iterations && t.started_at == now),
        answer is Ok && file is Missing ==> (after.task matches Some(t) && t.current_iteration == 0
            && t.matches_completed == 0),
{
}

} // verus!
