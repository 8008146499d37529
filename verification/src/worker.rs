//! The local transcription worker: a Python process that reads one JSON
//! request per line on its input and answers with one JSON object per line.
//! This module writes the requests, reads the answers, and decides how the
//! worker is started and restarted.

use vstd::prelude::*;
use crate::language::{local_language, local_language_code};
use crate::text::{has_char, same_text, trim, trimmed, views};
use crate::json::{json_bool, json_bool_field, json_compact, json_error, json_parse_failure, json_quote, json_rendering, json_string_literal, json_text, json_text_field};
use crate::transcribe::{transcript_from, transcript_of, Engine, TranscriptResult};

verus! {

/// The request object with the given JSON string literals as its
/// `audioFile` and `language` members, written compactly.
pub open spec fn request_object(file_literal: Seq<char>, language_literal: Seq<char>) -> Seq<char> {
    "{\"audioFile\":"@ + file_literal + ",\"language\":"@ + language_literal + "}"@
}

/// The request line for transcribing the recording in `audio_file`.
pub open spec fn request_line(audio_file: Seq<char>, language: Seq<char>) -> Seq<char> {
    request_object(json_string_literal(audio_file), json_string_literal(local_language(language)))
}

/// The request line names the recording's file and, as its language, the
/// code the local engine gets for the setting, written as JSON strings.
pub proof fn law_request_names_the_local_code(audio_file: Seq<char>, language: Seq<char>)
    ensures
        request_line(audio_file, language) == "{\"audioFile\":"@ + json_string_literal(audio_file)
            + ",\"language\":"@ + json_string_literal(local_language(language)) + "}"@,
        !has_char(local_language(language), '-') && !has_char(local_language(language), '_'),
{
    crate::language::law_local_code_is_a_primary_subtag(language);
}

/// Writes the request object from the JSON string literals of its members.
pub fn request_from_literals(file_literal: &str, language_literal: &str) -> (r: String)
    ensures
        r@ == request_object(file_literal@, language_literal@),
{
    let mut line = String::from_str("{\"audioFile\":");
    line.append(file_literal);
    line.append(",\"language\":");
    line.append(language_literal);
    line.append("}");
    line
}

/// Writes the request that asks the worker to transcribe `audio_file`, in
/// the worker's language code for the setting `language`.
pub fn worker_request(audio_file: &str, language: &str) -> (r: String)
    ensures
        r@ == request_line(audio_file@, language@),
{
    let code = local_language_code(language);
    let file = json_quote(audio_file);
    let quoted = json_quote(code.as_str());
    request_from_literals(file.as_str(), quoted.as_str())
}

/// The error when the worker's output ends.
pub open spec fn worker_exit_message() -> Seq<char> {
    "Local transcription worker exited unexpectedly."@
}

/// The JSON document in a line the worker wrote (of `bytes_read` bytes): the
/// trimmed line, where it parses.
pub open spec fn answer_document(line: Seq<char>, bytes_read: nat) -> Result<Seq<char>, Seq<char>> {
    if bytes_read == 0 {
        Err(worker_exit_message())
    } else {
        match json_parse_failure(trimmed(line)) {
            Some(e) => Err(e),
            None => Ok(trimmed(line)),
        }
    }
}

/// Reads one answer line of `bytes_read` bytes: no bytes mean the worker
/// exited; otherwise the trimmed line must be a JSON document.
pub fn read_json_line(line: &str, bytes_read: usize) -> (r: Result<String, String>)
    ensures
        match r {
            Ok(doc) => answer_document(line@, bytes_read as nat) == Ok::<Seq<char>, Seq<char>>(doc@),
            Err(e) => answer_document(line@, bytes_read as nat) == Err::<Seq<char>, Seq<char>>(e@),
        },
{
    if bytes_read == 0 {
        return Err(String::from_str("Local transcription worker exited unexpectedly."));
    }
    let doc = trim(line);
    match json_error(doc) {
        Some(e) => Err(e),
        None => Ok(String::from_str(doc)),
    }
}

/// The error for a startup answer that does not report readiness.
pub open spec fn unexpected_startup(rendered: Seq<char>) -> Seq<char> {
    "Local worker returned unexpected startup response: "@ + rendered
}

/// Judges the worker's first answer from its `ready` field: only `true`
/// means the worker is ready; the error quotes the whole answer.
pub fn ready_outcome(ready: Option<bool>, response: &str) -> (r: Result<(), String>)
    ensures
        ready == Some(true) ==> r is Ok,
        ready != Some(true) ==> (r matches Err(e) && e@ == unexpected_startup(response@)),
{
    if let Some(true) = ready {
        Ok(())
    } else {
        let mut message = String::from_str("Local worker returned unexpected startup response: ");
        message.append(response);
        Err(message)
    }
}

/// What the worker's first line says: ready, or why not.
pub open spec fn startup_result(line: Seq<char>, bytes_read: nat) -> Result<(), Seq<char>> {
    match answer_document(line, bytes_read) {
        Err(e) => Err(e),
        Ok(doc) => if json_bool_field(doc, "ready"@) == Some(true) {
            Ok(())
        } else {
            Err(unexpected_startup(json_compact(doc)))
        },
    }
}

/// Reads the worker's first line, which must report that it is ready.
pub fn read_ready(line: &str, bytes_read: usize) -> (r: Result<(), String>)
    ensures
        match r {
            Ok(()) => startup_result(line@, bytes_read as nat) is Ok,
            Err(e) => startup_result(line@, bytes_read as nat) == Err::<(), Seq<char>>(e@),
        },
{
    let doc = match read_json_line(line, bytes_read) {
        Ok(doc) => doc,
        Err(e) => return Err(e),
    };
    let ready = json_bool(doc.as_str(), "ready");
    let rendered = json_rendering(doc.as_str());
    ready_outcome(ready, rendered.as_str())
}

/// The error for a successful answer without text.
pub open spec fn local_empty_message() -> Seq<char> {
    "Local transcription returned no text."@
}

/// What an answer with the given `ok`, `text` and `error` fields means.
pub open spec fn answer_result(ok: Option<bool>, text: Option<Seq<char>>, error: Option<Seq<char>>) -> Result<
    Seq<char>,
    Seq<char>,
> {
    if ok == Some(true) {
        transcript_from(text, local_empty_message())
    } else {
        Err(
            match error {
                Some(e) => e,
                None => "Local transcription failed."@,
            },
        )
    }
}

/// An answer gives a transcript exactly when its `ok` field is `true` and its
/// `text` field holds more than white space, and the transcript is that text
/// trimmed; an answer without `ok` true fails with its `error` text as it
/// stands, or with a general failure where it has none.
pub proof fn law_answer_is_read_from_its_fields(ok: Option<bool>, text: Option<Seq<char>>, error: Option<Seq<char>>)
    ensures
        answer_result(ok, text, error) is Ok <==> (ok == Some(true) && (text matches Some(t) && trimmed(t).len() > 0)),
        answer_result(ok, text, error) matches Ok(x) ==> (text matches Some(t) && x == trimmed(t)),
        (ok == Some(true) && (text matches Some(t) ==> trimmed(t).len() == 0)) ==> answer_result(ok, text, error)
            == Err::<Seq<char>, Seq<char>>("Local transcription returned no text."@),
        (ok != Some(true) && (error matches Some(e))) ==> answer_result(ok, text, error) == Err::<Seq<char>, Seq<char>>(error->0),
        ok != Some(true) && error is None ==> answer_result(ok, text, error) == Err::<Seq<char>, Seq<char>>(
            "Local transcription failed."@,
        ),
{
    if text is None {
        reveal_strlit("");
        assert(trimmed(Seq::<char>::empty()).len() == 0);
    }
}

/// Judges an answer to a transcription request: with `ok` true its trimmed
/// `text` is the transcript (a blank one is an error); otherwise its `error`
/// field, or a general failure, is the error.
pub fn answer_outcome(ok: Option<bool>, text: Option<String>, error: Option<String>) -> (r: Result<
    TranscriptResult,
    String,
>)
    ensures
        match r {
            Ok(t) => t.engine == Engine::Local && answer_result(ok, match text {
                Some(s) => Some(s@),
                None => None,
            }, match error {
                Some(s) => Some(s@),
                None => None,
            }) == Ok::<Seq<char>, Seq<char>>(t.text@),
            Err(e) => answer_result(ok, match text {
                Some(s) => Some(s@),
                None => None,
            }, match error {
                Some(s) => Some(s@),
                None => None,
            }) == Err::<Seq<char>, Seq<char>>(e@),
        },
{
    if let Some(true) = ok {
        transcript_of(text, Engine::Local, "Local transcription returned no text.")
    } else {
        match error {
            Some(e) => Err(e),
            None => Err(String::from_str("Local transcription failed.")),
        }
    }
}

/// What an answer line says of a transcription request.
pub open spec fn transcription_answer(line: Seq<char>, bytes_read: nat) -> Result<Seq<char>, Seq<char>> {
    match answer_document(line, bytes_read) {
        Err(e) => Err(e),
        Ok(doc) => answer_result(
            json_bool_field(doc, "ok"@),
            json_text_field(doc, "text"@),
            json_text_field(doc, "error"@),
        ),
    }
}

/// Reads the worker's answer to a transcription request.
pub fn read_transcript(line: &str, bytes_read: usize) -> (r: Result<TranscriptResult, String>)
    ensures
        match r {
            Ok(t) => t.engine == Engine::Local && transcription_answer(line@, bytes_read as nat)
                == Ok::<Seq<char>, Seq<char>>(t.text@),
            Err(e) => transcription_answer(line@, bytes_read as nat) == Err::<Seq<char>, Seq<char>>(e@),
        },
{
    let doc = match read_json_line(line, bytes_read) {
        Ok(doc) => doc,
        Err(e) => return Err(e),
    };
    let ok = json_bool(doc.as_str(), "ok");
    let text = json_text(doc.as_str(), "text");
    let error = json_text(doc.as_str(), "error");
    answer_outcome(ok, text, error)
}

/// What to do next with the worker while transcribing one recording.
#[derive(Debug)]
pub enum WorkerAction {
    /// Start a worker, then report with [`WorkerRetry::started`].
    Start,
    /// Send the request, then report with [`WorkerRetry::transcribed`].
    Transcribe,
    /// Stop the worker that failed and start a new one, then report with
    /// [`WorkerRetry::started`].
    Restart,
    /// Done, with this outcome.
    Finish(Result<TranscriptResult, String>),
}

/// How many transcription attempts were made for the recording so far, less
/// one: a worker that fails the first attempt is restarted once.
pub struct WorkerRetry {
    pub attempt: u32,
}

impl WorkerRetry {
    /// The retry state is within its two attempts.
    pub open spec fn valid(self) -> bool {
        self.attempt <= 1
    }

    /// Begins a transcription, starting a worker unless one is running.
    pub fn begin(worker_running: bool) -> (r: (WorkerRetry, WorkerAction))
        ensures
            r.0.attempt == 0,
            worker_running ==> r.1 is Transcribe,
            !worker_running ==> r.1 is Start,
    {
        (WorkerRetry { attempt: 0 }, if worker_running {
            WorkerAction::Transcribe
        } else {
            WorkerAction::Start
        })
    }

    /// Takes the outcome of starting a worker: a started worker is asked to
    /// transcribe; a worker that cannot be started ends the transcription
    /// with that error.
    pub fn started(self, outcome: Result<(), String>) -> (r: (WorkerRetry, WorkerAction))
        ensures
            r.0.attempt == self.attempt,
            outcome is Ok ==> r.1 is Transcribe,
            outcome matches Err(e) ==> (r.1 matches WorkerAction::Finish(Err(f)) && f@ == e@),
    {
        match outcome {
            Ok(()) => (self, WorkerAction::Transcribe),
            Err(e) => (self, WorkerAction::Finish(Err(e))),
        }
    }

    /// Takes the outcome of a transcription attempt: a transcript ends the
    /// transcription; a first failure restarts the worker for a second
    /// attempt; a second failure ends the transcription with its error.
    pub fn transcribed(self, outcome: Result<TranscriptResult, String>) -> (r: (WorkerRetry, WorkerAction))
        ensures
            self.valid() ==> r.0.valid(),
            outcome matches Ok(t) ==> (r.1 matches WorkerAction::Finish(Ok(u)) && u.text@ == t.text@
                && u.engine == t.engine),
            outcome is Err && self.attempt == 0 ==> r.1 is Restart && r.0.attempt == 1,
            self.attempt >= 1 ==> (outcome matches Err(e) ==> (r.1 matches WorkerAction::Finish(Err(f))
                && f@ == e@)),
    {
        match outcome {
            Ok(t) => (self, WorkerAction::Finish(Ok(t))),
            Err(e) => if self.attempt == 0 {
                (WorkerRetry { attempt: 1 }, WorkerAction::Restart)
            } else {
                (self, WorkerAction::Finish(Err(e)))
            },
        }
    }
}

/// The programs tried, in order, to run the worker script.
pub open spec fn python_runner(i: int) -> Seq<char> {
    if i == 0 {
        "py"@
    } else {
        "python"@
    }
}

/// The arguments with which `runner` starts the worker script.
pub open spec fn runner_args(runner: Seq<char>, script: Seq<char>) -> Seq<Seq<char>> {
    if runner == "py"@ {
        seq!["-3"@, script, "--worker"@]
    } else {
        seq![script, "--worker"@]
    }
}

/// What to do next while looking for a Python runner for the worker.
#[derive(Debug)]
pub enum LaunchAction {
    /// Spawn this program with these arguments, then report a spawn error
    /// with [`Launcher::spawn_failed`].
    Spawn(String, Vec<String>),
    /// Give up with this error.
    Fail(String),
}

/// The search for a Python runner: the index of the runner being tried.
pub struct Launcher {
    pub runner: usize,
    pub script: String,
}

/// The error for a worker script that is not there.
pub open spec fn missing_script(display: Seq<char>) -> Seq<char> {
    "Local transcription script was not found at "@ + display + "."@
}

/// The error when no runner could be spawned and none reported an error.
pub open spec fn no_python_message() -> Seq<char> {
    "Python is required for local transcription, but no Python runner was found."@
}

/// The arguments for one runner.
fn spawn_args(runner: &str, script: &str) -> (r: Vec<String>)
    ensures
        views(r@) == runner_args(runner@, script@),
{
    let mut args: Vec<String> = Vec::new();
    if same_text(runner, "py") {
        args.push(String::from_str("-3"));
    }
    args.push(String::from_str(script));
    args.push(String::from_str("--worker"));
    proof {
        assert(views(args@) =~= runner_args(runner@, script@));
    }
    args
}

impl Launcher {
    /// Begins the search: a missing script is an error; otherwise the first
    /// runner, `py -3`, is tried.
    pub fn begin(script: &str, script_exists: bool, script_display: &str) -> (r: (Launcher, LaunchAction))
        ensures
            r.0.runner == 0,
            r.0.script@ == script@,
            !script_exists ==> (r.1 matches LaunchAction::Fail(e) && e@ == missing_script(script_display@)),
            script_exists ==> (r.1 matches LaunchAction::Spawn(p, a) && p@ == python_runner(0) && views(a@)
                == runner_args(python_runner(0), script@)),
    {
        if !script_exists {
            let mut message = String::from_str("Local transcription script was not found at ");
            message.append(script_display);
            message.append(".");
            return (Launcher { runner: 0, script: String::from_str(script) }, LaunchAction::Fail(message));
        }
        let args = spawn_args("py", script);
        (Launcher { runner: 0, script: String::from_str(script) }, LaunchAction::Spawn(String::from_str("py"), args))
    }

    /// Takes the error of spawning the current runner: the next runner,
    /// `python`, is tried; after the last one the search fails with the last
    /// error.
    pub fn spawn_failed(self, error: String) -> (r: (Launcher, LaunchAction))
        ensures
            r.0.script@ == self.script@,
            self.runner == 0 ==> r.0.runner == 1 && (r.1 matches LaunchAction::Spawn(p, a) && p@ == python_runner(1)
                && views(a@) == runner_args(python_runner(1), self.script@)),
            self.runner >= 1 ==> (r.1 matches LaunchAction::Fail(e) && e@ == error@),
    {
        if self.runner == 0 {
            let args = spawn_args("python", self.script.as_str());
            (Launcher { runner: 1, script: self.script }, LaunchAction::Spawn(String::from_str("python"), args))
        } else {
            (self, LaunchAction::Fail(launch_failure(Some(error))))
        }
    }
}

/// The error of a search that found no runner: the last spawn error, or a
/// note that Python is needed.
pub fn launch_failure(last_error: Option<String>) -> (r: String)
    ensures
        r@ == match last_error {
            Some(e) => e@,
            None => no_python_message(),
        },
{
    match last_error {
        Some(e) => e,
        None => String::from_str("Python is required for local transcription, but no Python runner was found."),
    }
}

} // verus!
