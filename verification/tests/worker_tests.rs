use echotype::transcribe::{Engine, TranscriptResult};
use echotype::worker::{
    answer_outcome, launch_failure, read_json_line, read_ready, read_transcript, ready_outcome, worker_request,
    LaunchAction, Launcher, WorkerAction, WorkerRetry,
};

#[test]
fn request_line_is_compact_json_with_escaped_strings() {
    assert_eq!(
        worker_request("/tmp/echotype-recording-1.webm", "en-US"),
        "{\"audioFile\":\"/tmp/echotype-recording-1.webm\",\"language\":\"en\"}"
    );
    assert_eq!(
        worker_request("C:\\Temp\\a \"b\".wav", "auto"),
        "{\"audioFile\":\"C:\\\\Temp\\\\a \\\"b\\\".wav\",\"language\":\"auto\"}"
    );
}

#[test]
fn request_line_matches_serde_json() {
    let line = worker_request("x\ny", "pt_BR");
    let parsed: serde_json::Value = serde_json::from_str(&line).unwrap();
    assert_eq!(parsed["audioFile"], "x\ny");
    assert_eq!(parsed["language"], "pt");
}

#[test]
fn an_empty_read_means_the_worker_exited() {
    assert_eq!(read_json_line("", 0), Err("Local transcription worker exited unexpectedly.".to_string()));
}

#[test]
fn answer_lines_are_trimmed_and_parsed() {
    assert_eq!(read_json_line("  {\"ready\": true}\r\n", 19), Ok("{\"ready\": true}".to_string()));
    let error = read_json_line("not json\n", 9).unwrap_err();
    assert_eq!(error, serde_json::from_str::<serde_json::Value>("not json").unwrap_err().to_string());
}

#[test]
fn startup_needs_ready_true() {
    assert_eq!(read_ready("{\"ready\":true}\n", 15), Ok(()));
    assert_eq!(
        read_ready("{\"ready\": false, \"why\": \"loading\"}\n", 37),
        Err("Local worker returned unexpected startup response: {\"ready\":false,\"why\":\"loading\"}".to_string())
    );
    assert_eq!(
        read_ready("[1, 2]\n", 7),
        Err("Local worker returned unexpected startup response: [1,2]".to_string())
    );
    assert_eq!(read_ready("", 0), Err("Local transcription worker exited unexpectedly.".to_string()));
    assert_eq!(ready_outcome(Some(false), "x"), Err("Local worker returned unexpected startup response: x".to_string()));
    assert_eq!(ready_outcome(Some(true), "x"), Ok(()));
}

#[test]
fn transcript_answers() {
    let t = read_transcript("{\"ok\":true,\"text\":\"  hello \"}\n", 30).ok().unwrap();
    assert_eq!(t.text, "hello");
    assert_eq!(t.engine, Engine::Local);
    assert_eq!(
        read_transcript("{\"ok\":true,\"text\":\"  \"}\n", 24).err(),
        Some("Local transcription returned no text.".to_string())
    );
    assert_eq!(
        read_transcript("{\"ok\":false,\"error\":\"model missing\"}\n", 37).err(),
        Some("model missing".to_string())
    );
    assert_eq!(read_transcript("{\"ok\":\"yes\"}\n", 13).err(), Some("Local transcription failed.".to_string()));
    assert_eq!(read_transcript("{}", 2).err(), Some("Local transcription failed.".to_string()));
}

#[test]
fn answer_outcome_on_given_fields() {
    assert_eq!(answer_outcome(Some(true), Some("a".to_string()), None).ok().unwrap().text, "a");
    assert_eq!(answer_outcome(Some(true), None, None).err(), Some("Local transcription returned no text.".to_string()));
    assert_eq!(answer_outcome(None, Some("a".to_string()), Some("e".to_string())).err(), Some("e".to_string()));
}

fn transcript(text: &str) -> TranscriptResult {
    TranscriptResult { text: text.to_string(), engine: Engine::Local }
}

#[test]
fn worker_is_restarted_once_after_a_failure() {
    let (retry, action) = WorkerRetry::begin(false);
    assert!(matches!(action, WorkerAction::Start));
    let (retry, action) = retry.started(Ok(()));
    assert!(matches!(action, WorkerAction::Transcribe));
    let (retry, action) = retry.transcribed(Err("broken pipe".to_string()));
    assert!(matches!(action, WorkerAction::Restart));
    assert_eq!(retry.attempt, 1);
    let (retry, action) = retry.started(Ok(()));
    assert!(matches!(action, WorkerAction::Transcribe));
    let (_, action) = retry.transcribed(Err("still broken".to_string()));
    assert!(matches!(action, WorkerAction::Finish(Err(ref e)) if e == "still broken"));
}

#[test]
fn running_worker_is_used_directly() {
    let (retry, action) = WorkerRetry::begin(true);
    assert!(matches!(action, WorkerAction::Transcribe));
    let (_, action) = retry.transcribed(Ok(transcript("done")));
    assert!(matches!(action, WorkerAction::Finish(Ok(ref t)) if t.text == "done"));
}

#[test]
fn a_worker_that_cannot_start_ends_the_attempt() {
    let (retry, _) = WorkerRetry::begin(false);
    let (_, action) = retry.started(Err("spawn failed".to_string()));
    assert!(matches!(action, WorkerAction::Finish(Err(ref e)) if e == "spawn failed"));
}

#[test]
fn launcher_tries_py_then_python() {
    let (launcher, action) = Launcher::begin("scripts/local-transcribe.py", true, "scripts/local-transcribe.py");
    match action {
        LaunchAction::Spawn(program, args) => {
            assert_eq!(program, "py");
            assert_eq!(args, vec!["-3", "scripts/local-transcribe.py", "--worker"]);
        }
        other => panic!("unexpected {other:?}"),
    }
    let (launcher, action) = launcher.spawn_failed("not found".to_string());
    match action {
        LaunchAction::Spawn(program, args) => {
            assert_eq!(program, "python");
            assert_eq!(args, vec!["scripts/local-transcribe.py", "--worker"]);
        }
        other => panic!("unexpected {other:?}"),
    }
    let (_, action) = launcher.spawn_failed("python missing".to_string());
    assert!(matches!(action, LaunchAction::Fail(ref e) if e == "python missing"));
}

#[test]
fn launcher_needs_the_script() {
    let (_, action) = Launcher::begin("s.py", false, "/opt/s.py");
    assert!(matches!(action, LaunchAction::Fail(ref e) if e == "Local transcription script was not found at /opt/s.py."));
    assert_eq!(
        launch_failure(None),
        "Python is required for local transcription, but no Python runner was found."
    );
    assert_eq!(launch_failure(Some("x".to_string())), "x");
}

#[test]
fn request_object_from_literals() {
    assert_eq!(
        echotype::worker::request_from_literals("\"a.wav\"", "\"th\""),
        "{\"audioFile\":\"a.wav\",\"language\":\"th\"}"
    );
}

#[test]
fn request_line_escapes_control_characters() {
    assert_eq!(
        worker_request("a\u{1}\u{1f}\u{7f}\u{e9}\t\r\u{8}\u{c}/", "auto"),
        "{\"audioFile\":\"a\\u0001\\u001f\u{7f}\u{e9}\\t\\r\\b\\f/\",\"language\":\"auto\"}"
    );
}
