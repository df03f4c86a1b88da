use std::collections::HashMap;

use mapreduce::error::Error;
use mapreduce::parallel::Parallel;
use mapreduce::phase::Phase;
use mapreduce::pipeline::{Action, Event, Pipeline, Stage};
use mapreduce::runner::{gather, Plan};
use mapreduce::simple::Simple;

fn records_of(items: &[&str]) -> Vec<String> {
    items.iter().map(|s| s.to_string()).collect()
}

/// What the workers of `plan` write if each echoes what it reads.
fn echo(plan: &Plan) -> Vec<Vec<u8>> {
    let mut outputs = vec![Vec::new(); plan.workers];
    for write in &plan.writes {
        outputs[write.worker].extend_from_slice(write.text.as_bytes());
    }
    outputs
}

/// What the one worker of `plan` writes if it sorts the lines that it reads.
fn sort_lines(plan: &Plan) -> Vec<Vec<u8>> {
    assert_eq!(plan.program, "sort");
    assert_eq!(plan.workers, 1);
    let mut lines: Vec<&str> = plan.writes.iter().map(|w| w.text.as_str()).collect();
    lines.sort();
    vec![lines.concat().into_bytes()]
}

fn lines_after_load(text: &str) -> Vec<String> {
    let mut driver = Pipeline::new();
    driver.step(Event::Start(Vec::new()));
    driver.step(Event::Computed(Ok(String::new())));
    driver.step(Event::Stored(Ok(())));
    match driver.step(Event::Loaded(Ok(text.to_string()))) {
        Action::Run { phase, records } => {
            assert_eq!(phase, Phase::Sorted);
            records
        }
        other => panic!("unexpected action {:?}", other),
    }
}

fn run_simple_with_echo(input: &[&str]) -> (Result<String, Error>, usize, usize) {
    let mut target = Simple::new("map.py", "reduce.py");
    let mut driver = Pipeline::new();
    let mut stores = 0;
    let mut loads = 0;
    let mut action = driver.step(Event::Start(records_of(input)));
    loop {
        let event = match action {
            Action::Run { phase, records } => {
                let outputs = match phase {
                    Phase::Mapped => echo(&target.map(&records)),
                    Phase::Sorted => sort_lines(&target.sort(&records)),
                    Phase::Reduced => echo(&target.reduce(&records)),
                    Phase::Idle => panic!("no phase to run"),
                };
                Event::Computed(gather(outputs))
            }
            Action::Store(text) => {
                stores += 1;
                target.store(&text);
                Event::Stored(Ok(()))
            }
            Action::Load => {
                loads += 1;
                Event::Loaded(target.load())
            }
            Action::Finish(outcome) => return (outcome, stores, loads),
        };
        action = driver.step(event);
    }
}

fn run_parallel_with_echo(input: &[&str], cores: usize) -> (Result<String, Error>, usize, usize) {
    let mut disk: HashMap<String, String> = HashMap::new();
    let mut target = Parallel::with_default_files("map.py", "reduce.py", cores);
    let mut driver = Pipeline::new();
    let mut stores = 0;
    let mut loads = 0;
    let mut action = driver.step(Event::Start(records_of(input)));
    loop {
        let event = match action {
            Action::Run { phase, records } => {
                let outputs = match phase {
                    Phase::Mapped => target.map(&records).map(|plan| echo(&plan)),
                    Phase::Sorted => Ok(sort_lines(&target.sort(&records))),
                    Phase::Reduced => Ok(echo(&target.reduce(&records))),
                    Phase::Idle => panic!("no phase to run"),
                };
                Event::Computed(outputs.and_then(gather))
            }
            Action::Store(text) => {
                stores += 1;
                let request = target.store(&text);
                disk.insert(request.path, request.text);
                Event::Stored(Ok(()))
            }
            Action::Load => {
                loads += 1;
                Event::Loaded(match target.load() {
                    Ok(request) => disk.get(&request.path).cloned().ok_or(Error::Storage),
                    Err(e) => Err(e),
                })
            }
            Action::Finish(outcome) => return (outcome, stores, loads),
        };
        action = driver.step(event);
    }
}

#[test]
fn driver_starts_ready() {
    assert_eq!(Pipeline::new().stage(), Stage::Ready);
}

#[test]
fn driver_walks_through_a_whole_run() {
    let mut driver = Pipeline::new();

    match driver.step(Event::Start(records_of(&["x", "y"]))) {
        Action::Run { phase, records } => {
            assert_eq!(phase, Phase::Mapped);
            assert_eq!(records, records_of(&["x", "y"]));
        }
        other => panic!("unexpected action {:?}", other),
    }
    assert_eq!(driver.stage(), Stage::Computing(Phase::Mapped));

    match driver.step(Event::Computed(Ok("m1\nm2\n".to_string()))) {
        Action::Store(text) => assert_eq!(text, "m1\nm2\n"),
        other => panic!("unexpected action {:?}", other),
    }
    assert_eq!(driver.stage(), Stage::Storing(Phase::Mapped));

    assert!(matches!(driver.step(Event::Stored(Ok(()))), Action::Load));
    assert_eq!(driver.stage(), Stage::Loading(Phase::Mapped));

    match driver.step(Event::Loaded(Ok("m2\nm1\n".to_string()))) {
        Action::Run { phase, records } => {
            assert_eq!(phase, Phase::Sorted);
            assert_eq!(records, records_of(&["m2", "m1"]));
        }
        other => panic!("unexpected action {:?}", other),
    }
    assert_eq!(driver.stage(), Stage::Computing(Phase::Sorted));

    match driver.step(Event::Computed(Ok("m1\nm2\n".to_string()))) {
        Action::Store(text) => assert_eq!(text, "m1\nm2\n"),
        other => panic!("unexpected action {:?}", other),
    }
    assert_eq!(driver.stage(), Stage::Storing(Phase::Sorted));

    assert!(matches!(driver.step(Event::Stored(Ok(()))), Action::Load));
    assert_eq!(driver.stage(), Stage::Loading(Phase::Sorted));

    match driver.step(Event::Loaded(Ok("m1\nm2\n".to_string()))) {
        Action::Run { phase, records } => {
            assert_eq!(phase, Phase::Reduced);
            assert_eq!(records, records_of(&["m1", "m2"]));
        }
        other => panic!("unexpected action {:?}", other),
    }
    assert_eq!(driver.stage(), Stage::Computing(Phase::Reduced));

    match driver.step(Event::Computed(Ok("total 2\n".to_string()))) {
        Action::Store(text) => assert_eq!(text, "total 2\n"),
        other => panic!("unexpected action {:?}", other),
    }
    assert_eq!(driver.stage(), Stage::Storing(Phase::Reduced));

    assert!(matches!(driver.step(Event::Stored(Ok(()))), Action::Load));
    assert_eq!(driver.stage(), Stage::Loading(Phase::Reduced));

    match driver.step(Event::Loaded(Ok("what the store gave back".to_string()))) {
        Action::Finish(outcome) => assert_eq!(outcome.unwrap(), "what the store gave back"),
        other => panic!("unexpected action {:?}", other),
    }
    assert_eq!(driver.stage(), Stage::Completed);
}

#[test]
fn echo_sort_echo_on_one_worker_sorts_the_input() {
    let (outcome, stores, loads) = run_simple_with_echo(&["b", "a", "c"]);
    assert_eq!(outcome.unwrap(), "a\nb\nc\n");
    assert_eq!(stores, 3);
    assert_eq!(loads, 3);
}

#[test]
fn echo_sort_echo_over_files_sorts_the_input() {
    for cores in 1..=5 {
        let (outcome, stores, loads) = run_parallel_with_echo(&["b", "a", "c"], cores);
        assert_eq!(outcome.unwrap(), "a\nb\nc\n");
        assert_eq!(stores, 3);
        assert_eq!(loads, 3);
    }
}

#[test]
fn empty_input_completes_with_empty_output() {
    let (outcome, stores, loads) = run_simple_with_echo(&[]);
    assert_eq!(outcome.unwrap(), "");
    assert_eq!((stores, loads), (3, 3));
    for cores in [1, 2, 8] {
        let (outcome, stores, loads) = run_parallel_with_echo(&[], cores);
        assert_eq!(outcome.unwrap(), "");
        assert_eq!((stores, loads), (3, 3));
    }
}

#[test]
fn run_without_cores_is_abandoned_before_any_store() {
    let (outcome, stores, loads) = run_parallel_with_echo(&["b", "a", "c"], 0);
    assert_eq!(outcome.unwrap_err(), Error::Incomplete);
    assert_eq!((stores, loads), (0, 0));
}

#[test]
fn spawn_failure_in_the_map_phase_abandons_the_run() {
    let mut driver = Pipeline::new();
    let first = driver.step(Event::Start(records_of(&["b", "a", "c"])));
    assert!(matches!(first, Action::Run { phase: Phase::Mapped, .. }));
    match driver.step(Event::Computed(Err(Error::Spawn))) {
        Action::Finish(outcome) => assert_eq!(outcome.unwrap_err(), Error::Incomplete),
        other => panic!("unexpected action {:?}", other),
    }
    assert_eq!(driver.stage(), Stage::Aborted);
}

#[test]
fn failure_at_any_stage_abandons_the_run() {
    let failures: [fn() -> Event; 3] = [
        || Event::Computed(Err(Error::Decode)),
        || Event::Stored(Err(Error::Storage)),
        || Event::Loaded(Err(Error::NothingStored)),
    ];
    let successes: [fn() -> Event; 3] = [
        || Event::Computed(Ok("t\n".to_string())),
        || Event::Stored(Ok(())),
        || Event::Loaded(Ok("t\n".to_string())),
    ];
    for failing in 0..9 {
        let mut driver = Pipeline::new();
        driver.step(Event::Start(records_of(&["t"])));
        for done in 0..failing {
            let action = driver.step(successes[done % 3]());
            assert!(!matches!(action, Action::Finish(_)));
        }
        match driver.step(failures[failing % 3]()) {
            Action::Finish(outcome) => assert_eq!(outcome.unwrap_err(), Error::Incomplete),
            other => panic!("unexpected action {:?}", other),
        }
        assert_eq!(driver.stage(), Stage::Aborted);
    }
}

#[test]
fn event_that_answers_nothing_abandons_the_run() {
    let mut driver = Pipeline::new();
    match driver.step(Event::Loaded(Ok("text".to_string()))) {
        Action::Finish(outcome) => assert_eq!(outcome.unwrap_err(), Error::Incomplete),
        other => panic!("unexpected action {:?}", other),
    }
    assert_eq!(driver.stage(), Stage::Aborted);

    let mut driver = Pipeline::new();
    driver.step(Event::Start(Vec::new()));
    match driver.step(Event::Stored(Ok(()))) {
        Action::Finish(outcome) => assert_eq!(outcome.unwrap_err(), Error::Incomplete),
        other => panic!("unexpected action {:?}", other),
    }
    assert_eq!(driver.stage(), Stage::Aborted);
}

#[test]
fn nothing_follows_the_end_of_a_run() {
    let (_, _, _) = run_simple_with_echo(&["a"]);
    let mut driver = Pipeline::new();
    driver.step(Event::Computed(Err(Error::Spawn)));
    assert_eq!(driver.stage(), Stage::Aborted);
    match driver.step(Event::Start(Vec::new())) {
        Action::Finish(outcome) => assert_eq!(outcome.unwrap_err(), Error::Incomplete),
        other => panic!("unexpected action {:?}", other),
    }
    assert_eq!(driver.stage(), Stage::Aborted);
}

#[test]
fn loaded_text_is_split_into_lines() {
    assert_eq!(lines_after_load("a\nb\nc\n"), records_of(&["a", "b", "c"]));
    assert_eq!(lines_after_load("a\nb\nc"), records_of(&["a", "b", "c"]));
    assert_eq!(lines_after_load(""), Vec::<String>::new());
    assert_eq!(lines_after_load("\n"), records_of(&[""]));
    assert_eq!(lines_after_load("a\n\nb\n"), records_of(&["a", "", "b"]));
    assert_eq!(lines_after_load("one line"), records_of(&["one line"]));
}

#[test]
fn carriage_return_before_line_feed_ends_the_line_with_it() {
    assert_eq!(lines_after_load("a\r\nb\r\n"), records_of(&["a", "b"]));
    assert_eq!(lines_after_load("\r\n"), records_of(&[""]));
    assert_eq!(lines_after_load("a\r\r\nb"), records_of(&["a\r", "b"]));
    assert_eq!(lines_after_load("a\rb\nc"), records_of(&["a\rb", "c"]));
    assert_eq!(lines_after_load("foo\r\nbar\n\nbaz\r"), records_of(&["foo", "bar", "", "baz\r"]));
}
