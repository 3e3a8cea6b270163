use iceberg_register::options::Options;
use iceberg_register::registration::{begin, Action, Event, Next, Registration, Reply};
use iceberg_register::report::{committed, files_built, paths_loaded, table_loaded};
use iceberg_register::table_id::{parse_table_id, TableIdError};

fn options(table_id: &str, skip_duplicate_check: bool) -> Options {
    Options {
        catalog_uri: "http://localhost:8181".to_string(),
        warehouse: "s3://warehouse".to_string(),
        s3_endpoint: Some("http://localhost:9000".to_string()),
        s3_region: None,
        s3_access_key_id: None,
        s3_secret_access_key: None,
        s3_path_style: true,
        table_id: table_id.to_string(),
        paths_file: "list.txt".to_string(),
        skip_duplicate_check,
    }
}

fn start(skip_duplicate_check: bool) -> Registration {
    let (run, action) = begin(options("ns.rust_test.l2", skip_duplicate_check)).unwrap();
    assert_eq!(action, Action::ReadPathsFile);
    run
}

fn text(s: &str) -> Event {
    Event::PathsFileRead { text: s.to_string() }
}

fn go_on(reply: Reply, line: Option<&str>) -> (Registration, Action) {
    assert_eq!(reply.printed.as_deref(), line);
    match reply.next {
        Next::Perform { registration, action } => (registration, action),
        other => panic!("the run ended: {:?}", other),
    }
}

fn stopped(reply: Reply) -> String {
    assert_eq!(reply.printed, None);
    match reply.next {
        Next::Stop { context } => context,
        other => panic!("the run did not stop: {:?}", other),
    }
}

/// The outcomes of a run in which every step succeeds.
fn outcomes() -> Vec<Event> {
    vec![
        text("# files\ns3://b/1.parquet\n\ns3://b/2.parquet\n"),
        Event::CatalogBuilt,
        Event::TableLoaded { snapshot: None },
        Event::FilesConverted { count: 2, elapsed: "1.5s".to_string() },
        Event::AppendApplied,
        Event::Committed { snapshot: Some(42), elapsed: "20ms".to_string() },
    ]
}

/// A run that has taken the first `steps` outcomes.
fn run_after(steps: usize) -> Registration {
    let mut run = start(false);
    for event in outcomes().into_iter().take(steps) {
        match run.advance(event).next {
            Next::Perform { registration, .. } => run = registration,
            other => panic!("the run ended: {:?}", other),
        }
    }
    run
}

#[test]
fn every_step_succeeds() {
    let mut events = outcomes().into_iter();
    let (run, action) = go_on(
        start(false).advance(events.next().unwrap()),
        Some("loaded 2 paths from list.txt"),
    );
    assert_eq!(
        action,
        Action::BuildCatalog {
            props: vec![
                ("uri".to_string(), "http://localhost:8181".to_string()),
                ("warehouse".to_string(), "s3://warehouse".to_string()),
                ("s3.endpoint".to_string(), "http://localhost:9000".to_string()),
                ("s3.path-style-access".to_string(), "true".to_string()),
            ]
        }
    );
    let (run, action) = go_on(run.advance(events.next().unwrap()), None);
    assert_eq!(action, Action::LoadTable { table: parse_table_id("ns.rust_test.l2").unwrap() });
    let (run, action) = go_on(
        run.advance(events.next().unwrap()),
        Some("loaded table ns.rust_test.l2: current snapshot = None"),
    );
    assert_eq!(
        action,
        Action::ConvertFiles {
            paths: vec!["s3://b/1.parquet".to_string(), "s3://b/2.parquet".to_string()]
        }
    );
    let (run, action) = go_on(
        run.advance(events.next().unwrap()),
        Some("built 2 DataFile records in 1.5s"),
    );
    assert_eq!(action, Action::ApplyAppend { check_duplicate: true });
    let (run, action) = go_on(run.advance(events.next().unwrap()), None);
    assert_eq!(action, Action::Commit);
    let reply = run.advance(events.next().unwrap());
    assert_eq!(reply.printed.as_deref(), Some("committed snapshot Some(42) in 20ms"));
    assert!(matches!(reply.next, Next::Done));
}

#[test]
fn duplicate_check_can_be_skipped() {
    let mut run = start(true);
    let mut last = Action::ReadPathsFile;
    for event in outcomes().into_iter().take(4) {
        match run.advance(event).next {
            Next::Perform { registration, action } => {
                run = registration;
                last = action;
            }
            other => panic!("the run ended: {:?}", other),
        }
    }
    assert_eq!(last, Action::ApplyAppend { check_duplicate: false });
}

#[test]
fn bad_table_identifier_comes_first() {
    let error = begin(options("table", false)).unwrap_err();
    assert!(matches!(error, TableIdError::NoNamespace(_)));
    assert_eq!(error.message(), "invalid --table-id");
}

#[test]
fn list_without_paths_stops_the_run() {
    assert_eq!(
        stopped(start(false).advance(text("# nothing\n\n"))),
        "--paths-file list.txt contained no paths"
    );
}

#[test]
fn each_failure_says_what_failed() {
    let contexts = [
        "reading --paths-file list.txt",
        "building REST catalog",
        "loading table ns.rust_test.l2",
        "converting parquet files to data files",
        "applying FastAppendAction",
        "committing transaction",
    ];
    for (steps, context) in contexts.iter().enumerate() {
        assert_eq!(stopped(run_after(steps).advance(Event::Failed)), *context);
    }
}

#[test]
fn a_run_accepts_only_the_outcome_it_waits_for() {
    for steps in 0..6 {
        let run = run_after(steps);
        for (i, event) in outcomes().iter().enumerate() {
            assert_eq!(run.accepts(event), i == steps);
        }
        assert!(run.accepts(&Event::Failed));
    }
}

#[test]
fn lines_show_numbers_in_decimal() {
    assert_eq!(paths_loaded(0, "f"), "loaded 0 paths from f");
    assert_eq!(paths_loaded(10, "f"), "loaded 10 paths from f");
    assert_eq!(
        paths_loaded(usize::MAX, ""),
        format!("loaded {} paths from ", usize::MAX)
    );
    assert_eq!(files_built(105, "1ns"), "built 105 DataFile records in 1ns");
    assert_eq!(files_built(9, ""), format!("built {} DataFile records in ", 9));
}

#[test]
fn lines_show_snapshots_as_debug_does() {
    let table = parse_table_id("a.b").unwrap();
    for id in [None, Some(0), Some(-7), Some(3051729675574597004), Some(i64::MIN), Some(i64::MAX)] {
        assert_eq!(
            table_loaded(&table, id),
            format!("loaded table a.b: current snapshot = {:?}", id)
        );
        assert_eq!(committed(id, "2s"), format!("committed snapshot {:?} in 2s", id));
    }
    assert_eq!(committed(Some(-12), "x"), "committed snapshot Some(-12) in x");
}
