use chorus::live::{key, model, KEYS};
use chorus::suite::{
    caught_up, check_checkpoint, check_collected, check_first_floor, check_kept, check_points,
    check_range, check_recovered, check_unused, check_waiting, decide_command, floor_from,
    floor_released, is_verified, manifest_floor, parse_mode, reader_command, removed,
    reports_event, reports_verified, says, uncollected, FloorError, GcEvent, Mode, ReaderCommand,
};
use chorus::table::Table;

fn strings(values: &[&str]) -> Vec<String> {
    values.iter().map(|value| value.to_string()).collect()
}

#[test]
fn modes_are_selected_by_the_arguments() {
    for (name, mode) in
        [("run", Mode::Run), ("reader", Mode::Reader), ("startup-gc", Mode::StartupGc)]
    {
        assert_eq!(parse_mode(&strings(&["suite", name, "prefix/"])), Ok(mode));
    }
    let usage = Err("usage: chorus-slatedb-live run|reader|startup-gc PREFIX/");
    assert_eq!(parse_mode(&strings(&["suite", "walk", "prefix/"])), usage);
    assert_eq!(parse_mode(&strings(&["suite", "run"])), usage);
    assert_eq!(parse_mode(&strings(&["suite", "run", "prefix/", "more"])), usage);
}

#[test]
fn readers_follow_the_batches() {
    let stop = Some("stop".to_string());
    assert_eq!(decide_command(&stop, Some(4)), Some(ReaderCommand::Stop));
    assert_eq!(decide_command(&None, Some(4)), Some(ReaderCommand::Verify(4)));
    assert_eq!(decide_command(&None, None), None);
    assert_eq!(
        reader_command("{\"command\":\"verify\",\"batch\":96}"),
        Ok(ReaderCommand::Verify(96))
    );
    assert_eq!(reader_command("{\"command\":\"stop\"}"), Ok(ReaderCommand::Stop));
    assert_eq!(reader_command("{\"batch\":\"96\"}"), Err("batch".to_string()));
    assert_eq!(reader_command("[]"), Err("batch".to_string()));
    assert!(reader_command("{").unwrap_err().starts_with("EOF while parsing"));
    assert_eq!(reports_event("{\"event\":\"ready\",\"pid\":7}", "ready"), Ok(true));
    assert_eq!(reports_event("{\"event\":1}", "ready"), Ok(false));
    let verified = "{\"event\":\"verified\",\"batch\":96,\"raw_rows\":288,\"readers\":2}";
    assert_eq!(reports_verified(verified, 96), Ok(true));
    assert_eq!(reports_verified(verified, 97), Ok(false));
    assert!(reports_verified("", 1).is_err());
    assert_eq!(caught_up(3, 4), Ok(false));
    assert_eq!(caught_up(4, 4), Ok(true));
    assert_eq!(caught_up(5, 4), Err("raw stream read unexpected batch 5".to_string()));
}

#[test]
fn reads_must_show_the_model() {
    let expected = model(100);
    let mut points: Vec<Option<Vec<u8>>> = (0..KEYS)
        .map(|index| expected.get(&key(index)).and_then(|value| value.clone()))
        .collect();
    assert_eq!(check_points(&expected, &points, 100), Ok(()));
    points[41] = Some(vec![1]);
    points[50] = Some(vec![1]);
    assert_eq!(
        check_points(&expected, &points, 100),
        Err("point read 41 at batch 100".to_string())
    );

    let mut scanned = Table::new();
    for index in (20..50).rev() {
        if let Some(value) = expected.get(&key(index)) {
            scanned.put(key(index), value.clone());
        }
    }
    assert_eq!(check_range(&expected, &scanned), Ok(()));
    scanned.put(key(50), Some(vec![1]));
    assert_eq!(check_range(&expected, &scanned), Err("range scan mismatch"));

    assert_eq!(check_recovered(&expected, 100), Ok(()));
    assert_eq!(
        check_recovered(&expected, 101),
        Err("writer recovery differs at 101".to_string())
    );
}

#[test]
fn collections_are_judged_by_what_they_leave() {
    assert_eq!(check_unused(3, 0), Ok(()));
    assert_eq!(
        check_unused(3, 1),
        Err("scratch namespace already exists in zone 3".to_string())
    );
    assert_eq!(check_checkpoint(0, 33, 0), Ok(()));
    assert_eq!(
        check_checkpoint(1, 34, 2),
        Err("checkpoint must depend on exactly 32 WAL-only batches: replay=1 next=34 l0=2"
            .to_string())
    );
    assert!(!floor_released(32));
    assert!(floor_released(33));
    assert_eq!(check_first_floor(64), Ok(()));
    assert_eq!(check_first_floor(0), Err("unexpected floor 0".to_string()));
    assert_eq!(check_first_floor(65), Err("unexpected floor 65".to_string()));

    let before = strings(&["a", "b", "c"]);
    assert_eq!(removed(&before, &strings(&["c", "d"])), strings(&["a", "b"]));
    assert_eq!(check_kept(1, &before, &strings(&["c", "a", "b", "d"])), Ok(()));
    assert_eq!(
        check_kept(1, &before, &strings(&["a", "b"])),
        Err("objects disappeared in zone 1 while replay was paused".to_string())
    );
    assert_eq!(check_collected(2, 1), Ok(()));
    assert_eq!(
        check_collected(2, 0),
        Err("GC removed no physical segments from zone 2".to_string())
    );
    assert_eq!(check_waiting(GcEvent::Started, false), Ok(()));
    assert_eq!(check_waiting(GcEvent::Finished, false), Err("GC did not start"));
    assert_eq!(
        check_waiting(GcEvent::Started, true),
        Err("GC completed while replay was paused")
    );
}

#[test]
fn floors_are_read_from_the_manifest() {
    let object = |floor: &str| format!("{{\"metadata\":{{\"chorus.trunc\":\"{floor}\"}}}}");
    assert!(matches!(manifest_floor(&object("64")), Ok(64)));
    assert!(matches!(manifest_floor(&object("+7")), Ok(7)));
    assert!(matches!(manifest_floor(&object("18446744073709551615")), Ok(u64::MAX)));
    for wrong in ["", "+", "-1", "12a", "18446744073709551616"] {
        assert!(matches!(manifest_floor(&object(wrong)), Err(FloorError::NotANumber)));
    }
    assert!(matches!(manifest_floor("{}"), Err(FloorError::Missing)));
    assert!(matches!(manifest_floor("nothing"), Err(FloorError::Document(_))));
    assert!(matches!(floor_from(&Some("12".to_string())), Ok(12)));
    assert!(matches!(floor_from(&None), Err(FloorError::Missing)));
    assert!(says(&Some("0".to_string()), "0") && !says(&None, "0"));
    assert!(is_verified(&Some("verified".to_string()), Some(3), 3));
    assert!(!is_verified(&Some("verified".to_string()), None, 3));
    assert_eq!(uncollected(&object("0")), Ok(true));
    assert_eq!(uncollected(&object("1")), Ok(false));
}
