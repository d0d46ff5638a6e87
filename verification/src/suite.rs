//! Checks of the live database suite: its arguments, its readers and what
//! collection leaves behind.

use crate::json;
use crate::live;
use crate::pending;
use crate::table;
use crate::table::Table;
use crate::text;
use vstd::prelude::*;

verus! {

/// What the suite's program runs as.
#[derive(Clone, Copy, Debug, PartialEq, Eq, Structural)]
pub enum Mode {
    /// The suite itself.
    Run,
    /// A reader process of the suite.
    Reader,
    /// The suite of collections during startup.
    StartupGc,
}

/// The argument that selects a mode.
pub open spec fn mode_name(mode: Mode) -> Seq<char> {
    match mode {
        Mode::Run => "run"@,
        Mode::Reader => "reader"@,
        Mode::StartupGc => "startup-gc"@,
    }
}

/// Whether a text is this literal.
fn is_text(value: &String, literal: &str) -> (same: bool)
    ensures
        same == (value@ == literal@),
{
    *value == literal.to_owned()
}

/// Selects the mode by the program's arguments, of which the first is its
/// name and the last the scratch prefix.
pub fn parse_mode(args: &Vec<String>) -> (result: Result<Mode, &'static str>)
    ensures
        match result {
            Ok(mode) => args@.len() == 3 && args@[1]@ == mode_name(mode),
            Err(reason) => reason@
                == "usage: chorus-slatedb-live run|reader|startup-gc PREFIX/"@ && !(args@.len() == 3
                && (args@[1]@ == "run"@ || args@[1]@ == "reader"@ || args@[1]@ == "startup-gc"@)),
        },
{
    if args.len() == 3 {
        if is_text(&args[1], "run") {
            return Ok(Mode::Run);
        }
        if is_text(&args[1], "reader") {
            return Ok(Mode::Reader);
        }
        if is_text(&args[1], "startup-gc") {
            return Ok(Mode::StartupGc);
        }
    }
    Err("usage: chorus-slatedb-live run|reader|startup-gc PREFIX/")
}

/// What a reader process is told.
#[derive(Clone, Copy, Debug, PartialEq, Eq, Structural)]
pub enum ReaderCommand {
    /// End.
    Stop,
    /// Check the contents after this batch.
    Verify(u64),
}

/// The command that these fields stand for.
pub open spec fn commanded(command: Option<Seq<char>>, batch: Option<u64>) -> Option<
    ReaderCommand,
> {
    if command == Some("stop"@) {
        Some(ReaderCommand::Stop)
    } else {
        match batch {
            Some(n) => Some(ReaderCommand::Verify(n)),
            None => None,
        }
    }
}

/// Whether a text was found and is this one.
pub fn says(found: &Option<String>, wanted: &str) -> (equal: bool)
    ensures
        equal == (text::optional_text(*found) == Some(wanted@)),
{
    match found {
        Some(text) => *text == wanted.to_owned(),
        None => false,
    }
}

/// Decides on a command from its fields.
pub fn decide_command(command: &Option<String>, batch: Option<u64>) -> (result: Option<
    ReaderCommand,
>)
    ensures
        result == commanded(text::optional_text(*command), batch),
{
    if says(command, "stop") {
        return Some(ReaderCommand::Stop);
    }
    match batch {
        Some(n) => Some(ReaderCommand::Verify(n)),
        None => None,
    }
}

/// Reads a line that a reader process was sent: a JSON document with a command
/// and a batch.
pub fn reader_command(line: &str) -> (result: Result<ReaderCommand, String>)
    ensures
        match json::json_error(line@) {
            Some(reason) => result matches Err(message) && message@ == reason,
            None => match commanded(
                json::json_string_at(line@, "/command"@),
                json::json_number_at(line@, "/batch"@),
            ) {
                Some(command) => result == Ok::<ReaderCommand, String>(command),
                None => result matches Err(message) && message@ == "batch"@,
            },
        },
{
    let command: Option<String> = match json::string_at(line, "/command") {
        Ok(command) => command,
        Err(message) => {
            return Err(message);
        },
    };
    let batch: Option<u64> = match json::number_at(line, "/batch") {
        Ok(batch) => batch,
        Err(message) => {
            return Err(message);
        },
    };
    match decide_command(&command, batch) {
        Some(command) => Ok(command),
        None => Err("batch".to_owned()),
    }
}

/// Whether a line from a reader process reports this event.
pub fn reports_event(line: &str, event: &str) -> (result: Result<bool, String>)
    ensures
        match json::json_error(line@) {
            Some(reason) => result matches Err(message) && message@ == reason,
            None => result matches Ok(reported) && reported == (json::json_string_at(
                line@,
                "/event"@,
            ) == Some(event@)),
        },
{
    match json::string_at(line, "/event") {
        Ok(found) => Ok(says(&found, event)),
        Err(message) => Err(message),
    }
}

/// Whether these fields say that a reader process verified this batch.
pub fn is_verified(event: &Option<String>, reported: Option<u64>, batch: u64) -> (verified: bool)
    ensures
        verified == (text::optional_text(*event) == Some("verified"@) && reported == Some(batch)),
{
    match reported {
        Some(number) => number == batch && says(event, "verified"),
        None => false,
    }
}

/// Whether a line from a reader process says that it verified this batch.
pub fn reports_verified(line: &str, batch: u64) -> (result: Result<bool, String>)
    ensures
        match json::json_error(line@) {
            Some(reason) => result matches Err(message) && message@ == reason,
            None => result matches Ok(verified) && verified == (json::json_string_at(
                line@,
                "/event"@,
            ) == Some("verified"@) && json::json_number_at(line@, "/batch"@) == Some(batch)),
        },
{
    let event: Option<String> = match json::string_at(line, "/event") {
        Ok(event) => event,
        Err(message) => {
            return Err(message);
        },
    };
    match json::number_at(line, "/batch") {
        Ok(reported) => Ok(is_verified(&event, reported, batch)),
        Err(message) => Err(message),
    }
}

/// Why an object's description gives no floor.
#[derive(Debug)]
pub enum FloorError {
    /// It is no JSON document.
    Document(String),
    /// The manifest records no floor.
    Missing,
    /// The recorded floor is no number.
    NotANumber,
}

/// The floor that a manifest records.
pub open spec fn recorded_floor(object: Seq<char>) -> Option<Seq<char>> {
    json::json_string_at(object, "/metadata/chorus.trunc"@)
}

/// The number that was recorded as the floor.
pub fn floor_from(recorded: &Option<String>) -> (result: Result<u64, FloorError>)
    ensures
        match recorded {
            Some(floor) => match text::number_of(floor@) {
                Some(number) => result == Ok::<u64, FloorError>(number),
                None => result matches Err(FloorError::NotANumber),
            },
            None => result matches Err(FloorError::Missing),
        },
{
    match recorded {
        Some(floor) => match text::parse_decimal(floor.as_str()) {
            Some(number) => Ok(number),
            None => Err(FloorError::NotANumber),
        },
        None => Err(FloorError::Missing),
    }
}

/// The floor of a log, from the description of its manifest object.
pub fn manifest_floor(object: &str) -> (result: Result<u64, FloorError>)
    ensures
        match json::json_error(object@) {
            Some(reason) => result matches Err(FloorError::Document(message)) && message@ == reason,
            None => match recorded_floor(object@) {
                Some(floor) => match text::number_of(floor) {
                    Some(number) => result == Ok::<u64, FloorError>(number),
                    None => result matches Err(FloorError::NotANumber),
                },
                None => result matches Err(FloorError::Missing),
            },
        },
{
    match json::string_at(object, "/metadata/chorus.trunc") {
        Ok(recorded) => floor_from(&recorded),
        Err(message) => Err(FloorError::Document(message)),
    }
}

/// Whether nothing of a log was collected yet, from the description of its
/// manifest object.
pub fn uncollected(object: &str) -> (result: Result<bool, String>)
    ensures
        match json::json_error(object@) {
            Some(reason) => result matches Err(message) && message@ == reason,
            None => result matches Ok(zero) && zero == (recorded_floor(object@) == Some("0"@)),
        },
{
    match json::string_at(object, "/metadata/chorus.trunc") {
        Ok(floor) => Ok(says(&floor, "0")),
        Err(message) => Err(message),
    }
}

/// Whether a reader that has seen `count` batches has seen all up to `batch`.
/// None may come that was not written.
pub fn caught_up(count: u64, batch: u64) -> (result: Result<bool, String>)
    ensures
        if count > batch {
            result matches Err(message) && message@ == "raw stream read unexpected batch "@
                + text::decimal(count as nat)
        } else {
            result matches Ok(ready) && ready == (count == batch)
        },
{
    if count > batch {
        let mut message = "raw stream read unexpected batch ".to_owned();
        text::push_decimal(&mut message, count);
        return Err(message);
    }
    Ok(count == batch)
}

/// The value that a read of a key must give.
pub open spec fn value_of(values: Map<Seq<u8>, Option<Seq<u8>>>, key: Seq<u8>) -> Option<Seq<u8>> {
    if values.contains_key(key) {
        values[key]
    } else {
        None
    }
}

/// Whether the point read of key number `index` gave what it must.
pub open spec fn point_matches(expected: Table, points: Seq<Option<Vec<u8>>>, index: int) -> bool {
    table::optional_bytes(points[index]) == value_of(
        expected.values(),
        live::key_of(index as nat),
    )
}

/// Whether the point reads of all keys gave what they must.
pub open spec fn points_match(expected: Table, points: Seq<Option<Vec<u8>>>) -> bool {
    forall|i: int| 0 <= i < live::KEYS ==> #[trigger] point_matches(expected, points, i)
}

/// Checks the point reads of all keys after batch `n`.
pub fn check_points(expected: &Table, points: &Vec<Option<Vec<u8>>>, n: u64) -> (result: Result<
    (),
    String,
>)
    requires
        expected.wf(),
        points@.len() == live::KEYS,
    ensures
        result is Ok <==> points_match(*expected, points@),
        match result {
            Ok(()) => forall|i: int|
                0 <= i < live::KEYS ==> #[trigger] point_matches(*expected, points@, i),
            Err(message) => exists|i: int|
                {
                    &&& 0 <= i < live::KEYS
                    &&& !(#[trigger] point_matches(*expected, points@, i))
                    &&& forall|j: int| 0 <= j < i ==> #[trigger] point_matches(*expected, points@, j)
                    &&& message@ == "point read "@ + text::decimal(i as nat) + " at batch "@
                        + text::decimal(n as nat)
                },
        },
{
    let mut i: usize = 0;
    while i < points.len()
        invariant
            i <= points@.len(),
            points@.len() == live::KEYS,
            expected.wf(),
            forall|j: int| 0 <= j < i ==> #[trigger] point_matches(*expected, points@, j),
        decreases points@.len() - i,
    {
        let key = live::key(i as u64);
        let same: bool = match expected.get(key.as_slice()) {
            Some(found) => table::same_value(&points[i], found),
            None => points[i].is_none(),
        };
        if !same {
            let mut message = "point read ".to_owned();
            text::push_decimal(&mut message, i as u64);
            message.append(" at batch ");
            text::push_decimal(&mut message, n);
            assert(!point_matches(*expected, points@, i as int));
            return Err(message);
        }
        assert(point_matches(*expected, points@, i as int));
        i = i + 1;
    }
    Ok(())
}

/// First key of the range scan.
pub const RANGE_START: u64 = 20;

/// First key behind the range scan.
pub const RANGE_END: u64 = 50;

/// Checks the rows of the range scan.
pub fn check_range(expected: &Table, scanned: &Table) -> (result: Result<(), &'static str>)
    requires
        expected.wf(),
        scanned.wf(),
    ensures
        if scanned.values() == expected.values().restrict(
            Table::key_range(live::key_of(RANGE_START as nat), live::key_of(RANGE_END as nat)),
        ) {
            result is Ok
        } else {
            result matches Err(reason) && reason@ == "range scan mismatch"@
        },
{
    let low = live::key(RANGE_START);
    let high = live::key(RANGE_END);
    let part = expected.between(low.as_slice(), high.as_slice());
    if scanned.same(&part) {
        Ok(())
    } else {
        Err("range scan mismatch")
    }
}

/// Checks the contents that a recovered writer found, which must be those after
/// batch `n`.
pub fn check_recovered(scanned: &Table, n: u64) -> (result: Result<(), String>)
    requires
        scanned.wf(),
        n + 17 <= u64::MAX,
    ensures
        if scanned.values() == live::contents(n as nat) {
            result is Ok
        } else {
            result matches Err(message) && message@ == "writer recovery differs at "@
                + text::decimal(n as nat)
        },
{
    if scanned.same(&live::model(n)) {
        return Ok(());
    }
    let mut message = "writer recovery differs at ".to_owned();
    text::push_decimal(&mut message, n);
    Err(message)
}

/// Checks that a zone holds no object before the suite begins.
pub fn check_unused(zone: u64, objects: usize) -> (result: Result<(), String>)
    ensures
        if objects == 0 {
            result is Ok
        } else {
            result matches Err(message) && message@ == "scratch namespace already exists in zone "@
                + text::decimal(zone as nat)
        },
{
    if objects == 0 {
        return Ok(());
    }
    let mut message = "scratch namespace already exists in zone ".to_owned();
    text::push_decimal(&mut message, zone);
    Err(message)
}

/// Checks that a checkpoint rests on the first batches in the log alone: none
/// of them is in the database's own files yet.
pub fn check_checkpoint(replay_after: u64, next: u64, l0: u64) -> (result: Result<(), String>)
    ensures
        if replay_after == 0 && next == 33 && l0 == 0 {
            result is Ok
        } else {
            result matches Err(message) && message@
                == "checkpoint must depend on exactly 32 WAL-only batches: replay="@
                + text::decimal(replay_after as nat) + " next="@ + text::decimal(next as nat)
                + " l0="@ + text::decimal(l0 as nat)
        },
{
    if replay_after == 0 && next == 33 && l0 == 0 {
        return Ok(());
    }
    let mut message = "checkpoint must depend on exactly 32 WAL-only batches: replay=".to_owned();
    text::push_decimal(&mut message, replay_after);
    message.append(" next=");
    text::push_decimal(&mut message, next);
    message.append(" l0=");
    text::push_decimal(&mut message, l0);
    Err(message)
}

/// Whether collection has gone beyond the batches that a checkpoint held back.
pub fn floor_released(floor: u64) -> (released: bool)
    ensures
        released == (floor > 32),
{
    floor > 32
}

/// Checks the floor of the first collection after a start: it moved, and not
/// beyond what the database had flushed.
pub fn check_first_floor(floor: u64) -> (result: Result<(), String>)
    ensures
        if 0 < floor <= 64 {
            result is Ok
        } else {
            result matches Err(message) && message@ == "unexpected floor "@ + text::decimal(
                floor as nat,
            )
        },
{
    if floor > 0 && floor <= 64 {
        return Ok(());
    }
    let mut message = "unexpected floor ".to_owned();
    text::push_decimal(&mut message, floor);
    Err(message)
}

/// The names of `before` that are not among `after`, in their order.
pub open spec fn gone(before: Seq<Seq<char>>, after: Seq<Seq<char>>) -> Seq<Seq<char>>
    decreases before.len(),
{
    if before.len() == 0 {
        Seq::empty()
    } else if after.contains(before.last()) {
        gone(before.drop_last(), after)
    } else {
        gone(before.drop_last(), after).push(before.last())
    }
}

fn is_among(names: &Vec<String>, name: &String) -> (found: bool)
    ensures
        found == text::texts(names@).contains(name@),
{
    let mut i: usize = 0;
    while i < names.len()
        invariant
            i <= names@.len(),
            forall|j: int| 0 <= j < i ==> (#[trigger] names@[j])@ != name@,
        decreases names@.len() - i,
    {
        if names[i] == *name {
            assert(text::texts(names@)[i as int] == name@);
            return true;
        }
        i = i + 1;
    }
    assert(!text::texts(names@).contains(name@)) by {
        if text::texts(names@).contains(name@) {
            let j = choose|j: int|
                0 <= j < text::texts(names@).len() && text::texts(names@)[j] == name@;
            assert(names@[j]@ == name@);
        }
    }
    false
}

/// The objects that a collection removed.
pub fn removed(before: &Vec<String>, after: &Vec<String>) -> (names: Vec<String>)
    ensures
        text::texts(names@) == gone(text::texts(before@), text::texts(after@)),
{
    let mut names: Vec<String> = Vec::new();
    let ghost all = text::texts(before@);
    let ghost left = text::texts(after@);
    let mut i: usize = 0;
    proof {
        assert(all.take(0) =~= Seq::<Seq<char>>::empty());
        assert(text::texts(names@) =~= gone(all.take(0), left));
    }
    while i < before.len()
        invariant
            i <= before@.len(),
            all == text::texts(before@),
            left == text::texts(after@),
            text::texts(names@) == gone(all.take(i as int), left),
        decreases before@.len() - i,
    {
        proof {
            assert(all.take(i + 1).drop_last() =~= all.take(i as int));
            assert(all.take(i + 1).last() == before@[i as int]@);
        }
        if !is_among(after, &before[i]) {
            let ghost kept = names@;
            names.push(before[i].clone());
            proof {
                assert(text::texts(names@) =~= text::texts(kept).push(before@[i as int]@));
            }
        }
        i = i + 1;
    }
    proof {
        assert(all.take(all.len() as int) =~= all);
    }
    names
}

/// Checks that a collection removed something from a zone.
pub fn check_collected(zone: u64, removed_objects: usize) -> (result: Result<(), String>)
    ensures
        if removed_objects > 0 {
            result is Ok
        } else {
            result matches Err(message) && message@
                == "GC removed no physical segments from zone "@ + text::decimal(zone as nat)
        },
{
    if removed_objects > 0 {
        return Ok(());
    }
    let mut message = "GC removed no physical segments from zone ".to_owned();
    text::push_decimal(&mut message, zone);
    Err(message)
}

/// Whether each of the names is among the others.
pub open spec fn all_among(names: Seq<Seq<char>>, others: Seq<Seq<char>>) -> bool {
    forall|name: Seq<char>| names.contains(name) ==> others.contains(name)
}

/// Checks that a zone kept its objects while replay was paused.
pub fn check_kept(zone: u64, before: &Vec<String>, after: &Vec<String>) -> (result: Result<
    (),
    String,
>)
    ensures
        result is Ok <==> all_among(text::texts(before@), text::texts(after@)),
        if forall|name: Seq<char>|
            text::texts(before@).contains(name) ==> text::texts(after@).contains(name) {
            result is Ok
        } else {
            result matches Err(message) && message@ == "objects disappeared in zone "@
                + text::decimal(zone as nat) + " while replay was paused"@
        },
{
    let names = removed(before, after);
    proof {
        lemma_gone(text::texts(before@), text::texts(after@));
        assert(text::texts(names@).len() == names@.len());
    }
    if names.len() == 0 {
        return Ok(());
    }
    let mut message = "objects disappeared in zone ".to_owned();
    text::push_decimal(&mut message, zone);
    message.append(" while replay was paused");
    Err(message)
}

proof fn lemma_gone(before: Seq<Seq<char>>, after: Seq<Seq<char>>)
    ensures
        gone(before, after).len() == 0 <==> forall|name: Seq<char>|
            before.contains(name) ==> after.contains(name),
    decreases before.len(),
{
    if before.len() > 0 {
        let rest = before.drop_last();
        lemma_gone(rest, after);
        assert(before.contains(before.last()));
        assert forall|name: Seq<char>| rest.contains(name) implies before.contains(name) by {
            let i = choose|i: int| 0 <= i < rest.len() && rest[i] == name;
            assert(before[i] == name);
        }
        assert forall|name: Seq<char>|
            before.contains(name) && name != before.last() implies rest.contains(name) by {
            let i = choose|i: int| 0 <= i < before.len() && before[i] == name;
            assert(rest[i] == name);
        }
        if gone(before, after).len() == 0 {
            assert forall|name: Seq<char>| before.contains(name) implies after.contains(name) by {
                if name != before.last() {
                    assert(rest.contains(name));
                }
            }
        } else if forall|name: Seq<char>| before.contains(name) ==> after.contains(name) {
            assert(forall|name: Seq<char>| rest.contains(name) ==> after.contains(name));
        }
    }
}

/// What a collection reports of itself.
#[derive(Clone, Copy, Debug, PartialEq, Eq, Structural)]
pub enum GcEvent {
    /// It began.
    Started,
    /// It ended.
    Finished,
}

/// Checks that a collection waits for replay: it has begun, and nothing more
/// came of it while replay was paused.
pub fn check_waiting(first: GcEvent, more: bool) -> (result: Result<(), &'static str>)
    ensures
        match first {
            GcEvent::Finished => result matches Err(reason) && reason@ == "GC did not start"@,
            GcEvent::Started => if more {
                result matches Err(reason) && reason@ == "GC completed while replay was paused"@
            } else {
                result is Ok
            },
        },
{
    match first {
        GcEvent::Finished => Err("GC did not start"),
        GcEvent::Started => if more {
            Err("GC completed while replay was paused")
        } else {
            Ok(())
        },
    }
}

/// The middle one of three arguments selects the mode, and nothing else does.
pub proof fn law_middle_argument_selects_the_mode(
    args: &Vec<String>,
    result: Result<Mode, &'static str>,
)
    requires
        call_ensures(parse_mode, (args,), result),
    ensures
        result == Ok::<Mode, &'static str>(Mode::Run) <==> args@.len() == 3 && args@[1]@ == "run"@,
        result == Ok::<Mode, &'static str>(Mode::Reader) <==> args@.len() == 3 && args@[1]@
            == "reader"@,
        result == Ok::<Mode, &'static str>(Mode::StartupGc) <==> args@.len() == 3 && args@[1]@
            == "startup-gc"@,
{
    reveal_strlit("run");
    reveal_strlit("reader");
    reveal_strlit("startup-gc");
    assert("run"@.len() == 3);
    assert("reader"@.len() == 6);
    assert("startup-gc"@.len() == 10);
}

/// A command to stop is one whatever the batch; any other needs a batch, which
/// it asks to verify.
pub proof fn law_commands_stop_or_verify(
    command: &Option<String>,
    batch: Option<u64>,
    result: Option<ReaderCommand>,
)
    requires
        call_ensures(decide_command, (command, batch), result),
    ensures
        *command is Some && command->0@ == "stop"@ ==> result == Some(ReaderCommand::Stop),
        !(*command is Some && command->0@ == "stop"@) && batch is Some ==> result == Some(
            ReaderCommand::Verify(batch->0),
        ),
        !(*command is Some && command->0@ == "stop"@) && batch is None ==> result is None,
{
}

/// A line is a command only if it is a document; it then stops if it says so,
/// and verifies the batch that it names otherwise.
pub proof fn law_lines_are_commands(line: &str, result: Result<ReaderCommand, String>, n: u64)
    requires
        call_ensures(reader_command, (line,), result),
    ensures
        result is Ok ==> json::json_error(line@) is None,
        result == Ok::<ReaderCommand, String>(ReaderCommand::Stop) <==> json::json_error(line@)
            is None && json::json_string_at(line@, "/command"@) == Some("stop"@),
        result == Ok::<ReaderCommand, String>(ReaderCommand::Verify(n)) <==> json::json_error(line@)
            is None && json::json_string_at(line@, "/command"@) != Some("stop"@)
            && json::json_number_at(line@, "/batch"@) == Some(n),
{
}

/// A report counts only with its own event, and a verification only with its
/// own batch.
pub proof fn law_reports_are_of_their_event(
    line: &str,
    event: &str,
    batch: u64,
    reported: Result<bool, String>,
    verified: Result<bool, String>,
)
    requires
        call_ensures(reports_event, (line, event), reported),
        call_ensures(reports_verified, (line, batch), verified),
    ensures
        reported is Ok <==> json::json_error(line@) is None,
        verified is Ok <==> json::json_error(line@) is None,
        reported == Ok::<bool, String>(true) ==> json::json_string_at(line@, "/event"@) == Some(
            event@,
        ),
        reported == Ok::<bool, String>(false) ==> json::json_string_at(line@, "/event"@) != Some(
            event@,
        ),
        verified == Ok::<bool, String>(true) <==> json::json_error(line@) is None
            && json::json_string_at(line@, "/event"@) == Some("verified"@) && json::json_number_at(
            line@,
            "/batch"@,
        ) == Some(batch),
{
}

/// Fields say that a batch was verified if both the event and the batch do.
pub proof fn law_verified_means_this_batch(
    event: &Option<String>,
    reported: Option<u64>,
    batch: u64,
    verified: bool,
)
    requires
        call_ensures(is_verified, (event, reported, batch), verified),
    ensures
        verified == (*event is Some && event->0@ == "verified"@ && reported is Some && reported->0
            == batch),
{
}

/// A floor is the number that the manifest records, digit for digit.
pub proof fn law_floor_is_what_is_recorded(
    recorded: &Option<String>,
    floor: &str,
    result: Result<u64, FloorError>,
    parsed: Option<u64>,
)
    requires
        call_ensures(floor_from, (recorded,), result),
        call_ensures(text::parse_decimal, (floor,), parsed),
        *recorded is Some ==> recorded->0@ == floor@,
    ensures
        *recorded is None ==> result matches Err(FloorError::Missing),
        *recorded is Some && parsed is Some ==> result == Ok::<u64, FloorError>(parsed->0),
        *recorded is Some && parsed is None ==> result matches Err(FloorError::NotANumber),
{
}

/// The floor of a log is looked for at its place in the manifest's metadata,
/// and `0` there means that nothing was collected.
pub proof fn law_floor_is_in_the_metadata(
    object: &str,
    floor: Result<u64, FloorError>,
    untouched: Result<bool, String>,
)
    requires
        call_ensures(manifest_floor, (object,), floor),
        call_ensures(uncollected, (object,), untouched),
    ensures
        floor matches Err(FloorError::Document(_)) <==> json::json_error(object@) is Some,
        untouched is Err <==> json::json_error(object@) is Some,
        floor matches Err(FloorError::Missing) <==> json::json_error(object@) is None
            && json::json_string_at(object@, "/metadata/chorus.trunc"@) is None,
        untouched == Ok::<bool, String>(true) <==> json::json_error(object@) is None
            && json::json_string_at(object@, "/metadata/chorus.trunc"@) == Some("0"@),
        untouched == Ok::<bool, String>(true) ==> floor == Ok::<u64, FloorError>(0),
{
    reveal_strlit("0");
    if untouched == Ok::<bool, String>(true) {
        assert("0"@ =~= seq!['0']);
        assert("0"@.drop_last() =~= Seq::<char>::empty());
        reveal_with_fuel(text::digits_value, 2);
    }
}

/// A reader may lag behind, and be level, but never run ahead.
pub proof fn law_readers_do_not_run_ahead(count: u64, batch: u64, result: Result<bool, String>)
    requires
        call_ensures(caught_up, (count, batch), result),
    ensures
        result is Err <==> count > batch,
        result == Ok::<bool, String>(true) <==> count == batch,
        result == Ok::<bool, String>(false) <==> count < batch,
{
}

/// Point reads pass only if each gave the bytes in its key's row, and nothing
/// where there are none.
pub proof fn law_passed_points_gave_the_rows(
    expected: &Table,
    points: &Vec<Option<Vec<u8>>>,
    n: u64,
    result: Result<(), String>,
    index: u64,
    key: Vec<u8>,
    bytes: Seq<u8>,
)
    requires
        expected.wf(),
        points@.len() == 63,
        call_ensures(check_points, (expected, points, n), result),
        result is Ok,
        index < 63,
        call_ensures(live::key, (index,), key),
    ensures
        table::has_row(expected.rows@, key@, Some(bytes)) <==> points@[index as int] is Some
            && points@[index as int]->0@ == bytes,
{
    table::lemma_has_row(*expected, key@, Some(bytes));
    assert(point_matches(*expected, points@, index as int));
}

/// Point reads fail only if some read gave other bytes than its key's row, or
/// bytes where there are none, or none where there are.
pub proof fn law_failed_points_differ_from_the_rows(
    expected: &Table,
    points: &Vec<Option<Vec<u8>>>,
    n: u64,
    result: Result<(), String>,
) -> (index: u64)
    requires
        expected.wf(),
        points@.len() == 63,
        call_ensures(check_points, (expected, points, n), result),
        result is Err,
    ensures
        index < 63,
        forall|key: Vec<u8>| #[trigger]
            call_ensures(live::key, (index,), key) ==> exists|bytes: Seq<u8>|
                #[trigger] table::has_row(expected.rows@, key@, Some(bytes)) != (
                points@[index as int] is Some && points@[index as int]->0@ == bytes),
{
    let i = choose|i: int|
        0 <= i < live::KEYS && !(#[trigger] point_matches(*expected, points@, i));
    assert forall|key: Vec<u8>| #[trigger] call_ensures(live::key, (i as u64,), key) implies exists|
        bytes: Seq<u8>,
    | #[trigger]
        table::has_row(expected.rows@, key@, Some(bytes)) != (points@[i] is Some
            && points@[i]->0@ == bytes) by {
        let bytes = if points@[i] is Some {
            points@[i]->0@
        } else {
            expected.values()[key@]->0
        };
        table::lemma_has_row(*expected, key@, Some(bytes));
        assert(table::has_row(expected.rows@, key@, Some(bytes)) != (points@[i] is Some
            && points@[i]->0@ == bytes));
    }
    i as u64
}

/// A range scan passes if and only if it gave the expected rows from the
/// twentieth key on and before the fiftieth, and no others.
pub proof fn law_range_scan_gives_the_rows_between(
    expected: &Table,
    scanned: &Table,
    result: Result<(), &'static str>,
    low: Vec<u8>,
    high: Vec<u8>,
)
    requires
        expected.wf(),
        scanned.wf(),
        call_ensures(check_range, (expected, scanned), result),
        call_ensures(live::key, (20u64,), low),
        call_ensures(live::key, (50u64,), high),
    ensures
        result is Ok <==> (forall|key: Seq<u8>, value: Option<Seq<u8>>| #[trigger]
            table::has_row(scanned.rows@, key, value) <==> table::has_row(
                expected.rows@,
                key,
                value,
            ) && !pending::bytes_before(key, low@) && pending::bytes_before(key, high@)),
{
    let range = Table::key_range(low@, high@);
    let part = expected.values().restrict(range);
    assert forall|key: Seq<u8>, value: Option<Seq<u8>>| result is Ok implies (#[trigger]
    table::has_row(scanned.rows@, key, value) <==> table::has_row(expected.rows@, key, value)
        && !pending::bytes_before(key, low@) && pending::bytes_before(key, high@)) by {
        table::lemma_has_row(*scanned, key, value);
        table::lemma_has_row(*expected, key, value);
        assert(range.contains(key) == (!pending::bytes_before(key, low@) && pending::bytes_before(
            key,
            high@,
        )));
    }
    if forall|key: Seq<u8>, value: Option<Seq<u8>>| #[trigger]
        table::has_row(scanned.rows@, key, value) <==> table::has_row(expected.rows@, key, value)
            && !pending::bytes_before(key, low@) && pending::bytes_before(key, high@) {
        assert forall|key: Seq<u8>| #[trigger]
            scanned.values().contains_key(key) == part.contains_key(key) && (
            scanned.values().contains_key(key) ==> scanned.values()[key] == part[key]) by {
            table::lemma_has_row(*scanned, key, scanned.values()[key]);
            table::lemma_has_row(*expected, key, scanned.values()[key]);
            table::lemma_has_row(*scanned, key, expected.values()[key]);
            table::lemma_has_row(*expected, key, expected.values()[key]);
            assert(table::has_row(scanned.rows@, key, scanned.values()[key]) == (
            scanned.values().contains_key(key)));
            assert(table::has_row(scanned.rows@, key, expected.values()[key]) == (
            scanned.values().contains_key(key) && scanned.values()[key]
                == expected.values()[key]));
            assert(range.contains(key) == (!pending::bytes_before(key, low@)
                && pending::bytes_before(key, high@)));
        }
        assert(scanned.values() =~= part);
    }
}

/// A recovered writer passes if and only if it found the rows of the model,
/// and no others.
pub proof fn law_recovery_gives_the_model(
    scanned: &Table,
    n: u64,
    result: Result<(), String>,
    model: Table,
)
    requires
        scanned.wf(),
        n + 17 <= u64::MAX,
        call_ensures(check_recovered, (scanned, n), result),
        call_ensures(live::model, (n,), model),
    ensures
        result is Ok <==> (forall|key: Seq<u8>, value: Option<Seq<u8>>| #[trigger]
            table::has_row(scanned.rows@, key, value) == table::has_row(model.rows@, key, value)),
{
    table::lemma_same_rows(*scanned, model);
}

/// A zone passes as unused with no object and as collected with at least one
/// removed.
pub proof fn law_zones_are_judged_by_their_objects(
    zone: u64,
    objects: usize,
    unused: Result<(), String>,
    collected: Result<(), String>,
)
    requires
        call_ensures(check_unused, (zone, objects), unused),
        call_ensures(check_collected, (zone, objects), collected),
    ensures
        unused is Ok <==> objects == 0,
        collected is Ok <==> objects >= 1,
{
}

/// A checkpoint holds the first thirty-two batches back in the log; collection
/// has passed it beyond them, and its first floor is neither zero nor beyond
/// the sixty-four that were flushed.
pub proof fn law_checkpoint_holds_thirty_two_batches(
    replay_after: u64,
    next: u64,
    l0: u64,
    floor: u64,
    checkpoint: Result<(), String>,
    released: bool,
    first: Result<(), String>,
)
    requires
        call_ensures(check_checkpoint, (replay_after, next, l0), checkpoint),
        call_ensures(floor_released, (floor,), released),
        call_ensures(check_first_floor, (floor,), first),
    ensures
        checkpoint is Ok <==> replay_after == 0 && next - 1 == 32 && l0 == 0,
        released <==> floor >= 33,
        first is Ok <==> 1 <= floor && floor < 65,
{
}

proof fn lemma_gone_is_filtered(before: Seq<Seq<char>>, after: Seq<Seq<char>>)
    ensures
        gone(before, after) == before.filter(|name: Seq<char>| !after.contains(name)),
    decreases before.len(),
{
    reveal(Seq::filter);
    if before.len() > 0 {
        lemma_gone_is_filtered(before.drop_last(), after);
    }
}

/// What a collection removed are the names of before that are no longer there,
/// in their order.
pub proof fn law_removed_names_are_no_longer_there(
    before: &Vec<String>,
    after: &Vec<String>,
    names: Vec<String>,
)
    requires
        call_ensures(removed, (before, after), names),
    ensures
        names@.map_values(|name: String| name@) == before@.map_values(
            |name: String| name@,
        ).filter(|name: Seq<char>| !after@.map_values(|kept: String| kept@).contains(name)),
{
    let first = before@.map_values(|name: String| name@);
    let second = after@.map_values(|kept: String| kept@);
    lemma_gone_is_filtered(first, second);
    assert(text::texts(before@) =~= first);
    assert(text::texts(after@) =~= second);
    assert(text::texts(names@) =~= names@.map_values(|name: String| name@));
}

/// Whether one of the names is this one.
pub open spec fn is_there(names: Seq<String>, name: Seq<char>) -> bool {
    exists|j: int| 0 <= j < names.len() && (#[trigger] names[j])@ == name
}

/// A zone kept its objects if and only if each name of before is still there.
pub proof fn law_kept_objects_are_still_there(
    zone: u64,
    before: &Vec<String>,
    after: &Vec<String>,
    result: Result<(), String>,
)
    requires
        call_ensures(check_kept, (zone, before, after), result),
    ensures
        result is Ok <==> (forall|i: int|
            0 <= i < before@.len() ==> #[trigger] is_there(after@, before@[i]@)),
{
    let first = text::texts(before@);
    let second = text::texts(after@);
    assert(first.len() == before@.len() && second.len() == after@.len());
    assert(forall|i: int| 0 <= i < first.len() ==> #[trigger] first[i] == before@[i]@);
    assert(forall|j: int| 0 <= j < second.len() ==> #[trigger] second[j] == after@[j]@);
    assert forall|i: int| all_among(first, second) && 0 <= i < before@.len() implies #[trigger]
    is_there(after@, before@[i]@) by {
        assert(first[i] == before@[i]@);
        assert(first.contains(before@[i]@));
        let j = choose|j: int| 0 <= j < second.len() && second[j] == before@[i]@;
        assert(after@[j]@ == before@[i]@);
    }
    if forall|i: int| 0 <= i < before@.len() ==> #[trigger] is_there(after@, before@[i]@) {
        assert forall|name: Seq<char>| first.contains(name) implies second.contains(name) by {
            let i = choose|i: int| 0 <= i < first.len() && first[i] == name;
            assert(is_there(after@, before@[i]@));
            let j = choose|j: int| 0 <= j < after@.len() && (#[trigger] after@[j])@ == name;
            assert(second[j] == name);
        }
    }
}

/// A collection waits for replay if and only if it began and nothing more came
/// of it.
pub proof fn law_waiting_collection_has_only_begun(
    first: GcEvent,
    more: bool,
    result: Result<(), &'static str>,
)
    requires
        call_ensures(check_waiting, (first, more), result),
    ensures
        result is Ok <==> first is Started && !more,
        first is Finished ==> result->Err_0@ == "GC did not start"@,
{
}

/// A field says a text if it is there and is that text.
pub proof fn law_fields_say_their_text(found: &Option<String>, wanted: &str, equal: bool)
    requires
        call_ensures(says, (found, wanted), equal),
    ensures
        equal <==> *found is Some && found->0@ == wanted@,
{
}

} // verus!
