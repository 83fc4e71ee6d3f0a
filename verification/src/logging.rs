//! Which log events also go to the Windows event log, the text they carry
//! there, and log timestamps.
use vstd::prelude::*;

use crate::json::{
    insert_member, json_view, keys_unique, lemma_object_view, members_view, object_insert, Json,
    JsonValue,
};
use crate::text::{concat2, decimal_seq, decimal_string, owned, str_eq};

verus! {

broadcast use vstd::string::group_string_axioms;

/// Message id of every event the application reports.
pub const EVENTLOG_MESSAGE_ID: u32 = 0x4000_0001;

/// Warnings, errors, and the start and end of the application and of its
/// window, are also written to the Windows event log.
pub open spec fn event_log_wanted(level: Seq<char>, event: Seq<char>) -> bool {
    level == "warn"@ || level == "error"@ || event == "app.start"@ || event == "app.exit"@ || event
        == "gui.start"@ || event == "gui.exit"@
}

pub fn should_write_event_log(level: &str, event: &str) -> (r: bool)
    ensures
        r == event_log_wanted(level@, event@),
{
    str_eq(level, "warn") || str_eq(level, "error") || str_eq(event, "app.start") || str_eq(
        event,
        "app.exit",
    ) || str_eq(event, "gui.start") || str_eq(event, "gui.exit")
}

/// The event-log message id for an event: the same for all of them.
pub fn event_id_for(event: &str) -> (r: u32)
    ensures
        r == EVENTLOG_MESSAGE_ID,
{
    EVENTLOG_MESSAGE_ID
}

/// Kind of a Windows event-log entry.
#[derive(Clone, Copy, PartialEq, Eq, Debug, Structural)]
pub enum EventLogType {
    Error,
    Warning,
    Information,
}

pub open spec fn event_log_type_spec(level: Seq<char>) -> EventLogType {
    if level == "error"@ {
        EventLogType::Error
    } else if level == "warn"@ {
        EventLogType::Warning
    } else {
        EventLogType::Information
    }
}

pub fn event_log_type(level: &str) -> (r: EventLogType)
    ensures
        r == event_log_type_spec(level@),
{
    if str_eq(level, "error") {
        EventLogType::Error
    } else if str_eq(level, "warn") {
        EventLogType::Warning
    } else {
        EventLogType::Information
    }
}

/// `key=value` lines of the fields, each after a CR LF.
pub open spec fn field_lines(fields: Seq<(Seq<char>, Seq<char>)>) -> Seq<char>
    decreases fields.len(),
{
    if fields.len() == 0 {
        Seq::empty()
    } else {
        field_lines(fields.drop_last()) + "\r\n"@ + fields.last().0 + "="@ + fields.last().1
    }
}

pub open spec fn fields_view(fields: Seq<(&str, String)>) -> Seq<(Seq<char>, Seq<char>)> {
    fields.map_values(|f: (&str, String)| (f.0@, f.1@))
}

/// The text of an event-log entry: the event, the level, the process id
/// and the log file's path, then each field, one `key=value` per line.
pub open spec fn event_log_message_spec(
    event: Seq<char>,
    level: Seq<char>,
    pid: u32,
    log_path: Seq<char>,
    fields: Seq<(Seq<char>, Seq<char>)>,
) -> Seq<char> {
    "event="@ + event + "\r\nlevel="@ + level + "\r\npid="@ + decimal_seq(pid as nat)
        + "\r\nlog_path="@ + log_path + field_lines(fields)
}

pub fn event_log_message(
    event: &str,
    level: &str,
    pid: u32,
    log_path: &str,
    fields: &[(&str, String)],
) -> (r: String)
    ensures
        r@ == event_log_message_spec(event@, level@, pid, log_path@, fields_view(fields@)),
{
    let mut r = concat2("event=", event);
    r.append("\r\nlevel=");
    r.append(level);
    r.append("\r\npid=");
    r.append(decimal_string(pid as u64).as_str());
    r.append("\r\nlog_path=");
    r.append(log_path);
    let ghost head = r@;
    let mut i: usize = 0;
    while i < fields.len()
        invariant
            i <= fields@.len(),
            r@ == head + field_lines(fields_view(fields@).subrange(0, i as int)),
        decreases fields@.len() - i,
    {
        r.append("\r\n");
        r.append(fields[i].0);
        r.append("=");
        r.append(fields[i].1.as_str());
        let ghost prefix = fields_view(fields@).subrange(0, i + 1);
        assert(prefix.drop_last() =~= fields_view(fields@).subrange(0, i as int));
        i = i + 1;
    }
    assert(fields_view(fields@).subrange(0, fields@.len() as int) =~= fields_view(fields@));
    r
}

#[verifier::external_type_specification]
#[verifier::external_body]
pub struct ExSystemTime(std::time::SystemTime);

/// `SystemTime::now`: the system clock's current reading.  Nothing is
/// claimed of it: it depends on the moment of the call.
#[verifier::external_body]
fn clock_now() -> (r: std::time::SystemTime) {
    std::time::SystemTime::now()
}

/// `SystemTime::duration_since(UNIX_EPOCH)`: how long after the Unix epoch
/// `t` lies, `None` when `t` is earlier.  The reading is opaque here, so
/// nothing is claimed of the result.
#[verifier::external_body]
fn since_unix_epoch(t: &std::time::SystemTime) -> (r: Option<std::time::Duration>) {
    t.duration_since(std::time::UNIX_EPOCH).ok()
}

/// `Duration::as_secs`: the whole seconds of `d`.  The duration is opaque
/// here, so nothing is claimed of the result.
#[verifier::external_body]
fn whole_seconds(d: &std::time::Duration) -> (r: u64) {
    d.as_secs()
}

/// Seconds since the Unix epoch by the system clock; 0 when the clock
/// reads earlier than the epoch.
pub fn unix_timestamp_seconds() -> (r: u64) {
    let now = clock_now();
    match since_unix_epoch(&now) {
        Some(d) => whole_seconds(&d),
        None => 0,
    }
}

/// The timestamp a log record carries: the seconds as decimal text.
pub fn timestamp_text(seconds: u64) -> (r: String)
    ensures
        r@ == decimal_seq(seconds as nat),
{
    decimal_string(seconds)
}

/// The current time as a log timestamp.
pub fn log_timestamp() -> (r: String)
    ensures
        exists|s: u64| r@ == decimal_seq(s as nat),
{
    let s = unix_timestamp_seconds();
    timestamp_text(s)
}

/// The members of a log record: `ts`, `level`, `event` and `pid`, then
/// each field set in turn (a field may replace an earlier member).
pub open spec fn record_members(
    base: Seq<(Seq<char>, Json)>,
    fields: Seq<(Seq<char>, Seq<char>)>,
) -> Seq<(Seq<char>, Json)>
    decreases fields.len(),
{
    if fields.len() == 0 {
        base
    } else {
        insert_member(
            record_members(base, fields.drop_last()),
            fields.last().0,
            Json::Str(fields.last().1),
        )
    }
}

pub open spec fn log_record_spec(
    ts: Seq<char>,
    level: Seq<char>,
    event: Seq<char>,
    pid: u32,
    fields: Seq<(Seq<char>, Seq<char>)>,
) -> Json {
    Json::Object(
        record_members(
            seq![
                ("ts"@, Json::Str(ts)),
                ("level"@, Json::Str(level)),
                ("event"@, Json::Str(event)),
                ("pid"@, Json::Number(decimal_seq(pid as nat))),
            ],
            fields,
        ),
    )
}

/// The JSON object one line of the log file holds.
pub fn log_record(ts: &str, level: &str, event: &str, pid: u32, fields: &[(&str, String)]) -> (r:
    JsonValue)
    ensures
        json_view(r) == log_record_spec(ts@, level@, event@, pid, fields_view(fields@)),
        r is Object && keys_unique(r->Object_0@),
{
    let mut es: Vec<(String, JsonValue)> = Vec::new();
    es.push((owned("ts"), JsonValue::Str(owned(ts))));
    es.push((owned("level"), JsonValue::Str(owned(level))));
    es.push((owned("event"), JsonValue::Str(owned(event))));
    es.push((owned("pid"), JsonValue::Number(decimal_string(pid as u64))));
    let ghost base = seq![
        ("ts"@, Json::Str(ts@)),
        ("level"@, Json::Str(level@)),
        ("event"@, Json::Str(event@)),
        ("pid"@, Json::Number(decimal_seq(pid as nat))),
    ];
    proof {
        reveal_strlit("ts");
        reveal_strlit("level");
        reveal_strlit("event");
        reveal_strlit("pid");
        assert(members_view(es@) =~= base);
        assert(keys_unique(es@)) by {
            assert forall|a: int, b: int| 0 <= a < b < es@.len() implies (#[trigger] es@[a]).0@
                != (#[trigger] es@[b]).0@ by {
                assert(es@[a].0@ == base[a].0 && es@[b].0@ == base[b].0);
                assert("ts"@[0] == 't' && "level"@[0] == 'l' && "event"@[0] == 'e' && "pid"@[0]
                    == 'p');
            }
        }
    }
    let mut i: usize = 0;
    while i < fields.len()
        invariant
            i <= fields@.len(),
            keys_unique(es@),
            members_view(es@) == record_members(base, fields_view(fields@).subrange(0, i as int)),
        decreases fields@.len() - i,
    {
        let ghost prefix = fields_view(fields@).subrange(0, i + 1);
        assert(prefix.drop_last() =~= fields_view(fields@).subrange(0, i as int));
        let v = JsonValue::Str(fields[i].1.clone());
        object_insert(&mut es, owned(fields[i].0), v);
        i = i + 1;
    }
    assert(fields_view(fields@).subrange(0, fields@.len() as int) =~= fields_view(fields@));
    proof {
        lemma_object_view(es);
    }
    JsonValue::Object(es)
}

} // verus!
