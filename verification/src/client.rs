//! The side of a client: what it asks of the daemon, and the daemon's unit.
use serde_json::Value;
use vstd::prelude::*;

use crate::json::{
    as_bool, get, member, no_members, object, parse_bytes, parsed_bytes, put, string, tree, Json,
};
use crate::protocol::{error_response, refusal};
use crate::settings::contents;
use crate::text::{begins, ends, has, is_empty, same, trim, trimmed};
use crate::util::{below, join_path};

verus! {

/// The name of the daemon's systemd unit.
pub open spec fn unit_name() -> Seq<char> {
    "omarchy-castd.service"@
}

/// The daemon's systemd unit, for the program at `executable`.
pub open spec fn unit_text(executable: Seq<char>) -> Seq<char> {
    "[Unit]\nDescription=omarchy-cast media daemon\n\n[Service]\nType=simple\nExecStart=\""@
        + executable
        + "\"\nRestart=on-failure\nRestartSec=1\n\n[Install]\nWantedBy=default.target\n"@
}

/// The daemon's systemd unit, for the program at `executable`.
pub fn unit(executable: &str) -> (r: String)
    ensures
        r@ == unit_text(executable@),
{
    let mut out = "[Unit]\nDescription=omarchy-cast media daemon\n\n[Service]\nType=simple\nExecStart=\"".to_owned();
    out.append(executable);
    out.append("\"\nRestart=on-failure\nRestartSec=1\n\n[Install]\nWantedBy=default.target\n");
    out
}

/// The file of the daemon's unit.
pub fn unit_path(directory: &str) -> (r: String)
    ensures
        r@ == below(directory@, unit_name()),
{
    join_path(directory, "omarchy-castd.service")
}

/// Whether the unit has to be written: it does where the file holds anything else.
pub open spec fn stale(current: Option<Seq<char>>, executable: Seq<char>) -> bool {
    match current {
        Some(text) => text != unit_text(executable),
        None => true,
    }
}

/// Whether the unit has to be written: it does where the file holds anything else.
pub fn unit_is_stale(current: Option<&str>, executable: &str) -> (r: bool)
    ensures
        r == stale(contents(current), executable@),
{
    match current {
        Some(text) => !same(text, unit(executable).as_str()),
        None => true,
    }
}

/// What a reply to a ping says: that the daemon is there, if it says so.
pub open spec fn pong(reply: Option<Json>) -> bool {
    match reply {
        Some(j) => member(j, "ok"@) == Some(Json::Bool(true)),
        None => false,
    }
}

/// Whether a reply says that all is well.
pub fn says_ok(reply: &Value) -> (r: bool)
    ensures
        r == pong(Some(tree(*reply))),
{
    match get(reply, "ok") {
        Some(ok) => match as_bool(ok) {
            Some(b) => b,
            None => false,
        },
        None => false,
    }
}

/// Whether the bytes that came back on a ping show that the daemon is there.
pub fn ping_answered(reply: &[u8]) -> (r: bool)
    ensures
        r == pong(parsed_bytes(reply@)),
{
    match parse_bytes(reply) {
        Some(value) => says_ok(&value),
        None => false,
    }
}

/// What stands behind a command.
pub enum Argument {
    Nothing,
    IpAndFile,
    Ip,
    Value,
    Position,
}

/// What stands behind the command `cmd`.
pub open spec fn argument_of(cmd: Seq<char>) -> Argument {
    if cmd == "connect"@ {
        Argument::IpAndFile
    } else if cmd == "add-ip"@ || cmd == "remove-ip"@ {
        Argument::Ip
    } else if cmd == "save-multicast"@ || cmd == "set-volume"@ || cmd == "set-mute"@ || cmd
        == "set-boost"@ || cmd == "set-subtitle"@ {
        Argument::Value
    } else if cmd == "seek"@ {
        Argument::Position
    } else {
        Argument::Nothing
    }
}

/// The words of a command line, where they are there.
pub open spec fn arg(args: Seq<String>, i: int) -> Option<Seq<char>> {
    if 0 <= i < args.len() {
        Some(args[i]@)
    } else {
        None
    }
}

/// A word as a value, where it is there.
pub open spec fn as_text(word: Option<Seq<char>>) -> Option<Json> {
    match word {
        Some(s) => Some(Json::Text(s)),
        None => None,
    }
}

/// Some members, and one more where it is there.
pub open spec fn and_text(
    members: Map<Seq<char>, Json>,
    key: Seq<char>,
    value: Option<Seq<char>>,
) -> Map<Seq<char>, Json> {
    match value {
        Some(s) => members.insert(key, Json::Text(s)),
        None => members,
    }
}

/// The request that a command line makes. `position` is the number that its
/// second word denotes.
pub open spec fn request_of(args: Seq<String>, position: Option<Json>) -> Json {
    let cmd = match arg(args, 0) {
        Some(cmd) => cmd,
        None => Seq::empty(),
    };
    let members = no_members().insert("cmd"@, Json::Text(cmd));
    Json::Object(
        match argument_of(cmd) {
            Argument::IpAndFile => and_text(
                and_text(members, "ip"@, arg(args, 1)),
                "file"@,
                arg(args, 2),
            ),
            Argument::Ip => and_text(members, "ip"@, arg(args, 1)),
            Argument::Value => and_text(members, "value"@, arg(args, 1)),
            Argument::Position => match position {
                Some(number) => members.insert("position"@, number),
                None => members,
            },
            Argument::Nothing => members,
        },
    )
}

fn put_arg(request: &mut Value, key: &str, args: &Vec<String>, i: usize)
    requires
        tree(*old(request)) is Object,
    ensures
        tree(*final(request)) == Json::Object(
            and_text(tree(*old(request))->Object_0, key@, arg(args@, i as int)),
        ),
{
    if i < args.len() {
        put(request, key, string(args[i].as_str()));
    }
}

/// The request that a command line makes.
pub fn build(args: &Vec<String>, position: Option<Value>) -> (r: Value)
    ensures
        tree(r) == request_of(
            args@,
            match position {
                Some(number) => Some(tree(number)),
                None => None,
            },
        ),
{
    let cmd = if args.len() > 0 {
        args[0].clone()
    } else {
        String::new()
    };
    let c = cmd.as_str();
    let mut request = object();
    put(&mut request, "cmd", string(c));
    if same(c, "connect") {
        put_arg(&mut request, "ip", args, 1);
        put_arg(&mut request, "file", args, 2);
    } else if same(c, "add-ip") || same(c, "remove-ip") {
        put_arg(&mut request, "ip", args, 1);
    } else if same(c, "save-multicast") || same(c, "set-volume") || same(c, "set-mute") || same(
        c,
        "set-boost",
    ) || same(c, "set-subtitle") {
        put_arg(&mut request, "value", args, 1);
    } else if same(c, "seek") {
        if let Some(number) = position {
            put(&mut request, "position", number);
        }
    }
    request
}

/// What a client prints for the line that came back.
#[derive(Debug)]
pub enum Printed {
    /// The daemon's own words.
    Reply(String),
    /// A failure of its own.
    Failure(Value),
}

/// The daemon's own words in the line that came back, or the failure of a line
/// that holds none.
pub open spec fn words_of(line: Seq<char>) -> Result<Seq<char>, Json> {
    let reply = trimmed(line);
    if reply.len() > 0 {
        Ok(reply)
    } else {
        Err(refusal("empty reply from cast service"@))
    }
}

/// The failure to talk to the daemon.
pub open spec fn talk_failed(error: Seq<char>) -> Json {
    refusal("cast service error: "@ + error)
}

/// The failure to start the daemon.
pub open spec fn unavailable() -> Json {
    refusal("cast service unavailable"@)
}

/// What a client prints for the line that came back: an empty one is a failure.
pub fn printed_reply(line: &str) -> (r: Printed)
    ensures
        match r {
            Printed::Reply(reply) => words_of(line@) == Ok::<Seq<char>, Json>(reply@),
            Printed::Failure(value) => words_of(line@) == Err::<Seq<char>, Json>(tree(value)),
        },
{
    let reply = trim(line);
    if is_empty(reply.as_str()) {
        Printed::Failure(error_response("empty reply from cast service"))
    } else {
        Printed::Reply(reply)
    }
}

/// What a client prints when talking to the daemon failed.
pub fn printed_error(error: &str) -> (r: Value)
    ensures
        tree(r) == talk_failed(error@),
{
    let mut message = "cast service error: ".to_owned();
    message.append(error);
    error_response(message.as_str())
}

/// What a client prints when the daemon cannot be started.
pub fn printed_unavailable() -> (r: Value)
    ensures
        tree(r) == unavailable(),
{
    error_response("cast service unavailable")
}

/// A unit is stale until it is written, and for another program it is stale
/// again.
pub proof fn written_unit_is_not_stale(executable: Seq<char>, other: Seq<char>, text: Seq<char>)
    ensures
        stale(None, executable),
        !stale(Some(unit_text(executable)), executable),
        other != executable ==> stale(Some(unit_text(other)), executable),
        !stale(Some(text), executable) ==> text == unit_text(executable),
{
    if unit_text(other) == unit_text(executable) {
        let head = "[Unit]\nDescription=omarchy-cast media daemon\n\n[Service]\nType=simple\nExecStart=\""@;
        let tail = "\"\nRestart=on-failure\nRestartSec=1\n\n[Install]\nWantedBy=default.target\n"@;
        let a = unit_text(other);
        let b = unit_text(executable);
        let n = head.len() as int;
        assert(a =~= head + other + tail && b =~= head + executable + tail);
        assert(a.len() == n + other.len() + tail.len());
        assert(b.len() == n + executable.len() + tail.len());
        assert(a.subrange(n, n + other.len()) =~= other);
        assert(b.subrange(n, n + executable.len()) =~= executable);
    }
}

/// The unit starts the program at its path, in quotes, starts it again a second
/// after it failed, and belongs to the user's session.
pub proof fn unit_runs_the_program(executable: Seq<char>)
    ensures
        begins(unit_text(executable), "[Unit]\n"@),
        has(unit_text(executable), "\n[Service]\nType=simple\nExecStart=\""@ + executable + "\"\n"@),
        has(unit_text(executable), "\nRestart=on-failure\nRestartSec=1\n"@),
        ends(unit_text(executable), "\n[Install]\nWantedBy=default.target\n"@),
        unit_name() == "omarchy-castd.service"@,
{
    let head = "[Unit]\nDescription=omarchy-cast media daemon\n\n[Service]\nType=simple\nExecStart=\""@;
    let tail = "\"\nRestart=on-failure\nRestartSec=1\n\n[Install]\nWantedBy=default.target\n"@;
    let text = unit_text(executable);
    let middle = "\n[Service]\nType=simple\nExecStart=\""@;
    reveal_strlit("[Unit]\nDescription=omarchy-cast media daemon\n\n[Service]\nType=simple\nExecStart=\"");
    assert(begins(text, "[Unit]\n"@)) by {
        reveal_strlit("[Unit]\n");
        assert(text.take(7) =~= "[Unit]\n"@);
    }
    assert(has(text, middle + executable + "\"\n"@)) by {
        reveal_strlit("\n[Service]\nType=simple\nExecStart=\"");
        reveal_strlit("\"\n");
        reveal_strlit("\"\nRestart=on-failure\nRestartSec=1\n\n[Install]\nWantedBy=default.target\n");
        let at = head.len() - middle.len();
        let whole = middle + executable + "\"\n"@;
        assert(head.skip(at) =~= middle);
        assert(text.subrange(at, at + whole.len()) =~= whole);
        assert(crate::text::occurs_at(text, whole, at));
    }
    assert(has(text, "\nRestart=on-failure\nRestartSec=1\n"@)) by {
        reveal_strlit("\nRestart=on-failure\nRestartSec=1\n");
        reveal_strlit("\"\nRestart=on-failure\nRestartSec=1\n\n[Install]\nWantedBy=default.target\n");
        let whole = "\nRestart=on-failure\nRestartSec=1\n"@;
        let at = head.len() as int + executable.len() + 1;
        assert(text.subrange(at, at + whole.len()) =~= whole);
        assert(crate::text::occurs_at(text, whole, at));
    }
    assert(ends(text, "\n[Install]\nWantedBy=default.target\n"@)) by {
        reveal_strlit("\n[Install]\nWantedBy=default.target\n");
        reveal_strlit("\"\nRestart=on-failure\nRestartSec=1\n\n[Install]\nWantedBy=default.target\n");
        let whole = "\n[Install]\nWantedBy=default.target\n"@;
        assert(text.skip(text.len() - whole.len()) =~= whole);
    }
}

/// The daemon is there where its reply says so, and a refusal does not.
pub proof fn only_a_yes_is_a_pong(members: Map<Seq<char>, Json>, message: Seq<char>)
    ensures
        pong(Some(Json::Object(members.insert("ok"@, Json::Bool(true))))),
        !pong(Some(Json::Object(members.insert("ok"@, Json::Bool(false))))),
        !members.contains_key("ok"@) ==> !pong(Some(Json::Object(members))),
        !pong(Some(refusal(message))),
        !pong(None),
{
    crate::protocol::refusals_say_why(message);
}

/// A request names the command, and gives what stands behind it under the name
/// by which the daemon looks for it: an address and a file to connect, an
/// address to keep or drop, a value to set, a position to seek.
pub proof fn requests_say_what_is_asked(
    args: Seq<String>,
    position: Option<Json>,
    key: Seq<char>,
)
    requires
        args.len() > 0,
    ensures
        ({
            let cmd = args[0]@;
            let r = request_of(args, position);
            &&& member(r, "cmd"@) == Some(Json::Text(cmd))
            &&& cmd == "connect"@ ==> {
                &&& member(r, "ip"@) == as_text(arg(args, 1))
                &&& member(r, "file"@) == as_text(arg(args, 2))
            }
            &&& cmd == "add-ip"@ || cmd == "remove-ip"@ ==> member(r, "ip"@) == as_text(
                arg(args, 1),
            )
            &&& cmd == "save-multicast"@ || cmd == "set-volume"@ || cmd == "set-mute"@ || cmd
                == "set-boost"@ || cmd == "set-subtitle"@ ==> member(r, "value"@) == as_text(
                arg(args, 1),
            )
            &&& cmd == "seek"@ ==> member(r, "position"@) == position
            &&& key != "cmd"@ && key != "ip"@ && key != "file"@ && key != "value"@ && key
                != "position"@ ==> member(r, key) is None
            &&& member(r, "file"@) is Some ==> cmd == "connect"@
            &&& member(r, "position"@) is Some ==> cmd == "seek"@
        }),
{
    reveal_strlit("connect");
    reveal_strlit("add-ip");
    reveal_strlit("remove-ip");
    reveal_strlit("save-multicast");
    reveal_strlit("set-volume");
    reveal_strlit("set-mute");
    reveal_strlit("set-boost");
    reveal_strlit("set-subtitle");
    reveal_strlit("seek");
    reveal_strlit("cmd");
    reveal_strlit("ip");
    reveal_strlit("file");
    reveal_strlit("value");
    reveal_strlit("position");
    assert("connect"@.len() == 7);
    assert("add-ip"@.len() == 6);
    assert("remove-ip"@.len() == 9);
    assert("save-multicast"@.len() == 14);
    assert("set-volume"@.len() == 10);
    assert("set-mute"@.len() == 8);
    assert("set-boost"@.len() == 9);
    assert("set-subtitle"@.len() == 12);
    assert("seek"@.len() == 4);
    assert("cmd"@.len() == 3);
    assert("ip"@.len() == 2);
    assert("file"@.len() == 4);
    assert("value"@.len() == 5);
    assert("position"@.len() == 8);
    assert("remove-ip"@[0] != "set-boost"@[0]);
    assert("set-mute"@[0] != "position"@[0]);
    assert("seek"@[0] != "file"@[0]);
}

/// What comes back is printed in the daemon's own words; a line without any is
/// reported as a failure, and so is a daemon that cannot be reached or started.
pub proof fn failures_are_reported(line: Seq<char>, error: Seq<char>)
    ensures
        words_of(line) matches Ok(reply) ==> reply == trimmed(line) && reply.len() > 0,
        trimmed(line).len() > 0 ==> words_of(line) is Ok,
        words_of(line) matches Err(failure) ==> member(failure, "error"@) == Some(
            Json::Text("empty reply from cast service"@),
        ) && !pong(Some(failure)),
        member(talk_failed(error), "error"@) == Some(Json::Text("cast service error: "@ + error)),
        member(unavailable(), "error"@) == Some(Json::Text("cast service unavailable"@)),
        !pong(Some(talk_failed(error))) && !pong(Some(unavailable())),
{
    crate::protocol::refusals_say_why("empty reply from cast service"@);
    crate::protocol::refusals_say_why("cast service error: "@ + error);
    crate::protocol::refusals_say_why("cast service unavailable"@);
}

} // verus!
