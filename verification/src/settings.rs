//! The user's settings, and the lists of addresses kept beside them.
//!
//! A function that reads takes what the file holds, or `None` where it cannot
//! be read; one that writes returns what the file is to hold.
use serde_json::Value;
use vstd::prelude::*;

use crate::json::{
    alike, as_str, get as json_get, is_object, member, nested, no_members, object, parse,
    parsed, put, render, string, text_of, tree, written, Json,
};
use crate::number::{parse_i32, signed, signed_decimal};
use crate::text::{
    ascending, closed_lines, closed_lines_are_lines, is_empty, join, joined, joined_lines, less, lines,
    lines_of, one_line, precedes, precedes_is_total, precedes_is_transitive, same, take_adds, trim,
    trimmed, views,
};

verus! {

/// What a file holds, if it can be read.
pub open spec fn contents(text: Option<&str>) -> Option<Seq<char>> {
    match text {
        Some(s) => Some(s@),
        None => None,
    }
}

/// The value that the settings hold.
pub open spec fn settings_tree(text: Option<Seq<char>>) -> Option<Json> {
    match text {
        Some(s) => parsed(s),
        None => None,
    }
}

/// The setting `key` of settings that could be read; `default` where it is
/// missing or is not a text.
pub open spec fn setting_in(settings: Json, key: Seq<char>, default: Seq<char>) -> Seq<char> {
    match text_of(member(settings, key)) {
        Some(value) => value,
        None => default,
    }
}

/// The setting `key`; `default` where it is missing, is not a text, or the
/// settings cannot be read.
pub open spec fn setting(text: Option<Seq<char>>, key: Seq<char>, default: Seq<char>) -> Seq<char> {
    match settings_tree(text) {
        Some(j) => setting_in(j, key, default),
        None => default,
    }
}

/// The members of the settings; none where they are not an object.
pub open spec fn settings_members(text: Option<Seq<char>>) -> Map<Seq<char>, Json> {
    match settings_tree(text) {
        Some(Json::Object(members)) => members,
        _ => no_members(),
    }
}

/// The settings after `key` has been set to `value`.
pub open spec fn with_setting(
    text: Option<Seq<char>>,
    key: Seq<char>,
    value: Seq<char>,
) -> Seq<char> {
    written(Json::Object(settings_members(text).insert(key, Json::Text(value))))
}

/// The setting `key` of settings that could be read.
pub fn get_from(settings: &Value, key: &str, default: &str) -> (r: String)
    ensures
        r@ == setting_in(tree(*settings), key@, default@),
{
    match json_get(settings, key) {
        Some(found) => match as_str(found) {
            Some(s) => s.to_owned(),
            None => default.to_owned(),
        },
        None => default.to_owned(),
    }
}

/// The setting `key`.
pub fn get(text: Option<&str>, key: &str, default: &str) -> (r: String)
    ensures
        r@ == setting(contents(text), key@, default@),
{
    match text {
        Some(source) => match parse(source) {
            Some(value) => get_from(&value, key, default),
            None => default.to_owned(),
        },
        None => default.to_owned(),
    }
}

/// The settings with `key` set to `value`; settings that are no object are
/// begun anew.
pub open spec fn amended(settings: Option<Json>, key: Seq<char>, value: Seq<char>) -> Json {
    let members = match settings {
        Some(Json::Object(members)) => members,
        _ => no_members(),
    };
    Json::Object(members.insert(key, Json::Text(value)))
}

/// The settings with `key` set to `value`; settings that are no object are
/// begun anew.
pub fn set_in(settings: Option<Value>, key: &str, value: &str) -> (r: Value)
    ensures
        tree(r) == amended(
            match settings {
                Some(found) => Some(tree(found)),
                None => None,
            },
            key@,
            value@,
        ),
{
    let mut data = match settings {
        Some(found) => if is_object(&found) {
            found
        } else {
            object()
        },
        None => object(),
    };
    put(&mut data, key, string(value));
    data
}

/// What the settings are to hold after `key` has been set to `value`. What
/// other settings say is kept.
pub fn set(text: Option<&str>, key: &str, value: &str) -> (r: String)
    ensures
        r@ == with_setting(contents(text), key@, value@),
        forall|default: Seq<char>| #[trigger] setting(Some(r@), key@, default) == value@,
        forall|other: Seq<char>, default: Seq<char>|
            other != key@ ==> setting(Some(r@), other, default) == #[trigger] setting(
                contents(text),
                other,
                default,
            ),
{
    let found: Option<Value> = match text {
        Some(source) => parse(source),
        None => None,
    };
    let ghost before = settings_members(contents(text));
    assert(nested(Json::Object(before), 127));
    let data = set_in(found, key, value);
    let ghost after = before.insert(key@, Json::Text(value@));
    assert(tree(data) == Json::Object(after));
    assert forall|k: Seq<char>| after.contains_key(k) implies nested(#[trigger] after[k], 126) by {
        if k != key@ {
            assert(before.contains_key(k));
            assert(after[k] == before[k]);
        }
    }
    assert(nested(Json::Object(after), 127));
    let r = render(&data);
    proof {
        let back = parsed(r@)->0;
        assert(alike(Json::Object(after), back, 127));
        assert(back is Object);
        let members = back->Object_0;
        assert(members.dom() == after.dom());
        assert forall|k: Seq<char>| text_of(#[trigger] member(back, k)) == text_of(
            member(Json::Object(after), k),
        ) by {
            assert(members.contains_key(k) == members.dom().contains(k));
            assert(after.contains_key(k) == after.dom().contains(k));
            if after.contains_key(k) {
                assert(alike(after[k], members[k], 126));
            }
        }
        assert forall|default: Seq<char>| #[trigger] setting(Some(r@), key@, default)
            == value@ by {
            assert(member(back, key@) == member(back, key@));
        }
        assert forall|other: Seq<char>, default: Seq<char>| other != key@ implies setting(
            Some(r@),
            other,
            default,
        ) == #[trigger] setting(contents(text), other, default) by {
            assert(text_of(member(back, other)) == text_of(member(Json::Object(after), other)));
            assert(after.contains_key(other) == before.contains_key(other));
            assert(member(Json::Object(after), other) == member(Json::Object(before), other));
        }
    }
    r
}

/// Whether receivers are searched for by multicast.
pub open spec fn multicast_setting(text: Option<Seq<char>>) -> bool {
    setting(text, "multicastDiscovery"@, "true"@) == "true"@
}

/// The receiver that was cast to last.
pub open spec fn receiver_setting(text: Option<Seq<char>>) -> Seq<char> {
    setting(text, "lastReceiver"@, ""@)
}

/// Whether receivers are searched for by multicast.
pub fn multicast_discovery(text: Option<&str>) -> (r: bool)
    ensures
        r == multicast_setting(contents(text)),
{
    same(get(text, "multicastDiscovery", "true").as_str(), "true")
}

/// The receiver that was cast to last.
pub fn last_receiver(text: Option<&str>) -> (r: String)
    ensures
        r@ == receiver_setting(contents(text)),
{
    get(text, "lastReceiver", "")
}

/// Audio boost levels the widget offers, in dB. 0 leaves the soundtrack untouched.
pub const BOOST_LEVELS: [i32; 3] = [0, 6, 12];

/// A boost level that the widget offers.
pub open spec fn offered_boost(level: int) -> bool {
    level == 0 || level == 6 || level == 12
}

/// The boost level that a text denotes.
pub open spec fn boost_of(value: Seq<char>) -> Option<int> {
    match signed(trimmed(value)) {
        Some(level) => if offered_boost(level) {
            Some(level)
        } else {
            None
        },
        None => None,
    }
}

/// Parses a boost level as sent by the widget (`"0"`, `"6"`, `"12"`).
pub fn parse_boost(value: &str) -> (r: Option<i32>)
    ensures
        match r {
            Some(level) => boost_of(value@) == Some(level as int),
            None => boost_of(value@) is None,
        },
{
    match parse_i32(trim(value).as_str()) {
        Some(level) => {
            if level == BOOST_LEVELS[0] || level == BOOST_LEVELS[1] || level == BOOST_LEVELS[2] {
                Some(level)
            } else {
                None
            }
        },
        None => None,
    }
}

/// Preferred subtitle language ("off", or a two-letter code) for new casts.
pub open spec fn subtitle_setting(text: Option<Seq<char>>) -> Seq<char> {
    setting(text, "subtitles"@, "off"@)
}

/// Preferred subtitle language ("off", or a two-letter code) for new casts.
pub fn subtitle_preference(text: Option<&str>) -> (r: String)
    ensures
        r@ == subtitle_setting(contents(text)),
{
    get(text, "subtitles", "off")
}

/// The boost level of the settings; 0 where they hold none that is offered.
pub open spec fn boost_setting(text: Option<Seq<char>>) -> int {
    match boost_of(setting(text, "audioBoost"@, "0"@)) {
        Some(level) => level,
        None => 0,
    }
}

/// The boost level of the settings.
pub fn audio_boost(text: Option<&str>) -> (r: i32)
    ensures
        r == boost_setting(contents(text)),
        offered_boost(r as int),
{
    match parse_boost(get(text, "audioBoost", "0").as_str()) {
        Some(level) => level,
        None => 0,
    }
}

// ---------------------------------------------------------------------------
// Lists of addresses

/// The lines of a file, without white space around them and without empty ones.
pub open spec fn entries(lines: Seq<Seq<char>>) -> Seq<Seq<char>>
    decreases lines.len(),
{
    if lines.len() == 0 {
        Seq::empty()
    } else if trimmed(lines.last()).len() == 0 {
        entries(lines.drop_last())
    } else {
        entries(lines.drop_last()).push(trimmed(lines.last()))
    }
}

/// The entries of a list, none where it cannot be read.
pub open spec fn listed(text: Option<Seq<char>>) -> Seq<Seq<char>> {
    match text {
        Some(s) => entries(lines_of(s)),
        None => Seq::empty(),
    }
}

/// What the file of a list holds: each entry on a line of its own.
pub open spec fn list_text(list: Seq<Seq<char>>) -> Seq<char> {
    let body = joined(list, "\n"@);
    if body.len() == 0 {
        body
    } else {
        body.push('\n')
    }
}

fn read_lines(text: Option<&str>) -> (r: Vec<String>)
    ensures
        views(r@) == listed(contents(text)),
{
    let mut out: Vec<String> = Vec::new();
    let source = match text {
        Some(s) => s,
        None => {
            assert(views(out@) =~= Seq::empty());
            return out;
        },
    };
    let all = lines(source);
    assert(views(out@) =~= entries(views(all@).take(0)));
    for i in 0..all.len()
        invariant
            views(all@) == lines_of(source@),
            views(out@) == entries(views(all@).take(i as int)),
    {
        let line = trim(all[i].as_str());
        let ghost upto = views(all@).take(i + 1);
        assert(upto.drop_last() =~= views(all@).take(i as int));
        assert(upto.last() == all@[i as int]@);
        if !is_empty(line.as_str()) {
            let ghost before = out@;
            out.push(line);
            assert(views(out@) =~= views(before).push(trimmed(all@[i as int]@)));
        }
    }
    assert(views(all@).take(all@.len() as int) =~= views(all@));
    out
}

/// The addresses that the user entered.
pub fn manual_ips(text: Option<&str>) -> (r: Vec<String>)
    ensures
        views(r@) == listed(contents(text)),
{
    read_lines(text)
}

/// What the file of the entered addresses is to hold.
pub fn write_manual_ips(ips: &Vec<String>) -> (r: String)
    ensures
        r@ == list_text(views(ips@)),
{
    let mut body = join(ips, "\n");
    if !is_empty(body.as_str()) {
        body.push('\n');
    }
    body
}

/// Whether a list of strings holds a string.
pub fn holds(list: &Vec<String>, item: &str) -> (r: bool)
    ensures
        r == views(list@).contains(item@),
{
    for i in 0..list.len()
        invariant
            forall|j: int| 0 <= j < i ==> views(list@)[j] != item@,
    {
        if same(list[i].as_str(), item) {
            assert(views(list@)[i as int] == item@);
            return true;
        }
    }
    false
}

/// Takes a string into an ascending list that does not hold it twice.
pub fn insert_sorted(list: &mut Vec<String>, item: &str)
    requires
        ascending(views(old(list)@)),
    ensures
        ascending(views(final(list)@)),
        views(final(list)@).to_set() == views(old(list)@).to_set().insert(item@),
{
    let ghost before = views(list@);
    let mut at: usize = 0;
    while at < list.len() && less(list[at].as_str(), item)
        invariant
            at <= list@.len(),
            views(list@) == before,
            forall|j: int| 0 <= j < at ==> precedes(#[trigger] before[j], item@),
        decreases list@.len() - at,
    {
        assert(before[at as int] == list@[at as int]@);
        at = at + 1;
    }
    if at < list.len() {
        assert(before[at as int] == list@[at as int]@);
        if same(list[at].as_str(), item) {
            assert(before.contains(item@));
            assert(before.to_set() =~= before.to_set().insert(item@));
            return;
        }
    }
    list.insert(at, item.to_owned());
    let ghost after = views(list@);
    proof {
        assert(after =~= before.insert(at as int, item@));
        assert forall|i: int, j: int| 0 <= i < j < after.len() implies precedes(
            #[trigger] after[i],
            #[trigger] after[j],
        ) by {
            if j < at {
                assert(precedes(before[i], before[j]));
            } else if j == at {
                assert(precedes(before[i], item@));
            } else {
                precedes_is_total(before[at as int], item@);
                if i == at {
                    if j - 1 > at {
                        assert(precedes(before[at as int], before[j - 1]));
                        precedes_is_transitive(item@, before[at as int], before[j - 1]);
                    }
                } else if i < at {
                    assert(precedes(before[i], before[j - 1]));
                } else {
                    assert(precedes(before[i - 1], before[j - 1]));
                }
            }
        }
        assert forall|x: Seq<char>| after.contains(x) == (before.contains(x) || x == item@) by {
            if before.contains(x) {
                let k = choose|k: int| 0 <= k < before.len() && before[k] == x;
                if k < at {
                    assert(after[k] == x);
                } else {
                    assert(after[k + 1] == x);
                }
            }
            if x == item@ {
                assert(after[at as int] == x);
            }
            if after.contains(x) && x != item@ {
                let k = choose|k: int| 0 <= k < after.len() && after[k] == x;
                if k < at {
                    assert(before[k] == x);
                } else {
                    assert(before[k - 1] == x);
                }
            }
        }
        assert(after.to_set() =~= before.to_set().insert(item@));
    }
}

/// The addresses that the firewall was opened for, in ascending order, each once.
pub fn firewall_ledger(text: Option<&str>) -> (r: Vec<String>)
    ensures
        ascending(views(r@)),
        views(r@).to_set() == listed(contents(text)).to_set(),
{
    let all = read_lines(text);
    let mut out: Vec<String> = Vec::new();
    assert(views(out@).to_set() =~= views(all@).take(0).to_set());
    for i in 0..all.len()
        invariant
            ascending(views(out@)),
            views(out@).to_set() == views(all@).take(i as int).to_set(),
    {
        insert_sorted(&mut out, all[i].as_str());
        proof {
            take_adds(views(all@), i as int);
        }
    }
    assert(views(all@).take(all@.len() as int) =~= views(all@));
    out
}

/// What the file of the opened addresses is to hold.
pub fn write_firewall_ledger(ips: &Vec<String>) -> (r: String)
    ensures
        r@ == list_text(views(ips@)),
{
    write_manual_ips(ips)
}

// ---------------------------------------------------------------------------
// Laws

/// What a file of entries can hold: no white space at either end, no line
/// break inside, and not empty.
pub open spec fn is_entry(entry: Seq<char>) -> bool {
    entry.len() > 0 && trimmed(entry) == entry && one_line(entry)
}

proof fn entries_are_kept(list: Seq<Seq<char>>)
    requires
        forall|i: int| 0 <= i < list.len() ==> is_entry(#[trigger] list[i]),
    ensures
        entries(list) == list,
    decreases list.len(),
{
    if list.len() > 0 {
        assert(is_entry(list[list.len() - 1]));
        entries_are_kept(list.drop_last());
        assert(list.drop_last().push(list.last()) =~= list);
    }
}

/// A list of addresses is read as it was written.
pub proof fn list_is_read_back(list: Seq<Seq<char>>)
    requires
        forall|i: int| 0 <= i < list.len() ==> is_entry(#[trigger] list[i]),
    ensures
        listed(Some(list_text(list))) == list,
{
    reveal_strlit("\n");
    assert("\n"@ =~= seq!['\n']);
    if list.len() == 0 {
        assert(lines_of(Seq::empty()) =~= Seq::empty());
        assert(entries(Seq::empty()) =~= list);
    } else {
        joined_lines(list);
        let body = joined(list, "\n"@);
        assert(is_entry(list[list.len() - 1]));
        assert(body.len() > 0);
        assert(body.push('\n') =~= body + seq!['\n']);
        assert forall|i: int| 0 <= i < list.len() implies one_line(#[trigger] list[i]) by {
            assert(is_entry(list[i]));
        }
        closed_lines_are_lines(list);
        entries_are_kept(list);
    }
}

/// Two ascending lists of the same addresses are the same list.
pub proof fn ledger_is_unique(a: Seq<Seq<char>>, b: Seq<Seq<char>>)
    requires
        ascending(a),
        ascending(b),
        a.to_set() == b.to_set(),
    ensures
        a == b,
    decreases a.len(),
{
    assert forall|x: Seq<char>| a.contains(x) == b.contains(x) by {
        if a.contains(x) {
            assert(a.to_set().contains(x));
            assert(b.to_set().contains(x));
        }
        if b.contains(x) {
            assert(b.to_set().contains(x));
            assert(a.to_set().contains(x));
        }
    }
    if a.len() == 0 {
        if b.len() > 0 {
            assert(b.contains(b[0]));
        }
        assert(a =~= b);
    } else if b.len() == 0 {
        assert(a.contains(a[0]));
    } else {
        let x = a.last();
        let y = b.last();
        assert(a.contains(x) && b.contains(y));
        let i = choose|i: int| 0 <= i < b.len() && b[i] == x;
        let j = choose|j: int| 0 <= j < a.len() && a[j] == y;
        if i < b.len() - 1 {
            assert(precedes(b[i], b[b.len() - 1]));
            if j < a.len() - 1 {
                assert(precedes(a[j], a[a.len() - 1]));
                precedes_is_total(x, y);
            } else {
                precedes_is_total(x, y);
            }
        }
        assert(x == y);
        let p = a.drop_last();
        let q = b.drop_last();
        assert forall|z: Seq<char>| p.to_set().contains(z) == q.to_set().contains(z) by {
            if p.contains(z) {
                let k = choose|k: int| 0 <= k < p.len() && p[k] == z;
                assert(a[k] == z);
                assert(precedes(a[k], a[a.len() - 1]));
                precedes_is_total(z, x);
                assert(b.contains(z));
                let m = choose|m: int| 0 <= m < b.len() && b[m] == z;
                assert(q[m] == z);
            }
            if q.contains(z) {
                let k = choose|k: int| 0 <= k < q.len() && q[k] == z;
                assert(b[k] == z);
                assert(precedes(b[k], b[b.len() - 1]));
                precedes_is_total(z, y);
                assert(a.contains(z));
                let m = choose|m: int| 0 <= m < a.len() && a[m] == z;
                assert(p[m] == z);
            }
        }
        assert(p.to_set() =~= q.to_set());
        assert forall|i: int, j: int| 0 <= i < j < p.len() implies precedes(
            #[trigger] p[i],
            #[trigger] p[j],
        ) by {
            assert(precedes(a[i], a[j]));
        }
        assert forall|i: int, j: int| 0 <= i < j < q.len() implies precedes(
            #[trigger] q[i],
            #[trigger] q[j],
        ) by {
            assert(precedes(b[i], b[j]));
        }
        ledger_is_unique(p, q);
        assert(a =~= p.push(x));
        assert(b =~= q.push(y));
    }
}

/// The opened addresses are read as they were written.
pub proof fn ledger_is_read_back(ledger: Seq<Seq<char>>, read: Seq<Seq<char>>)
    requires
        ascending(ledger),
        forall|i: int| 0 <= i < ledger.len() ==> is_entry(#[trigger] ledger[i]),
        ascending(read),
        read.to_set() == listed(Some(list_text(ledger))).to_set(),
    ensures
        read == ledger,
{
    list_is_read_back(ledger);
    ledger_is_unique(read, ledger);
}

/// A boost level that is offered is understood again when it is written out,
/// and settings that hold it so apply it.
pub proof fn boost_is_read_back(level: int, text: Option<Seq<char>>)
    requires
        offered_boost(level),
    ensures
        boost_of(signed_decimal(level)) == Some(level),
        setting(text, "audioBoost"@, "0"@) == signed_decimal(level) ==> boost_setting(text) == level,
{
    crate::number::signed_decimal_denotes(level);
    crate::number::decimal_denotes(level as nat);
    let shown = signed_decimal(level);
    assert(crate::text::all_digits(shown) && shown.len() > 0);
    assert(crate::text::is_digit(shown[0]));
    assert(crate::text::is_digit(shown[shown.len() - 1]));
    assert(crate::text::left_trimmed(shown) == shown);
    assert(trimmed(shown) == shown);
}

/// Where there are no settings, or what is there cannot be read, receivers are
/// searched for by multicast, none was cast to, subtitles are off and nothing
/// is boosted.
pub proof fn settings_have_defaults(text: Option<Seq<char>>)
    requires
        text matches Some(source) ==> parsed(source) is None,
    ensures
        multicast_setting(text),
        receiver_setting(text).len() == 0,
        subtitle_setting(text) == "off"@,
        boost_setting(text) == 0,
        forall|key: Seq<char>, default: Seq<char>| #[trigger]
            setting(text, key, default) == default,
{
    reveal_strlit("");
    reveal_strlit("0");
    assert("0"@ =~= signed_decimal(0));
    boost_is_read_back(0, text);
}

/// Each setting is what the member of its name says, in the words in which it
/// is written there.
pub proof fn settings_are_read_by_their_names(
    source: Seq<char>,
    members: Map<Seq<char>, Json>,
    value: Seq<char>,
    level: int,
)
    requires
        parsed(source) == Some(Json::Object(members)),
        offered_boost(level),
    ensures
        members.contains_key("multicastDiscovery"@) && members["multicastDiscovery"@]
            == Json::Text(value) ==> multicast_setting(Some(source)) == (value == "true"@),
        members.contains_key("lastReceiver"@) && members["lastReceiver"@] == Json::Text(value)
            ==> receiver_setting(Some(source)) == value,
        members.contains_key("subtitles"@) && members["subtitles"@] == Json::Text(value)
            ==> subtitle_setting(Some(source)) == value,
        members.contains_key("audioBoost"@) && members["audioBoost"@] == Json::Text(
            signed_decimal(level),
        ) ==> boost_setting(Some(source)) == level,
{
    boost_is_read_back(level, Some(source));
}

/// A setting that is made is read back, and no other one changes. What cannot
/// hold settings is replaced.
pub proof fn made_setting_is_read_back(
    settings: Option<Json>,
    key: Seq<char>,
    value: Seq<char>,
    other: Seq<char>,
    default: Seq<char>,
)
    requires
        other != key,
    ensures
        setting_in(amended(settings, key, value), key, default) == value,
        member(amended(settings, key, value), key) == Some(Json::Text(value)),
        settings matches Some(before) ==> member(amended(settings, key, value), other) == member(
            before,
            other,
        ),
        settings is None ==> member(amended(settings, key, value), other) is None,
{
}

/// Nothing, six and twelve decibels are the levels that a text can name, with
/// or without white space around it.
pub proof fn three_levels_are_offered(value: Seq<char>, level: int)
    ensures
        boost_of(value) matches Some(n) ==> n == 0 || n == 6 || n == 12,
        signed(trimmed(value)) == Some(level) && (level == 0 || level == 6 || level == 12)
            ==> boost_of(value) == Some(level),
        signed(trimmed(value)) is None ==> boost_of(value) is None,
{
}

/// The entries of a list are its lines in their order: those that hold nothing
/// but white space are passed over, and white space around the others is not
/// theirs.
pub proof fn entries_are_the_lines(lines: Seq<Seq<char>>, more: Seq<Seq<char>>, line: Seq<char>)
    ensures
        entries(lines + more) == entries(lines) + entries(more),
        trimmed(line).len() == 0 ==> entries(seq![line]).len() == 0,
        trimmed(line).len() > 0 ==> entries(seq![line]) == seq![trimmed(line)],
    decreases more.len(),
{
    if more.len() > 0 {
        entries_are_the_lines(lines, more.drop_last(), line);
        assert((lines + more).drop_last() =~= lines + more.drop_last());
        assert(entries(lines + more) =~= entries(lines) + entries(more));
    } else {
        assert(lines + more =~= lines);
        assert(entries(lines) + entries(more) =~= entries(lines));
    }
    let one = seq![line];
    assert(one.drop_last() =~= Seq::<Seq<char>>::empty());
    assert(entries(one.drop_last()).len() == 0);
    assert(trimmed(line).len() > 0 ==> entries(one) =~= seq![trimmed(line)]);
}

/// Each entry is written on a line of its own, and every line is closed.
pub proof fn entries_are_written_line_by_line(list: Seq<Seq<char>>)
    requires
        forall|i: int| 0 <= i < list.len() ==> is_entry(#[trigger] list[i]),
    ensures
        list_text(list) == closed_lines(list),
{
    reveal_strlit("\n");
    if list.len() > 0 {
        joined_lines(list);
        assert("\n"@ =~= seq!['\n']);
        let body = joined(list, "\n"@);
        assert(is_entry(list[list.len() - 1]));
        assert(body.len() > 0);
        assert(body.push('\n') =~= body + seq!['\n']);
    } else {
        assert(joined(list, "\n"@).len() == 0);
        assert(list_text(list) =~= closed_lines(list));
    }
}

} // verus!
