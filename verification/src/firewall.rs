//! Letting receivers through the firewall to the media server.
use vstd::prelude::*;

use crate::number::{decimal, show};
use crate::settings::{contents, holds, insert_sorted};
use crate::text::{ascending, contains, given, has, views};

verus! {

/// Whether the firewall is in use, from what its configuration holds.
pub open spec fn in_use(conf: Option<Seq<char>>) -> bool {
    conf matches Some(text) && has(text, "ENABLED=yes"@)
}

/// Whether the firewall is in use, from what its configuration holds.
pub fn active(conf: Option<&str>) -> (r: bool)
    ensures
        r == in_use(contents(conf)),
{
    match conf {
        Some(text) => contains(text, "ENABLED=yes"),
        None => false,
    }
}

/// What is to be done so that a receiver reaches the media server.
#[derive(Debug)]
pub enum OpenPlan {
    /// Nothing: the way is open.
    Open,
    /// Run the firewall tool with these arguments.
    Run(Vec<String>),
}

pub open spec fn comment_for(ip: Seq<char>) -> Seq<char> {
    "universal-cast-"@ + ip
}

/// The rule that lets `ip` reach the port.
pub open spec fn allow_rule(ip: Seq<char>, port: u16) -> Seq<Seq<char>> {
    seq![
        "allow"@,
        "from"@,
        ip,
        "proto"@,
        "tcp"@,
        "to"@,
        "any"@,
        "port"@,
        decimal(port as nat),
        "comment"@,
        comment_for(ip),
    ]
}

fn comment(ip: &str) -> (r: String)
    ensures
        r@ == comment_for(ip@),
{
    let mut out = "universal-cast-".to_owned();
    out.append(ip);
    out
}

fn allow_args(ip: &str, port: u16) -> (r: Vec<String>)
    ensures
        views(r@) == allow_rule(ip@, port),
{
    let r = vec![
        "allow".to_owned(),
        "from".to_owned(),
        ip.to_owned(),
        "proto".to_owned(),
        "tcp".to_owned(),
        "to".to_owned(),
        "any".to_owned(),
        "port".to_owned(),
        show(port as u64),
        "comment".to_owned(),
        comment(ip),
    ];
    assert(views(r@) =~= allow_rule(ip@, port));
    r
}

/// Whether the firewall has to be opened before `ip` gets through.
pub open spec fn stands_in_the_way(active: bool, ledger: Seq<Seq<char>>, ip: Seq<char>) -> bool {
    active && !ledger.contains(ip)
}

/// What is to be done before `ip` can reach the port: nothing where the
/// firewall is not in use or was opened for `ip` before.
pub fn open(active: bool, ledger: &Vec<String>, ip: &str, port: u16) -> (r: OpenPlan)
    ensures
        match r {
            OpenPlan::Open => !stands_in_the_way(active, views(ledger@), ip@),
            OpenPlan::Run(args) => stands_in_the_way(active, views(ledger@), ip@) && views(args@)
                == allow_rule(ip@, port),
        },
{
    if !active || holds(ledger, ip) {
        OpenPlan::Open
    } else {
        OpenPlan::Run(allow_args(ip, port))
    }
}

/// Records that the firewall was opened for `ip`.
pub fn opened(ledger: &mut Vec<String>, ip: &str)
    requires
        ascending(views(old(ledger)@)),
    ensures
        ascending(views(final(ledger)@)),
        views(final(ledger)@).to_set() == views(old(ledger)@).to_set().insert(ip@),
{
    insert_sorted(ledger, ip);
}

/// Forgets the addresses that the firewall was opened for, and says with which
/// arguments the firewall tool is to be run for it: never. To allow a receiver
/// is all that is done with privileges, so the rules of the forgotten addresses
/// are not deleted from the firewall and stay open until the user deletes them.
pub fn clear(ledger: &mut Vec<String>) -> (r: Vec<Vec<String>>)
    ensures
        r@.len() == 0,
        final(ledger)@.len() == 0,
{
    ledger.clear();
    Vec::new()
}

/// After the firewall was opened for `ip`, it need not be opened again.
pub proof fn opened_stays_open(before: Seq<Seq<char>>, after: Seq<Seq<char>>, ip: Seq<char>)
    requires
        after.to_set() == before.to_set().insert(ip),
    ensures
        after.contains(ip),
        forall|other: Seq<char>| before.contains(other) ==> #[trigger] after.contains(other),
{
    assert(after.to_set().contains(ip));
    assert forall|other: Seq<char>| before.contains(other) implies #[trigger] after.contains(
        other,
    ) by {
        assert(after.to_set().contains(other));
    }
}

/// The firewall is in use where its configuration says so anywhere, and nowhere
/// else.
pub proof fn firewall_says_whether_it_is_in_use(left: Seq<char>, right: Seq<char>, text: Seq<char>)
    ensures
        in_use(Some(left + "ENABLED=yes"@ + right)),
        !(has(text, "ENABLED=yes"@)) ==> !in_use(Some(text)),
        !in_use(None),
{
    let conf = left + "ENABLED=yes"@ + right;
    let at = left.len() as int;
    assert(conf.subrange(at, at + "ENABLED=yes"@.len()) =~= "ENABLED=yes"@);
    assert(crate::text::occurs_at(conf, "ENABLED=yes"@, at));
}

/// The firewall is opened where it is in use and was not opened for the address
/// before; once it was, it is not opened for it again, and it does not matter
/// for which others it was.
pub proof fn firewall_is_opened_once(
    active: bool,
    before: Seq<Seq<char>>,
    after: Seq<Seq<char>>,
    ip: Seq<char>,
    other: Seq<char>,
)
    requires
        after.to_set() == before.to_set().insert(ip),
        other != ip,
    ensures
        !stands_in_the_way(false, before, ip),
        stands_in_the_way(true, Seq::empty(), ip),
        !stands_in_the_way(active, after, ip),
        stands_in_the_way(active, after, other) == stands_in_the_way(active, before, other),
{
    opened_stays_open(before, after, ip);
    if after.contains(other) {
        assert(after.to_set().contains(other));
        assert(before.to_set().contains(other));
    }
}

/// The rule lets the one address through to the one port, over TCP, and bears
/// the address in its comment.
pub proof fn rule_lets_one_receiver_through(ip: Seq<char>, port: u16)
    ensures
        allow_rule(ip, port)[0] == "allow"@,
        given(allow_rule(ip, port), "from"@, ip),
        given(allow_rule(ip, port), "proto"@, "tcp"@),
        given(allow_rule(ip, port), "to"@, "any"@),
        given(allow_rule(ip, port), "port"@, decimal(port as nat)),
        given(allow_rule(ip, port), "comment"@, "universal-cast-"@ + ip),
        allow_rule(ip, port).len() == 11,
{
    let rule = allow_rule(ip, port);
    assert(rule[1] == "from"@ && rule[2] == ip);
    assert(rule[3] == "proto"@ && rule[4] == "tcp"@);
    assert(rule[5] == "to"@ && rule[6] == "any"@);
    assert(rule[7] == "port"@ && rule[8] == decimal(port as nat));
    assert(rule[9] == "comment"@ && rule[10] == "universal-cast-"@ + ip);
}

} // verus!
