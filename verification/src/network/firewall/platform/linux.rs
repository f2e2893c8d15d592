//! Linux iptables firewall rules.
use vstd::prelude::*;
use crate::network::firewall::rules::{
    collect_some, rules_view, FirewallAction, FirewallDirection, FirewallError, FirewallRule, FirewallRuleView,
};
use crate::scan::{has_prefix, lines, split_whitespace, starts_with, text_lines, words};
use crate::text::{chars_eq_str, chars_of, concat2, decimal, decimal_string, owned, string_from_chars, strings_view};

verus! {

/// Firewall backend that drives `iptables`.
pub struct LinuxFirewall;

/// The iptables chain for a traffic direction.
pub open spec fn iptables_chain(d: FirewallDirection) -> Seq<char> {
    match d {
        FirewallDirection::Inbound => "INPUT"@,
        FirewallDirection::Outbound => "OUTPUT"@,
        FirewallDirection::Both => "FORWARD"@,
    }
}

/// The iptables jump target for an action.
pub open spec fn iptables_target(a: FirewallAction) -> Seq<char> {
    match a {
        FirewallAction::Allow => "ACCEPT"@,
        FirewallAction::Block => "DROP"@,
        FirewallAction::Reject => "REJECT"@,
    }
}

/// `[flag, value]` when a value is present, nothing otherwise.
pub open spec fn flag_with(flag: Seq<char>, v: Option<Seq<char>>) -> Seq<Seq<char>> {
    match v {
        Some(x) => seq![flag, x],
        None => Seq::empty(),
    }
}

/// The decimal text of an optional port.
pub open spec fn port_text(p: Option<u16>) -> Option<Seq<char>> {
    match p {
        Some(n) => Some(decimal(n as nat)),
        None => None,
    }
}

/// The `iptables` arguments that append `r`.
pub open spec fn iptables_args(r: FirewallRuleView) -> Seq<Seq<char>> {
    seq!["-A"@, iptables_chain(r.direction)]
        + flag_with("-s"@, r.src_ip)
        + flag_with("-d"@, r.dst_ip)
        + flag_with("-p"@, r.protocol)
        + flag_with("--dport"@, port_text(r.dst_port))
        + seq!["-j"@, iptables_target(r.action)]
}

/// Layout of the iptables arguments for a rule: "-A" and the chain ("INPUT" for inbound,
/// "OUTPUT" for outbound, "FORWARD" for both directions); then, each only when the rule
/// has it and in this order, "-s" and the source, "-d" and the destination, "-p" and the
/// protocol, "--dport" and the port's decimal numeral; and last "-j" and the target
/// ("ACCEPT", "DROP" or "REJECT" for allow, block and reject). Nothing else appears.
pub proof fn lemma_iptables_args_layout(r: FirewallRuleView)
    ensures
        ({
            let a = iptables_args(r);
            let s: int = if r.src_ip is Some { 2 } else { 0 };
            let d: int = if r.dst_ip is Some { 2 } else { 0 };
            let p: int = if r.protocol is Some { 2 } else { 0 };
            let q: int = if r.dst_port is Some { 2 } else { 0 };
            &&& a.len() == 4 + s + d + p + q
            &&& a[0] == "-A"@
            &&& a[1] == match r.direction {
                FirewallDirection::Inbound => "INPUT"@,
                FirewallDirection::Outbound => "OUTPUT"@,
                FirewallDirection::Both => "FORWARD"@,
            }
            &&& (r.src_ip matches Some(x) ==> a[2] == "-s"@ && a[3] == x)
            &&& (r.dst_ip matches Some(x) ==> a[2 + s] == "-d"@ && a[3 + s] == x)
            &&& (r.protocol matches Some(x) ==> a[2 + s + d] == "-p"@ && a[3 + s + d] == x)
            &&& (r.dst_port matches Some(n) ==> a[2 + s + d + p] == "--dport"@ && a[3 + s + d + p] == decimal(n as nat))
            &&& a[2 + s + d + p + q] == "-j"@
            &&& a[3 + s + d + p + q] == match r.action {
                FirewallAction::Allow => "ACCEPT"@,
                FirewallAction::Block => "DROP"@,
                FirewallAction::Reject => "REJECT"@,
            }
        }),
{
    let a0 = seq!["-A"@, iptables_chain(r.direction)];
    let a1 = a0 + flag_with("-s"@, r.src_ip);
    let a2 = a1 + flag_with("-d"@, r.dst_ip);
    let a3 = a2 + flag_with("-p"@, r.protocol);
    let a4 = a3 + flag_with("--dport"@, port_text(r.dst_port));
    let a5 = a4 + seq!["-j"@, iptables_target(r.action)];
    assert(iptables_args(r) == a5);
}

fn push_flag(args: &mut Vec<String>, flag: &str, v: &Option<String>)
    ensures
        strings_view(final(args)@) == strings_view(old(args)@) + flag_with(flag@, crate::network::firewall::rules::opt_view(*v)),
{
    match v {
        Some(x) => {
            args.push(owned(flag));
            args.push(x.clone());
            assert(strings_view(args@) =~= strings_view(old(args)@) + seq![flag@, x@]);
        },
        None => {
            assert(strings_view(args@) =~= strings_view(old(args)@) + Seq::<Seq<char>>::empty());
        },
    }
}

impl LinuxFirewall {
    pub fn new() -> (fw: Self)
        ensures
            fw == LinuxFirewall,
    {
        LinuxFirewall
    }

    /// Converts a rule to `iptables` arguments, e.g.
    /// `-A INPUT -s 192.168.1.0/24 -p tcp --dport 443 -j ACCEPT`.
    pub fn rule_to_iptables_args(&self, rule: &FirewallRule) -> (r: Result<Vec<String>, FirewallError>)
        ensures
            r matches Ok(args) && strings_view(args@) == iptables_args(rule@),
    {
        let chain = match rule.direction {
            FirewallDirection::Inbound => "INPUT",
            FirewallDirection::Outbound => "OUTPUT",
            FirewallDirection::Both => "FORWARD",
        };
        let mut args: Vec<String> = Vec::new();
        args.push(owned("-A"));
        args.push(owned(chain));
        assert(strings_view(args@) =~= seq!["-A"@, iptables_chain(rule.direction)]);
        push_flag(&mut args, "-s", &rule.src_ip);
        push_flag(&mut args, "-d", &rule.dst_ip);
        push_flag(&mut args, "-p", &rule.protocol);
        let port: Option<String> = match rule.dst_port {
            Some(p) => Some(decimal_string(p as u64)),
            None => None,
        };
        assert(crate::network::firewall::rules::opt_view(port) == port_text(rule.dst_port));
        push_flag(&mut args, "--dport", &port);
        let target = match rule.action {
            FirewallAction::Allow => "ACCEPT",
            FirewallAction::Block => "DROP",
            FirewallAction::Reject => "REJECT",
        };
        let ghost before = strings_view(args@);
        args.push(owned("-j"));
        args.push(owned(target));
        assert(strings_view(args@) =~= before + seq!["-j"@, iptables_target(rule.action)]);
        Ok(args)
    }
}

impl Default for LinuxFirewall {
    fn default() -> (fw: Self)
        ensures
            fw == LinuxFirewall,
    {
        Self::new()
    }
}

/// The action of an iptables target shown in a listing.
pub open spec fn listed_target_action(t: Seq<char>) -> Option<FirewallAction> {
    if t == "ACCEPT"@ {
        Some(FirewallAction::Allow)
    } else if t == "DROP"@ {
        Some(FirewallAction::Block)
    } else if t == "REJECT"@ {
        Some(FirewallAction::Reject)
    } else {
        None
    }
}

/// An address column of a listing; "0.0.0.0/0" means any address.
pub open spec fn listed_address(a: Seq<char>) -> Option<Seq<char>> {
    if a != "0.0.0.0/0"@ {
        Some(a)
    } else {
        None
    }
}

/// The rule shown on one line of `iptables -L -n -v --line-numbers` output: a line that
/// is not a "Chain"/"num" header, has at least four words and an ACCEPT, DROP or REJECT
/// target in its second word. It is named after its line number (first word) and taken
/// as inbound; the third and fourth words are its source and destination.
pub open spec fn iptables_line_rule(line: Seq<char>) -> Option<FirewallRuleView> {
    let parts = words(line);
    if starts_with(line, "Chain"@) || starts_with(line, "num"@) || line.len() == 0 || parts.len() < 4 {
        None
    } else {
        match listed_target_action(parts[1]) {
            Some(action) => Some(FirewallRuleView {
                id: "iptables-"@ + parts[0],
                action,
                direction: FirewallDirection::Inbound,
                src_ip: listed_address(parts[2]),
                dst_ip: listed_address(parts[3]),
                dst_port: None,
                protocol: None,
                description: "iptables rule "@ + parts[0],
            }),
            None => None,
        }
    }
}

/// The rules shown in an iptables listing, in order.
pub open spec fn iptables_listing(stdout: Seq<char>) -> Seq<FirewallRuleView> {
    collect_some(text_lines(stdout), |l: Seq<char>| iptables_line_rule(l))
}

/// Whether a line of an iptables listing shows a rule: it is not empty, is not a
/// "Chain" or "num" header, has at least four words, and its second word is ACCEPT, DROP
/// or REJECT.
pub open spec fn iptables_line_shows_rule(l: Seq<char>) -> bool {
    let ws = words(l);
    &&& l.len() > 0
    &&& !starts_with(l, "Chain"@)
    &&& !starts_with(l, "num"@)
    &&& ws.len() >= 4
    &&& (ws[1] == "ACCEPT"@ || ws[1] == "DROP"@ || ws[1] == "REJECT"@)
}

/// Whether `r` is the rule that the line `l` of an iptables listing shows: named
/// "iptables-" and the first word; allowing for ACCEPT, blocking for DROP, rejecting for
/// REJECT in the second word; inbound; from the third word and to the fourth, each
/// "0.0.0.0/0" meaning any address; no port or protocol; described as "iptables rule "
/// and the first word.
pub open spec fn iptables_line_gives(l: Seq<char>, r: FirewallRuleView) -> bool {
    let ws = words(l);
    &&& r.id == "iptables-"@ + ws[0]
    &&& (ws[1] == "ACCEPT"@ ==> r.action == FirewallAction::Allow)
    &&& (ws[1] == "DROP"@ ==> r.action == FirewallAction::Block)
    &&& (ws[1] == "REJECT"@ ==> r.action == FirewallAction::Reject)
    &&& r.direction == FirewallDirection::Inbound
    &&& r.src_ip == (if ws[2] == "0.0.0.0/0"@ { None } else { Some(ws[2]) })
    &&& r.dst_ip == (if ws[3] == "0.0.0.0/0"@ { None } else { Some(ws[3]) })
    &&& r.dst_port is None
    &&& r.protocol is None
    &&& r.description == "iptables rule "@ + ws[0]
}

proof fn lemma_iptables_line(l: Seq<char>)
    ensures
        (iptables_line_rule(l) is Some) == iptables_line_shows_rule(l),
        iptables_line_rule(l) matches Some(r) ==> iptables_line_gives(l, r),
{
    reveal_strlit("ACCEPT");
    reveal_strlit("DROP");
    reveal_strlit("REJECT");
    assert("DROP"@.len() != "ACCEPT"@.len());
    assert("REJECT"@[0] != "ACCEPT"@[0]);
    assert("REJECT"@.len() != "DROP"@.len());
    let ws = words(l);
    if iptables_line_rule(l) is Some {
        assert(listed_target_action(ws[1]) is Some);
        assert(ws[1] == "ACCEPT"@ || ws[1] == "DROP"@ || ws[1] == "REJECT"@);
    }
    if iptables_line_shows_rule(l) {
        assert(listed_target_action(ws[1]) is Some);
    }
}

spec fn iptables_rules_of_lines(ls: Seq<Seq<char>>) -> Seq<FirewallRuleView> {
    collect_some(ls, |l: Seq<char>| iptables_line_rule(l))
}

proof fn lemma_iptables_lines_order(ls: Seq<Seq<char>>)
    ensures
        iptables_rules_of_lines(ls).len() == ls.filter(|l: Seq<char>| iptables_line_shows_rule(l)).len(),
        forall|k: int| 0 <= k < iptables_rules_of_lines(ls).len() ==>
            iptables_line_gives(
                ls.filter(|l: Seq<char>| iptables_line_shows_rule(l))[k],
                #[trigger] iptables_rules_of_lines(ls)[k],
            ),
    decreases ls.len(),
{
    reveal(Seq::filter);
    if ls.len() > 0 {
        lemma_iptables_lines_order(ls.drop_last());
        lemma_iptables_line(ls.last());
    }
}

/// The rules read from an iptables listing follow its lines that show a rule, one rule
/// per such line and in their order: the `k`-th rule read is the one the `k`-th such
/// line shows.
pub proof fn lemma_iptables_listing_follows_lines(stdout: Seq<char>)
    ensures
        iptables_listing(stdout).len() == text_lines(stdout).filter(|l: Seq<char>| iptables_line_shows_rule(l)).len(),
        forall|k: int| 0 <= k < iptables_listing(stdout).len() ==>
            iptables_line_gives(
                text_lines(stdout).filter(|l: Seq<char>| iptables_line_shows_rule(l))[k],
                #[trigger] iptables_listing(stdout)[k],
            ),
{
    lemma_iptables_lines_order(text_lines(stdout));
    assert(iptables_listing(stdout) == iptables_rules_of_lines(text_lines(stdout)));
}

fn listed_address_of(a: &Vec<char>) -> (r: Option<String>)
    ensures
        crate::network::firewall::rules::opt_view(r) == listed_address(a@),
{
    if !chars_eq_str(a.as_slice(), "0.0.0.0/0") {
        Some(string_from_chars(a.as_slice()))
    } else {
        None
    }
}

fn parse_iptables_line(line: &Vec<char>) -> (r: Option<FirewallRule>)
    ensures
        match r {
            Some(rule) => iptables_line_rule(line@) == Some(rule@),
            None => iptables_line_rule(line@) is None,
        },
{
    if has_prefix(line.as_slice(), "Chain") || has_prefix(line.as_slice(), "num") || line.len() == 0 {
        return None;
    }
    let parts = split_whitespace(line.as_slice());
    let ghost pv = parts@.map_values(|w: Vec<char>| w@);
    if parts.len() < 4 {
        return None;
    }
    assert(pv[1] == parts@[1]@ && pv[0] == parts@[0]@ && pv[2] == parts@[2]@ && pv[3] == parts@[3]@);
    let action = if chars_eq_str(parts[1].as_slice(), "ACCEPT") {
        FirewallAction::Allow
    } else if chars_eq_str(parts[1].as_slice(), "DROP") {
        FirewallAction::Block
    } else if chars_eq_str(parts[1].as_slice(), "REJECT") {
        FirewallAction::Reject
    } else {
        return None;
    };
    let num = string_from_chars(parts[0].as_slice());
    let rule = FirewallRule {
        id: concat2("iptables-", num.as_str()),
        action,
        direction: FirewallDirection::Inbound,
        src_ip: listed_address_of(&parts[2]),
        dst_ip: listed_address_of(&parts[3]),
        dst_port: None,
        protocol: None,
        description: concat2("iptables rule ", num.as_str()),
    };
    Some(rule)
}

impl LinuxFirewall {
    /// The rules shown in the output of `iptables -L -n -v --line-numbers`.
    pub fn parse_listing(&self, stdout: &str) -> (rules: Vec<FirewallRule>)
        ensures
            rules_view(rules@) == iptables_listing(stdout@),
    {
        let text = chars_of(stdout);
        let ls = lines(text.as_slice());
        let ghost lv = ls@.map_values(|l: Vec<char>| l@);
        let mut out: Vec<FirewallRule> = Vec::new();
        let n = ls.len();
        for i in 0..n
            invariant
                n == ls@.len(),
                lv == ls@.map_values(|l: Vec<char>| l@),
                lv == text_lines(stdout@),
                rules_view(out@) == collect_some(lv.take(i as int), |l: Seq<char>| iptables_line_rule(l)),
        {
            let ghost before = rules_view(out@);
            assert(lv.take(i + 1).drop_last() == lv.take(i as int));
            assert(lv.take(i + 1).last() == ls@[i as int]@);
            match parse_iptables_line(&ls[i]) {
                Some(rule) => {
                    out.push(rule);
                    assert(rules_view(out@) =~= before + seq![rule@]);
                },
                None => {
                    assert(rules_view(out@) =~= before + Seq::<FirewallRuleView>::empty());
                },
            }
        }
        assert(lv.take(n as int) == lv);
        out
    }
}

/// The `iptables` arguments that delete the rule tagged `rule_id` from `chain`:
/// `-D <chain> -m comment --comment <rule_id> -j DROP`.
pub open spec fn delete_args_spec(chain: Seq<char>, rule_id: Seq<char>) -> Seq<Seq<char>> {
    seq!["-D"@, chain, "-m"@, "comment"@, "--comment"@, rule_id, "-j"@, "DROP"@]
}

impl LinuxFirewall {
    /// The deletions to try, in order, to remove the rule tagged `rule_id`: first from
    /// the INPUT chain, then from the OUTPUT chain. The first that succeeds removes the
    /// rule; when neither does, the rule is not found.
    pub fn delete_attempts(&self, rule_id: &str) -> (r: Vec<Vec<String>>)
        ensures
            r@.len() == 2,
            strings_view(r@[0]@) == delete_args_spec("INPUT"@, rule_id@),
            strings_view(r@[1]@) == delete_args_spec("OUTPUT"@, rule_id@),
    {
        let mut out: Vec<Vec<String>> = Vec::new();
        out.push(Self::delete_args("INPUT", rule_id));
        out.push(Self::delete_args("OUTPUT", rule_id));
        out
    }

    fn delete_args(chain: &str, rule_id: &str) -> (r: Vec<String>)
        ensures
            strings_view(r@) == delete_args_spec(chain@, rule_id@),
    {
        let mut v: Vec<String> = Vec::new();
        v.push(owned("-D"));
        v.push(owned(chain));
        v.push(owned("-m"));
        v.push(owned("comment"));
        v.push(owned("--comment"));
        v.push(owned(rule_id));
        v.push(owned("-j"));
        v.push(owned("DROP"));
        assert(strings_view(v@) =~= delete_args_spec(chain@, rule_id@));
        v
    }

    /// The chains that flushing empties, in order: INPUT, OUTPUT, FORWARD.
    pub fn flush_chains(&self) -> (r: Vec<String>)
        ensures
            strings_view(r@) == seq!["INPUT"@, "OUTPUT"@, "FORWARD"@],
    {
        let mut v: Vec<String> = Vec::new();
        v.push(owned("INPUT"));
        v.push(owned("OUTPUT"));
        v.push(owned("FORWARD"));
        assert(strings_view(v@) =~= seq!["INPUT"@, "OUTPUT"@, "FORWARD"@]);
        v
    }

    /// The `iptables` arguments that flush `chain`: `-F <chain>`.
    pub fn flush_args(&self, chain: &str) -> (r: Vec<String>)
        ensures
            strings_view(r@) == seq!["-F"@, chain@],
    {
        let mut v: Vec<String> = Vec::new();
        v.push(owned("-F"));
        v.push(owned(chain));
        assert(strings_view(v@) =~= seq!["-F"@, chain@]);
        v
    }
}

impl LinuxFirewall {
    /// The `iptables` arguments that list the rules: `-L -n -v --line-numbers`.
    pub fn list_args(&self) -> (r: Vec<String>)
        ensures
            strings_view(r@) == seq!["-L"@, "-n"@, "-v"@, "--line-numbers"@],
    {
        let mut v: Vec<String> = Vec::new();
        v.push(owned("-L"));
        v.push(owned("-n"));
        v.push(owned("-v"));
        v.push(owned("--line-numbers"));
        assert(strings_view(v@) =~= seq!["-L"@, "-n"@, "-v"@, "--line-numbers"@]);
        v
    }
}

} // verus!
