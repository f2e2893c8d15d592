//! macOS pf (Packet Filter) firewall rules.
use vstd::prelude::*;
use crate::network::firewall::platform::linux::port_text;
use crate::network::firewall::rules::{
    opt_view, rules_view, FirewallAction, FirewallDirection, FirewallError, FirewallRule, FirewallRuleView,
};
use crate::scan::{contains_str, contains_text, lines, split_whitespace, text_lines, words};
use crate::text::{
    chars_eq_str, chars_of, concat2, decimal, decimal_string, join, joined, owned, string_from_chars, strings_view,
};

verus! {

/// Firewall backend that drives `pfctl`.
pub struct MacOSFirewall;

/// The pf keyword for an action.
pub open spec fn pf_action(a: FirewallAction) -> Seq<char> {
    match a {
        FirewallAction::Allow => "pass"@,
        FirewallAction::Block => "block"@,
        FirewallAction::Reject => "block return-rst"@,
    }
}

/// The pf keyword for a direction.
pub open spec fn pf_direction(d: FirewallDirection) -> Seq<char> {
    match d {
        FirewallDirection::Inbound => "in"@,
        FirewallDirection::Outbound => "out"@,
        FirewallDirection::Both => "in out"@,
    }
}

/// `prefix + value` as a one-element list when a value is present, nothing otherwise.
pub open spec fn prefixed(prefix: Seq<char>, v: Option<Seq<char>>) -> Seq<Seq<char>> {
    match v {
        Some(x) => seq![prefix + x],
        None => Seq::empty(),
    }
}

/// The value, or "any" when absent.
pub open spec fn or_any(v: Option<Seq<char>>) -> Seq<char> {
    match v {
        Some(x) => x,
        None => "any"@,
    }
}

/// The space-separated parts of the pf rule for `r`.
pub open spec fn pf_parts(r: FirewallRuleView) -> Seq<Seq<char>> {
    seq![pf_action(r.action), pf_direction(r.direction)]
        + prefixed("proto "@, r.protocol)
        + seq!["from "@ + or_any(r.src_ip), "to "@ + or_any(r.dst_ip)]
        + prefixed("port "@, port_text(r.dst_port))
        + seq!["tag "@ + r.id]
}

/// The pf rule text for `r`.
pub open spec fn pf_rule(r: FirewallRuleView) -> Seq<char> {
    joined(pf_parts(r), " "@)
}

/// Joining one more part adds the separator and that part at the end.
proof fn lemma_joined_push(parts: Seq<Seq<char>>, x: Seq<char>, sep: Seq<char>)
    requires
        parts.len() >= 1,
    ensures
        joined(parts.push(x), sep) == joined(parts, sep) + sep + x,
{
    assert(parts.push(x).drop_last() == parts);
}

/// The text of the pf rule for a rule, word by word, separated by single spaces: the
/// action ("pass", "block", or "block return-rst" for reject); the direction ("in",
/// "out", or "in out" for both); "proto" and the protocol when there is one; "from"
/// and the source, "to" and the destination ("any" when absent); "port" and the
/// destination port's decimal numeral when there is one, so the port always follows
/// the destination; and "tag" with the rule's id.
pub proof fn lemma_pf_rule_text(r: FirewallRuleView)
    ensures
        pf_rule(r) == (match r.action {
            FirewallAction::Allow => "pass"@,
            FirewallAction::Block => "block"@,
            FirewallAction::Reject => "block return-rst"@,
        }) + " "@ + (match r.direction {
            FirewallDirection::Inbound => "in"@,
            FirewallDirection::Outbound => "out"@,
            FirewallDirection::Both => "in out"@,
        }) + (match r.protocol {
            Some(p) => " proto "@ + p,
            None => Seq::<char>::empty(),
        }) + " from "@ + (match r.src_ip {
            Some(x) => x,
            None => "any"@,
        }) + " to "@ + (match r.dst_ip {
            Some(x) => x,
            None => "any"@,
        }) + (match r.dst_port {
            Some(n) => " port "@ + decimal(n as nat),
            None => Seq::<char>::empty(),
        }) + " tag "@ + r.id,
{
    let sp = " "@;
    let act = pf_action(r.action);
    let dir = pf_direction(r.direction);
    let p0 = seq![act, dir];
    assert(p0.drop_last() == seq![act]);
    assert(joined(seq![act], sp) == act);
    assert(joined(p0, sp) == act + sp + dir);
    let pr = match r.protocol {
        Some(p) => " proto "@ + p,
        None => Seq::<char>::empty(),
    };
    let p1 = match r.protocol {
        Some(p) => p0.push("proto "@ + p),
        None => p0,
    };
    let t1 = act + sp + dir + pr;
    assert(joined(p1, sp) == t1) by {
        match r.protocol {
            Some(p) => {
                lemma_joined_push(p0, "proto "@ + p, sp);
                reveal_strlit(" ");
                reveal_strlit("proto ");
                reveal_strlit(" proto ");
                assert(" proto "@ =~= " "@ + "proto "@);
                lemma_spaced(act + sp + dir, "proto "@, " proto "@, p);
            },
            None => {
                assert(act + sp + dir + Seq::<char>::empty() =~= act + sp + dir);
            },
        }
    }
    let src = or_any(r.src_ip);
    let dst = or_any(r.dst_ip);
    let p2 = p1.push("from "@ + src);
    let t2 = t1 + " from "@ + src;
    assert(joined(p2, sp) == t2) by {
        lemma_joined_push(p1, "from "@ + src, sp);
        reveal_strlit(" ");
        reveal_strlit("from ");
        reveal_strlit(" from ");
        assert(" from "@ =~= " "@ + "from "@);
        lemma_spaced(t1, "from "@, " from "@, src);
    }
    let p3 = p2.push("to "@ + dst);
    let t3 = t2 + " to "@ + dst;
    assert(joined(p3, sp) == t3) by {
        lemma_joined_push(p2, "to "@ + dst, sp);
        reveal_strlit(" ");
        reveal_strlit("to ");
        reveal_strlit(" to ");
        assert(" to "@ =~= " "@ + "to "@);
        lemma_spaced(t2, "to "@, " to "@, dst);
    }
    let po = match r.dst_port {
        Some(n) => " port "@ + decimal(n as nat),
        None => Seq::<char>::empty(),
    };
    let p4 = match r.dst_port {
        Some(n) => p3.push("port "@ + decimal(n as nat)),
        None => p3,
    };
    let t4 = t3 + po;
    assert(joined(p4, sp) == t4) by {
        match r.dst_port {
            Some(n) => {
                lemma_joined_push(p3, "port "@ + decimal(n as nat), sp);
                reveal_strlit(" ");
                reveal_strlit("port ");
                reveal_strlit(" port ");
                assert(" port "@ =~= " "@ + "port "@);
                lemma_spaced(t3, "port "@, " port "@, decimal(n as nat));
            },
            None => {
                assert(t3 + Seq::<char>::empty() =~= t3);
            },
        }
    }
    let p5 = p4.push("tag "@ + r.id);
    let t5 = t4 + " tag "@ + r.id;
    assert(joined(p5, sp) == t5) by {
        lemma_joined_push(p4, "tag "@ + r.id, sp);
        reveal_strlit(" ");
        reveal_strlit("tag ");
        reveal_strlit(" tag ");
        assert(" tag "@ =~= " "@ + "tag "@);
        lemma_spaced(t4, "tag "@, " tag "@, r.id);
    }
    assert(pf_parts(r) =~= p5);
}

/// A space and then `word + x` is `spaced + x`, where `spaced` is the word after a space.
proof fn lemma_spaced(t: Seq<char>, word: Seq<char>, spaced: Seq<char>, x: Seq<char>)
    requires
        spaced == " "@ + word,
    ensures
        t + " "@ + (word + x) == t + spaced + x,
{
    assert(t + " "@ + (word + x) =~= t + spaced + x);
}

fn push_prefixed(parts: &mut Vec<String>, prefix: &str, v: &Option<String>)
    ensures
        strings_view(final(parts)@) == strings_view(old(parts)@) + prefixed(prefix@, opt_view(*v)),
{
    match v {
        Some(x) => {
            parts.push(concat2(prefix, x.as_str()));
            assert(strings_view(parts@) =~= strings_view(old(parts)@) + seq![prefix@ + x@]);
        },
        None => {
            assert(strings_view(parts@) =~= strings_view(old(parts)@) + Seq::<Seq<char>>::empty());
        },
    }
}

fn value_or_any(v: &Option<String>) -> (r: String)
    ensures
        r@ == or_any(opt_view(*v)),
{
    match v {
        Some(x) => x.clone(),
        None => owned("any"),
    }
}

impl MacOSFirewall {
    pub fn new() -> (fw: Self)
        ensures
            fw == MacOSFirewall,
    {
        MacOSFirewall
    }

    /// Converts a rule to a pf rule, e.g.
    /// `block in proto tcp from 10.0.0.0/8 to any port 80 tag block-in`.
    pub fn rule_to_pf(&self, rule: &FirewallRule) -> (r: Result<String, FirewallError>)
        ensures
            r matches Ok(text) && text@ == pf_rule(rule@),
    {
        let action = match rule.action {
            FirewallAction::Allow => "pass",
            FirewallAction::Block => "block",
            FirewallAction::Reject => "block return-rst",
        };
        let direction = match rule.direction {
            FirewallDirection::Inbound => "in",
            FirewallDirection::Outbound => "out",
            FirewallDirection::Both => "in out",
        };
        let mut parts: Vec<String> = Vec::new();
        parts.push(owned(action));
        parts.push(owned(direction));
        assert(strings_view(parts@) =~= seq![pf_action(rule.action), pf_direction(rule.direction)]);
        push_prefixed(&mut parts, "proto ", &rule.protocol);
        let ghost b1 = strings_view(parts@);
        let src = value_or_any(&rule.src_ip);
        parts.push(concat2("from ", src.as_str()));
        let dst = value_or_any(&rule.dst_ip);
        parts.push(concat2("to ", dst.as_str()));
        assert(strings_view(parts@) =~= b1 + seq!["from "@ + or_any(opt_view(rule.src_ip)), "to "@ + or_any(opt_view(rule.dst_ip))]);
        let port: Option<String> = match rule.dst_port {
            Some(p) => Some(decimal_string(p as u64)),
            None => None,
        };
        assert(opt_view(port) == port_text(rule.dst_port));
        push_prefixed(&mut parts, "port ", &port);
        let ghost b2 = strings_view(parts@);
        parts.push(concat2("tag ", rule.id.as_str()));
        assert(strings_view(parts@) =~= b2 + seq!["tag "@ + rule.id@]);
        assert(strings_view(parts@) =~= pf_parts(rule@));
        Ok(join(&parts, " "))
    }
}

impl Default for MacOSFirewall {
    fn default() -> (fw: Self)
        ensures
            fw == MacOSFirewall,
    {
        Self::new()
    }
}

/// The action of a listed pf rule from its first word: "pass" allows; "block" rejects
/// when the line mentions "return-rst" and blocks otherwise.
pub open spec fn listed_pf_action(first: Seq<char>, line: Seq<char>) -> Option<FirewallAction> {
    if first == "pass"@ {
        Some(FirewallAction::Allow)
    } else if first == "block"@ {
        if contains_text(line, "return-rst"@) {
            Some(FirewallAction::Reject)
        } else {
            Some(FirewallAction::Block)
        }
    } else {
        None
    }
}

/// The direction of a listed pf rule from its words ("in" and/or "out"; both when neither).
pub open spec fn listed_pf_direction(parts: Seq<Seq<char>>) -> FirewallDirection {
    if parts.contains("in"@) && parts.contains("out"@) {
        FirewallDirection::Both
    } else if parts.contains("in"@) {
        FirewallDirection::Inbound
    } else if parts.contains("out"@) {
        FirewallDirection::Outbound
    } else {
        FirewallDirection::Both
    }
}

/// The word after the first "tag" that has a word after it, searching from word `i`.
pub open spec fn tag_after(parts: Seq<Seq<char>>, i: int) -> Option<Seq<char>>
    decreases parts.len() - i,
{
    if i < 0 || i + 1 >= parts.len() {
        None
    } else if parts[i] == "tag"@ {
        Some(parts[i + 1])
    } else {
        tag_after(parts, i + 1)
    }
}

/// The identifier of a listed pf rule: its tag, or "rule-<count>" when it has none,
/// where `count` is the number of rules read before it.
pub open spec fn listed_pf_id(parts: Seq<Seq<char>>, count: nat) -> Seq<char> {
    match tag_after(parts, 0) {
        Some(t) => t,
        None => "rule-"@ + decimal(count),
    }
}

/// The rule shown on one line of `pfctl -sr` output, `count` rules having been read before it.
pub open spec fn pf_line_rule(line: Seq<char>, count: nat) -> Option<FirewallRuleView> {
    let parts = words(line);
    if line.len() == 0 || parts.len() < 2 {
        None
    } else {
        match listed_pf_action(parts[0], line) {
            Some(action) => Some(FirewallRuleView {
                id: listed_pf_id(parts, count),
                action,
                direction: listed_pf_direction(parts),
                src_ip: None,
                dst_ip: None,
                dst_port: None,
                protocol: None,
                description: line,
            }),
            None => None,
        }
    }
}

/// The rules shown on the given lines of a pf listing, in order.
pub open spec fn pf_rules_of_lines(ls: Seq<Seq<char>>) -> Seq<FirewallRuleView>
    decreases ls.len(),
{
    if ls.len() == 0 {
        Seq::empty()
    } else {
        let prev = pf_rules_of_lines(ls.drop_last());
        match pf_line_rule(ls.last(), prev.len()) {
            Some(r) => prev.push(r),
            None => prev,
        }
    }
}

/// The rules shown in a pf listing, in order.
pub open spec fn pf_listing(stdout: Seq<char>) -> Seq<FirewallRuleView> {
    pf_rules_of_lines(text_lines(stdout))
}

/// Whether `d` is the direction that the words of a listed rule name: inbound for "in"
/// without "out", outbound for "out" without "in", both directions for both words or
/// for neither.
pub open spec fn words_name_direction(ws: Seq<Seq<char>>, d: FirewallDirection) -> bool {
    &&& (ws.contains("in"@) && !ws.contains("out"@) ==> d == FirewallDirection::Inbound)
    &&& (!ws.contains("in"@) && ws.contains("out"@) ==> d == FirewallDirection::Outbound)
    &&& (ws.contains("in"@) == ws.contains("out"@) ==> d == FirewallDirection::Both)
}

/// Whether `a` is the action that a listed rule's line names by its first word: "pass"
/// allows; "block" rejects when the line mentions "return-rst" and blocks otherwise.
/// Lines of fewer than two words, or starting with another word, name no rule.
pub open spec fn line_names_action(line: Seq<char>, a: FirewallAction) -> bool {
    let ws = words(line);
    &&& ws.len() >= 2
    &&& (ws[0] == "pass"@ && a == FirewallAction::Allow
        || ws[0] == "block"@ && contains_text(line, "return-rst"@) && a == FirewallAction::Reject
        || ws[0] == "block"@ && !contains_text(line, "return-rst"@) && a == FirewallAction::Block)
}

/// Whether `id` is the identifier that the words of a listed rule give it, the rule
/// being the `count`-th read: the word after the first "tag" that has a word after it,
/// or "rule-" and the decimal numeral of `count` when there is no such "tag".
pub open spec fn words_name_id(ws: Seq<Seq<char>>, count: nat, id: Seq<char>) -> bool {
    &&& (forall|t: int| 0 <= t < ws.len() - 1 ==> #[trigger] ws[t] != "tag"@) ==> id == "rule-"@ + decimal(count)
    &&& forall|t: int| #![trigger ws[t]]
        0 <= t < ws.len() - 1 && ws[t] == "tag"@ && (forall|u: int| 0 <= u < t ==> ws[u] != "tag"@)
            ==> id == ws[t + 1]
}

proof fn lemma_tag_after(ws: Seq<Seq<char>>, i: int)
    requires
        0 <= i,
    ensures
        (forall|t: int| i <= t < ws.len() - 1 ==> #[trigger] ws[t] != "tag"@) ==> tag_after(ws, i) is None,
        forall|t: int| #![trigger ws[t]]
            i <= t < ws.len() - 1 && ws[t] == "tag"@ && (forall|u: int| i <= u < t ==> ws[u] != "tag"@)
                ==> tag_after(ws, i) == Some(ws[t + 1]),
    decreases ws.len() - i,
{
    if i + 1 < ws.len() {
        lemma_tag_after(ws, i + 1);
        if ws[i] != "tag"@ {
            assert forall|t: int| #![trigger ws[t]]
                i <= t < ws.len() - 1 && ws[t] == "tag"@ && (forall|u: int| i <= u < t ==> ws[u] != "tag"@)
                    implies tag_after(ws, i) == Some(ws[t + 1]) by {
                assert(t != i);
                assert forall|u: int| i + 1 <= u < t implies ws[u] != "tag"@ by {}
            }
        } else {
            assert forall|t: int| #![trigger ws[t]]
                i <= t < ws.len() - 1 && ws[t] == "tag"@ && (forall|u: int| i <= u < t ==> ws[u] != "tag"@)
                    implies tag_after(ws, i) == Some(ws[t + 1]) by {
                if t > i {
                    assert(ws[i] != "tag"@);
                }
            }
        }
    }
}

proof fn lemma_pf_rules_of_lines_read(ls: Seq<Seq<char>>)
    ensures
        forall|i: int| 0 <= i < pf_rules_of_lines(ls).len() ==> {
            let r = #[trigger] pf_rules_of_lines(ls)[i];
            &&& ls.contains(r.description)
            &&& words_name_direction(words(r.description), r.direction)
            &&& line_names_action(r.description, r.action)
            &&& words_name_id(words(r.description), i as nat, r.id)
        },
    decreases ls.len(),
{
    if ls.len() > 0 {
        let prev = pf_rules_of_lines(ls.drop_last());
        lemma_pf_rules_of_lines_read(ls.drop_last());
        assert forall|i: int| 0 <= i < pf_rules_of_lines(ls).len() implies {
            let r = #[trigger] pf_rules_of_lines(ls)[i];
            &&& ls.contains(r.description)
            &&& words_name_direction(words(r.description), r.direction)
            &&& line_names_action(r.description, r.action)
            &&& words_name_id(words(r.description), i as nat, r.id)
        } by {
            let r = pf_rules_of_lines(ls)[i];
            if i < prev.len() {
                assert(r == prev[i]);
                let j = choose|j: int| 0 <= j < ls.drop_last().len() && ls.drop_last()[j] == r.description;
                assert(ls[j] == r.description);
            } else {
                assert(ls[ls.len() - 1] == r.description);
                lemma_tag_after(words(r.description), 0);
            }
        }
    }
}

/// Whether a line of a pf listing shows a rule: it has at least two words and begins
/// with "pass" or "block".
pub open spec fn pf_line_shows_rule(l: Seq<char>) -> bool {
    &&& l.len() > 0
    &&& words(l).len() >= 2
    &&& (words(l)[0] == "pass"@ || words(l)[0] == "block"@)
}

proof fn lemma_pf_rules_of_lines_order(ls: Seq<Seq<char>>)
    ensures
        pf_rules_of_lines(ls).len() == ls.filter(|l: Seq<char>| pf_line_shows_rule(l)).len(),
        forall|k: int| 0 <= k < pf_rules_of_lines(ls).len() ==>
            (#[trigger] pf_rules_of_lines(ls)[k]).description == ls.filter(|l: Seq<char>| pf_line_shows_rule(l))[k],
    decreases ls.len(),
{
    reveal(Seq::filter);
    if ls.len() > 0 {
        lemma_pf_rules_of_lines_order(ls.drop_last());
        let pred = |l: Seq<char>| pf_line_shows_rule(l);
        assert((pf_line_rule(ls.last(), pf_rules_of_lines(ls.drop_last()).len()) is Some) == pred(ls.last()));
    }
}

/// The rules read from a pf listing follow its lines that show a rule (those of at
/// least two words beginning with "pass" or "block"), one rule per such line and in
/// their order: the `k`-th rule read is described by the `k`-th such line.
pub proof fn lemma_pf_listing_follows_lines(stdout: Seq<char>)
    ensures
        pf_listing(stdout).len() == text_lines(stdout).filter(|l: Seq<char>| pf_line_shows_rule(l)).len(),
        forall|k: int| 0 <= k < pf_listing(stdout).len() ==>
            (#[trigger] pf_listing(stdout)[k]).description
                == text_lines(stdout).filter(|l: Seq<char>| pf_line_shows_rule(l))[k],
{
    lemma_pf_rules_of_lines_order(text_lines(stdout));
}

/// Each rule read from a pf listing is one of its lines, and its direction is the one
/// the line's words name: inbound when they include "in" but not "out", outbound when
/// they include "out" but not "in", and both directions when they include both or
/// neither (as in "block drop all"); its action is the one its first word names; and the
/// `i`-th rule read is named by the word after the line's first "tag", or "rule-<i>".
pub proof fn lemma_pf_listing_rules(stdout: Seq<char>)
    ensures
        forall|i: int| 0 <= i < pf_listing(stdout).len() ==> {
            let r = #[trigger] pf_listing(stdout)[i];
            &&& text_lines(stdout).contains(r.description)
            &&& words_name_direction(words(r.description), r.direction)
            &&& line_names_action(r.description, r.action)
            &&& words_name_id(words(r.description), i as nat, r.id)
        },
{
    lemma_pf_rules_of_lines_read(text_lines(stdout));
}

fn words_contain(parts: &Vec<Vec<char>>, w: &str) -> (r: bool)
    ensures
        r == parts@.map_values(|x: Vec<char>| x@).contains(w@),
{
    let ghost pv = parts@.map_values(|x: Vec<char>| x@);
    let n = parts.len();
    for i in 0..n
        invariant
            n == parts@.len(),
            pv == parts@.map_values(|x: Vec<char>| x@),
            forall|j: int| 0 <= j < i ==> pv[j] != w@,
    {
        if chars_eq_str(parts[i].as_slice(), w) {
            assert(pv[i as int] == w@);
            return true;
        }
    }
    false
}

fn find_tag(parts: &Vec<Vec<char>>) -> (r: Option<String>)
    ensures
        opt_view(r) == tag_after(parts@.map_values(|x: Vec<char>| x@), 0),
{
    let ghost pv = parts@.map_values(|x: Vec<char>| x@);
    let n = parts.len();
    let mut i: usize = 0;
    while i < n && i + 1 < n
        invariant
            n == parts@.len(),
            pv == parts@.map_values(|x: Vec<char>| x@),
            i <= n,
            tag_after(pv, 0) == tag_after(pv, i as int),
        decreases n - i,
    {
        if chars_eq_str(parts[i].as_slice(), "tag") {
            return Some(string_from_chars(parts[i + 1].as_slice()));
        }
        i = i + 1;
    }
    None
}

fn parse_pf_line(line: &Vec<char>, count: usize) -> (r: Option<FirewallRule>)
    ensures
        match r {
            Some(rule) => pf_line_rule(line@, count as nat) == Some(rule@),
            None => pf_line_rule(line@, count as nat) is None,
        },
{
    if line.len() == 0 {
        return None;
    }
    let parts = split_whitespace(line.as_slice());
    let ghost pv = parts@.map_values(|w: Vec<char>| w@);
    if parts.len() < 2 {
        return None;
    }
    assert(pv[0] == parts@[0]@);
    let action = if chars_eq_str(parts[0].as_slice(), "pass") {
        FirewallAction::Allow
    } else if chars_eq_str(parts[0].as_slice(), "block") {
        if contains_str(line.as_slice(), "return-rst") {
            FirewallAction::Reject
        } else {
            FirewallAction::Block
        }
    } else {
        return None;
    };
    let has_in = words_contain(&parts, "in");
    let has_out = words_contain(&parts, "out");
    let direction = if has_in && has_out {
        FirewallDirection::Both
    } else if has_in {
        FirewallDirection::Inbound
    } else if has_out {
        FirewallDirection::Outbound
    } else {
        FirewallDirection::Both
    };
    let id = match find_tag(&parts) {
        Some(t) => t,
        None => concat2("rule-", decimal_string(count as u64).as_str()),
    };
    Some(FirewallRule {
        id,
        action,
        direction,
        src_ip: None,
        dst_ip: None,
        dst_port: None,
        protocol: None,
        description: string_from_chars(line.as_slice()),
    })
}

impl MacOSFirewall {
    /// The rules shown in the output of `pfctl -sr`.
    pub fn parse_listing(&self, stdout: &str) -> (rules: Vec<FirewallRule>)
        ensures
            rules_view(rules@) == pf_listing(stdout@),
    {
        let text = chars_of(stdout);
        let ls = lines(text.as_slice());
        let ghost lv = ls@.map_values(|l: Vec<char>| l@);
        let mut out: Vec<FirewallRule> = Vec::new();
        let n = ls.len();
        for i in 0..n
            invariant
                n == ls@.len(),
                lv == ls@.map_values(|l: Vec<char>| l@),
                lv == text_lines(stdout@),
                rules_view(out@) == pf_rules_of_lines(lv.take(i as int)),
        {
            assert(lv.take(i + 1).drop_last() == lv.take(i as int));
            assert(lv.take(i + 1).last() == ls@[i as int]@);
            let ghost before = rules_view(out@);
            match parse_pf_line(&ls[i], out.len()) {
                Some(rule) => {
                    out.push(rule);
                    assert(rules_view(out@) =~= before.push(rule@));
                },
                None => {},
            }
        }
        assert(lv.take(n as int) == lv);
        out
    }
}

impl MacOSFirewall {
    /// The `pfctl` arguments that show the rules of the application's anchor.
    pub fn list_args(&self) -> (r: Vec<String>)
        ensures
            strings_view(r@) == seq!["-sr"@, "-a"@, "com.apple/blockall"@],
    {
        let mut v: Vec<String> = Vec::new();
        v.push(owned("-sr"));
        v.push(owned("-a"));
        v.push(owned("com.apple/blockall"));
        assert(strings_view(v@) =~= seq!["-sr"@, "-a"@, "com.apple/blockall"@]);
        v
    }

    /// The `pfctl` arguments that load rules, read from standard input, into the anchor.
    pub fn load_args(&self) -> (r: Vec<String>)
        ensures
            strings_view(r@) == seq!["-a"@, "com.apple/blockall"@, "-f"@, "-"@],
    {
        let mut v: Vec<String> = Vec::new();
        v.push(owned("-a"));
        v.push(owned("com.apple/blockall"));
        v.push(owned("-f"));
        v.push(owned("-"));
        assert(strings_view(v@) =~= seq!["-a"@, "com.apple/blockall"@, "-f"@, "-"@]);
        v
    }

    /// The `pfctl` arguments that flush the anchor.
    pub fn flush_args(&self) -> (r: Vec<String>)
        ensures
            strings_view(r@) == seq!["-a"@, "com.apple/blockall"@, "-F"@, "all"@],
    {
        let mut v: Vec<String> = Vec::new();
        v.push(owned("-a"));
        v.push(owned("com.apple/blockall"));
        v.push(owned("-F"));
        v.push(owned("all"));
        assert(strings_view(v@) =~= seq!["-a"@, "com.apple/blockall"@, "-F"@, "all"@]);
        v
    }
}

} // verus!
