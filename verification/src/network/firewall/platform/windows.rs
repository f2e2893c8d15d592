//! Windows `netsh advfirewall` firewall rules.
use vstd::prelude::*;
use crate::network::firewall::platform::linux::port_text;
use crate::network::firewall::platform::macos::prefixed;
use crate::network::firewall::rules::{
    opt_view, rules_view, FirewallAction, FirewallDirection, FirewallError, FirewallRule, FirewallRuleView,
};
use crate::scan::{
    after_prefix, contains_str, contains_text, has_prefix, lines, parse_u16, parse_u16_spec, starts_with, text_lines,
    trim, trim_chars,
};
use crate::text::{
    chars_eq_str, chars_of, concat2, decimal, decimal_string, lowercase, owned, str_eq, string_from_chars, strings_view,
    to_lowercase,
};

verus! {

/// Firewall backend that drives `netsh advfirewall firewall`.
pub struct WindowsFirewall;

/// The netsh direction for a rule direction (netsh has no "both": inbound is used).
pub open spec fn netsh_direction(d: FirewallDirection) -> Seq<char> {
    match d {
        FirewallDirection::Inbound => "in"@,
        FirewallDirection::Outbound => "out"@,
        FirewallDirection::Both => "in"@,
    }
}

/// The netsh action for a rule action (netsh blocks for reject too).
pub open spec fn netsh_action(a: FirewallAction) -> Seq<char> {
    match a {
        FirewallAction::Allow => "allow"@,
        FirewallAction::Block => "block"@,
        FirewallAction::Reject => "block"@,
    }
}

/// The netsh protocol name for the protocol `p` whose lowercase form is `lower`: TCP,
/// UDP and ICMPv4 for tcp, udp and icmp; any other protocol as given.
pub open spec fn netsh_protocol_from(p: Seq<char>, lower: Seq<char>) -> Seq<char> {
    if lower == "tcp"@ {
        "TCP"@
    } else if lower == "udp"@ {
        "UDP"@
    } else if lower == "icmp"@ {
        "ICMPv4"@
    } else {
        p
    }
}

/// The netsh protocol name: TCP, UDP and ICMPv4 for the (case-insensitive) names
/// tcp, udp and icmp; any other protocol as given.
pub open spec fn netsh_protocol(p: Seq<char>) -> Seq<char> {
    netsh_protocol_from(p, lowercase(p))
}

/// The netsh arguments that add `r`.
pub open spec fn netsh_args(r: FirewallRuleView) -> Seq<Seq<char>> {
    seq![
        "advfirewall"@,
        "firewall"@,
        "add"@,
        "rule"@,
        "name="@ + r.id,
        "dir="@ + netsh_direction(r.direction),
        "action="@ + netsh_action(r.action),
    ]
        + prefixed("protocol="@, match r.protocol { Some(p) => Some(netsh_protocol(p)), None => None })
        + prefixed("localport="@, port_text(r.dst_port))
        + prefixed("remoteip="@, r.src_ip)
        + prefixed("localip="@, r.dst_ip)
}

/// Layout of the netsh arguments for a rule: "advfirewall", "firewall", "add", "rule";
/// "name=" with the rule's id; "dir=" with "in" (inbound, and both directions, which
/// netsh lacks) or "out"; "action=" with "allow", or "block" for block and reject; then,
/// each only when the rule has it and in this order, "protocol=" with the protocol
/// (TCP, UDP or ICMPv4 for tcp, udp or icmp in any case, otherwise as given),
/// "localport=" with the port's decimal numeral, "remoteip=" with the source and
/// "localip=" with the destination. Nothing else appears.
pub proof fn lemma_netsh_args_layout(r: FirewallRuleView)
    ensures
        ({
            let a = netsh_args(r);
            let p: int = if r.protocol is Some { 1 } else { 0 };
            let q: int = if r.dst_port is Some { 1 } else { 0 };
            let s: int = if r.src_ip is Some { 1 } else { 0 };
            let d: int = if r.dst_ip is Some { 1 } else { 0 };
            &&& a.len() == 7 + p + q + s + d
            &&& a[0] == "advfirewall"@ && a[1] == "firewall"@ && a[2] == "add"@ && a[3] == "rule"@
            &&& a[4] == "name="@ + r.id
            &&& a[5] == "dir="@ + match r.direction {
                FirewallDirection::Outbound => "out"@,
                _ => "in"@,
            }
            &&& a[6] == "action="@ + match r.action {
                FirewallAction::Allow => "allow"@,
                _ => "block"@,
            }
            &&& (r.protocol matches Some(x) ==> a[7] == "protocol="@ + (
                if lowercase(x) == "tcp"@ { "TCP"@ }
                else if lowercase(x) == "udp"@ { "UDP"@ }
                else if lowercase(x) == "icmp"@ { "ICMPv4"@ }
                else { x }))
            &&& (r.dst_port matches Some(n) ==> a[7 + p] == "localport="@ + decimal(n as nat))
            &&& (r.src_ip matches Some(x) ==> a[7 + p + q] == "remoteip="@ + x)
            &&& (r.dst_ip matches Some(x) ==> a[7 + p + q + s] == "localip="@ + x)
        }),
{
    let pr = match r.protocol { Some(x) => Some(netsh_protocol(x)), None => None };
    let a0 = seq![
        "advfirewall"@,
        "firewall"@,
        "add"@,
        "rule"@,
        "name="@ + r.id,
        "dir="@ + netsh_direction(r.direction),
        "action="@ + netsh_action(r.action),
    ];
    let a1 = a0 + prefixed("protocol="@, pr);
    let a2 = a1 + prefixed("localport="@, port_text(r.dst_port));
    let a3 = a2 + prefixed("remoteip="@, r.src_ip);
    let a4 = a3 + prefixed("localip="@, r.dst_ip);
    assert(netsh_args(r) == a4);
}

fn push_prefixed(args: &mut Vec<String>, prefix: &str, v: &Option<String>)
    ensures
        strings_view(final(args)@) == strings_view(old(args)@) + prefixed(prefix@, opt_view(*v)),
{
    match v {
        Some(x) => {
            args.push(concat2(prefix, x.as_str()));
            assert(strings_view(args@) =~= strings_view(old(args)@) + seq![prefix@ + x@]);
        },
        None => {
            assert(strings_view(args@) =~= strings_view(old(args)@) + Seq::<Seq<char>>::empty());
        },
    }
}

/// The netsh name of the protocol `proto`, given its lowercase form `lower`: TCP, UDP
/// and ICMPv4 for tcp, udp and icmp; any other protocol as given.
pub fn protocol_from_lowercase(proto: &str, lower: &str) -> (r: String)
    ensures
        r@ == netsh_protocol_from(proto@, lower@),
{
    if str_eq(lower, "tcp") {
        owned("TCP")
    } else if str_eq(lower, "udp") {
        owned("UDP")
    } else if str_eq(lower, "icmp") {
        owned("ICMPv4")
    } else {
        owned(proto)
    }
}

fn protocol_name(proto: &String) -> (r: String)
    ensures
        r@ == netsh_protocol(proto@),
{
    let lower = to_lowercase(proto.as_str());
    protocol_from_lowercase(proto.as_str(), lower.as_str())
}

impl WindowsFirewall {
    pub fn new() -> (fw: Self)
        ensures
            fw == WindowsFirewall,
    {
        WindowsFirewall
    }

    /// Converts a rule to `netsh` arguments, e.g.
    /// `advfirewall firewall add rule name=allow-https dir=in action=allow protocol=TCP localport=443`.
    pub fn rule_to_netsh_args(&self, rule: &FirewallRule) -> (r: Result<Vec<String>, FirewallError>)
        ensures
            r matches Ok(args) && strings_view(args@) == netsh_args(rule@),
    {
        let dir = match rule.direction {
            FirewallDirection::Inbound => "in",
            FirewallDirection::Outbound => "out",
            FirewallDirection::Both => "in",
        };
        let action = match rule.action {
            FirewallAction::Allow => "allow",
            FirewallAction::Block => "block",
            FirewallAction::Reject => "block",
        };
        let mut args: Vec<String> = Vec::new();
        args.push(owned("advfirewall"));
        args.push(owned("firewall"));
        args.push(owned("add"));
        args.push(owned("rule"));
        args.push(concat2("name=", rule.id.as_str()));
        args.push(concat2("dir=", dir));
        args.push(concat2("action=", action));
        assert(strings_view(args@) =~= seq![
            "advfirewall"@,
            "firewall"@,
            "add"@,
            "rule"@,
            "name="@ + rule.id@,
            "dir="@ + netsh_direction(rule.direction),
            "action="@ + netsh_action(rule.action),
        ]);
        let protocol: Option<String> = match &rule.protocol {
            Some(p) => Some(protocol_name(p)),
            None => None,
        };
        push_prefixed(&mut args, "protocol=", &protocol);
        let port: Option<String> = match rule.dst_port {
            Some(p) => Some(decimal_string(p as u64)),
            None => None,
        };
        assert(opt_view(port) == port_text(rule.dst_port));
        push_prefixed(&mut args, "localport=", &port);
        push_prefixed(&mut args, "remoteip=", &rule.src_ip);
        push_prefixed(&mut args, "localip=", &rule.dst_ip);
        Ok(args)
    }
}

impl Default for WindowsFirewall {
    fn default() -> (fw: Self)
        ensures
            fw == WindowsFirewall,
    {
        Self::new()
    }
}

/// The text after `key` on a line that starts with it, trimmed.
pub open spec fn field_value(line: Seq<char>, key: Seq<char>) -> Seq<char> {
    trim(line.subrange(key.len() as int, line.len() as int))
}

/// A new rule named `name`, as a "Rule Name:" line opens it: allowed, inbound, no addresses,
/// port or protocol, described by its name.
pub open spec fn named_rule(name: Seq<char>) -> FirewallRuleView {
    FirewallRuleView {
        id: name,
        action: FirewallAction::Allow,
        direction: FirewallDirection::Inbound,
        src_ip: None,
        dst_ip: None,
        dst_port: None,
        protocol: None,
        description: name,
    }
}

/// The rule `r` updated by one trimmed "Key: value" line of its verbose listing.
pub open spec fn netsh_update(r: FirewallRuleView, line: Seq<char>) -> FirewallRuleView {
    if starts_with(line, "Action:"@) {
        FirewallRuleView {
            action: if contains_text(line, "Allow"@) { FirewallAction::Allow } else { FirewallAction::Block },
            ..r
        }
    } else if starts_with(line, "Direction:"@) {
        FirewallRuleView {
            direction: if contains_text(line, "In"@) { FirewallDirection::Inbound } else { FirewallDirection::Outbound },
            ..r
        }
    } else if starts_with(line, "Protocol:"@) {
        FirewallRuleView { protocol: Some(field_value(line, "Protocol:"@)), ..r }
    } else if starts_with(line, "LocalPort:"@) {
        FirewallRuleView { dst_port: parse_u16_spec(field_value(line, "LocalPort:"@)), ..r }
    } else if starts_with(line, "RemoteIP:"@) {
        if field_value(line, "RemoteIP:"@) != "Any"@ {
            FirewallRuleView { src_ip: Some(field_value(line, "RemoteIP:"@)), ..r }
        } else {
            r
        }
    } else if starts_with(line, "LocalIP:"@) {
        if field_value(line, "LocalIP:"@) != "Any"@ {
            FirewallRuleView { dst_ip: Some(field_value(line, "LocalIP:"@)), ..r }
        } else {
            r
        }
    } else {
        r
    }
}

/// Reading a netsh listing: the finished rules, and the rule being read, if any.
pub struct NetshScan {
    pub done: Seq<FirewallRuleView>,
    pub current: Option<FirewallRuleView>,
}

/// One line of a verbose `netsh advfirewall firewall show rule` listing: a "Rule Name:"
/// line finishes the rule being read and opens a new one; other lines update the rule
/// being read (and are ignored before the first rule).
pub open spec fn netsh_step(st: NetshScan, raw: Seq<char>) -> NetshScan {
    let line = trim(raw);
    if starts_with(line, "Rule Name:"@) {
        NetshScan {
            done: match st.current {
                Some(r) => st.done.push(r),
                None => st.done,
            },
            current: Some(named_rule(field_value(line, "Rule Name:"@))),
        }
    } else {
        match st.current {
            Some(r) => NetshScan { done: st.done, current: Some(netsh_update(r, line)) },
            None => st,
        }
    }
}

/// The state after reading the given lines.
pub open spec fn netsh_scan(ls: Seq<Seq<char>>) -> NetshScan
    decreases ls.len(),
{
    if ls.len() == 0 {
        NetshScan { done: Seq::empty(), current: None }
    } else {
        netsh_step(netsh_scan(ls.drop_last()), ls.last())
    }
}

/// The rules shown in a verbose netsh listing, in order.
pub open spec fn netsh_listing(stdout: Seq<char>) -> Seq<FirewallRuleView> {
    let st = netsh_scan(text_lines(stdout));
    match st.current {
        Some(r) => st.done.push(r),
        None => st.done,
    }
}

/// Whether a line of a verbose netsh listing opens a rule: trimmed, it begins with
/// "Rule Name:".
pub open spec fn netsh_line_opens_rule(l: Seq<char>) -> bool {
    starts_with(trim(l), "Rule Name:"@)
}

/// The positions of the lines that open a rule, in order.
pub open spec fn opening_positions(ls: Seq<Seq<char>>) -> Seq<int>
    decreases ls.len(),
{
    if ls.len() == 0 {
        Seq::empty()
    } else if netsh_line_opens_rule(ls.last()) {
        opening_positions(ls.drop_last()).push(ls.len() - 1)
    } else {
        opening_positions(ls.drop_last())
    }
}

/// The rule that a line opening it starts from: named and described by the text after
/// "Rule Name:" (its first ten characters), both trimmed; allowing, inbound, with no
/// addresses, port or protocol.
pub open spec fn opened_rule(line: Seq<char>) -> FirewallRuleView {
    let t = trim(line);
    let name = trim(t.subrange(10, t.len() as int));
    FirewallRuleView {
        id: name,
        action: FirewallAction::Allow,
        direction: FirewallDirection::Inbound,
        src_ip: None,
        dst_ip: None,
        dst_port: None,
        protocol: None,
        description: name,
    }
}

/// `r` after each of the lines, trimmed, has updated it in turn.
pub open spec fn after_lines(r: FirewallRuleView, ls: Seq<Seq<char>>) -> FirewallRuleView
    decreases ls.len(),
{
    if ls.len() == 0 {
        r
    } else {
        netsh_update(after_lines(r, ls.drop_last()), trim(ls.last()))
    }
}

/// The lines that belong to the `k`-th rule: from just after the line that opens it up
/// to the line that opens the next one, or to the end.
pub open spec fn rule_block(ls: Seq<Seq<char>>, k: int) -> Seq<Seq<char>> {
    let h = opening_positions(ls);
    ls.subrange(h[k] + 1, if k + 1 < h.len() { h[k + 1] } else { ls.len() as int })
}

proof fn lemma_netsh_scan_blocks(ls: Seq<Seq<char>>)
    ensures
        ({
            let h = opening_positions(ls);
            let st = netsh_scan(ls);
            &&& forall|k: int| 0 <= k < h.len() ==> 0 <= #[trigger] h[k] < ls.len()
            &&& forall|k: int, m: int| 0 <= k < m < h.len() ==> #[trigger] h[k] < #[trigger] h[m]
            &&& (st.current is Some) == (h.len() > 0)
            &&& st.done.len() == if h.len() > 0 { h.len() - 1 } else { 0 }
            &&& forall|k: int| 0 <= k < st.done.len() ==>
                #[trigger] st.done[k] == after_lines(opened_rule(ls[h[k]]), rule_block(ls, k))
            &&& h.len() > 0 ==> st.current == Some(
                after_lines(opened_rule(ls[h[h.len() - 1]]), rule_block(ls, h.len() - 1)))
        }),
    decreases ls.len(),
{
    reveal_strlit("Rule Name:");
    if ls.len() > 0 {
        let l0 = ls.drop_last();
        let x = ls.last();
        lemma_netsh_scan_blocks(l0);
        let h0 = opening_positions(l0);
        let h = opening_positions(ls);
        let st0 = netsh_scan(l0);
        let st = netsh_scan(ls);
        assert forall|k: int| 0 <= k < h0.len() - 1 implies rule_block(ls, k) == rule_block(l0, k) by {
            if netsh_line_opens_rule(x) {
                assert(h[k] == h0[k] && h[k + 1] == h0[k + 1]);
            } else {
                assert(h == h0);
            }
            assert(h0[k] < h0[k + 1]);
            assert(ls.subrange(h0[k] + 1, h0[k + 1]) =~= l0.subrange(h0[k] + 1, h0[k + 1]));
        }
        if netsh_line_opens_rule(x) {
            assert(h == h0.push(ls.len() - 1));
            assert(named_rule(field_value(trim(x), "Rule Name:"@)) == opened_rule(x));
            assert(rule_block(ls, h.len() - 1) =~= Seq::<Seq<char>>::empty());
            if h0.len() > 0 {
                let last = h0.len() - 1;
                assert(ls.subrange(h0[last] + 1, ls.len() - 1) =~= l0.subrange(h0[last] + 1, l0.len() as int));
                assert(rule_block(ls, last) == rule_block(l0, last));
                assert forall|k: int| 0 <= k < st.done.len() implies
                    #[trigger] st.done[k] == after_lines(opened_rule(ls[h[k]]), rule_block(ls, k)) by {
                    if k < last {
                        assert(st.done[k] == st0.done[k]);
                    }
                }
            }
        } else {
            assert(h == h0);
            if h0.len() > 0 {
                let last = h0.len() - 1;
                let b = rule_block(ls, last);
                assert(b.drop_last() =~= rule_block(l0, last));
                assert(b.last() == x);
                assert forall|k: int| 0 <= k < st.done.len() implies
                    #[trigger] st.done[k] == after_lines(opened_rule(ls[h[k]]), rule_block(ls, k)) by {
                    assert(st.done[k] == st0.done[k]);
                }
            }
        }
    }
}

/// The rules read from a verbose netsh listing are its rule blocks, in order: one rule per
/// line that opens a rule, each starting as that line names it (allowing, inbound, with
/// no addresses, port or protocol) and then updated, in turn, by the lines up to the
/// next such line or the end of the listing; lines before the first rule are ignored.
pub proof fn lemma_netsh_listing_blocks(stdout: Seq<char>)
    ensures
        netsh_listing(stdout).len() == opening_positions(text_lines(stdout)).len(),
        forall|k: int| 0 <= k < netsh_listing(stdout).len() ==> #[trigger] netsh_listing(stdout)[k]
            == after_lines(
                opened_rule(text_lines(stdout)[opening_positions(text_lines(stdout))[k]]),
                rule_block(text_lines(stdout), k),
            ),
{
    let ls = text_lines(stdout);
    lemma_netsh_scan_blocks(ls);
    let st = netsh_scan(ls);
    let h = opening_positions(ls);
    assert forall|k: int| 0 <= k < netsh_listing(stdout).len() implies #[trigger] netsh_listing(stdout)[k]
        == after_lines(opened_rule(ls[h[k]]), rule_block(ls, k)) by {
        if k < st.done.len() {
            assert(netsh_listing(stdout)[k] == st.done[k]);
        }
    }
}

proof fn lemma_prefixes_agree(s: Seq<char>, p: Seq<char>, q: Seq<char>, i: int)
    requires
        starts_with(s, p),
        starts_with(s, q),
        0 <= i < p.len(),
        i < q.len(),
    ensures
        p[i] == q[i],
{
    assert(p[i] == s.subrange(0, p.len() as int)[i]);
    assert(q[i] == s.subrange(0, q.len() as int)[i]);
}

/// What one trimmed line of a rule's verbose netsh listing does to the rule read: an
/// "Action:" line makes it allow when the line mentions "Allow" and block otherwise; a
/// "Direction:" line makes it inbound when the line mentions "In" and outbound
/// otherwise; "Protocol:" sets the protocol to the value after the key; "LocalPort:"
/// sets the port to that value read as a port number (none when it is not one);
/// "RemoteIP:" and "LocalIP:" set the source and the destination to the value, unless
/// it is "Any", which leaves them as they were. Each line changes only its own field;
/// any other line changes nothing.
pub proof fn lemma_netsh_line_effect(r: FirewallRuleView, line: Seq<char>)
    ensures
        starts_with(line, "Action:"@) ==> netsh_update(r, line) == (FirewallRuleView {
            action: if contains_text(line, "Allow"@) { FirewallAction::Allow } else { FirewallAction::Block },
            ..r
        }),
        starts_with(line, "Direction:"@) ==> netsh_update(r, line) == (FirewallRuleView {
            direction: if contains_text(line, "In"@) { FirewallDirection::Inbound } else { FirewallDirection::Outbound },
            ..r
        }),
        starts_with(line, "Protocol:"@) ==> netsh_update(r, line) == (FirewallRuleView {
            protocol: Some(trim(line.subrange(9, line.len() as int))),
            ..r
        }),
        starts_with(line, "LocalPort:"@) ==> netsh_update(r, line) == (FirewallRuleView {
            dst_port: parse_u16_spec(trim(line.subrange(10, line.len() as int))),
            ..r
        }),
        starts_with(line, "RemoteIP:"@) ==> netsh_update(r, line) == (FirewallRuleView {
            src_ip: if trim(line.subrange(9, line.len() as int)) == "Any"@ {
                r.src_ip
            } else {
                Some(trim(line.subrange(9, line.len() as int)))
            },
            ..r
        }),
        starts_with(line, "LocalIP:"@) ==> netsh_update(r, line) == (FirewallRuleView {
            dst_ip: if trim(line.subrange(8, line.len() as int)) == "Any"@ {
                r.dst_ip
            } else {
                Some(trim(line.subrange(8, line.len() as int)))
            },
            ..r
        }),
        !starts_with(line, "Action:"@) && !starts_with(line, "Direction:"@) && !starts_with(line, "Protocol:"@)
            && !starts_with(line, "LocalPort:"@) && !starts_with(line, "RemoteIP:"@)
            && !starts_with(line, "LocalIP:"@) ==> netsh_update(r, line) == r,
{
    reveal_strlit("Action:");
    reveal_strlit("Direction:");
    reveal_strlit("Protocol:");
    reveal_strlit("LocalPort:");
    reveal_strlit("RemoteIP:");
    reveal_strlit("LocalIP:");
    if starts_with(line, "Direction:"@) && starts_with(line, "Action:"@) {
        lemma_prefixes_agree(line, "Direction:"@, "Action:"@, 0);
    }
    if starts_with(line, "Protocol:"@) {
        if starts_with(line, "Action:"@) { lemma_prefixes_agree(line, "Protocol:"@, "Action:"@, 0); }
        if starts_with(line, "Direction:"@) { lemma_prefixes_agree(line, "Protocol:"@, "Direction:"@, 0); }
    }
    if starts_with(line, "LocalPort:"@) {
        if starts_with(line, "Action:"@) { lemma_prefixes_agree(line, "LocalPort:"@, "Action:"@, 0); }
        if starts_with(line, "Direction:"@) { lemma_prefixes_agree(line, "LocalPort:"@, "Direction:"@, 0); }
        if starts_with(line, "Protocol:"@) { lemma_prefixes_agree(line, "LocalPort:"@, "Protocol:"@, 0); }
    }
    if starts_with(line, "RemoteIP:"@) {
        if starts_with(line, "Action:"@) { lemma_prefixes_agree(line, "RemoteIP:"@, "Action:"@, 0); }
        if starts_with(line, "Direction:"@) { lemma_prefixes_agree(line, "RemoteIP:"@, "Direction:"@, 0); }
        if starts_with(line, "Protocol:"@) { lemma_prefixes_agree(line, "RemoteIP:"@, "Protocol:"@, 0); }
        if starts_with(line, "LocalPort:"@) { lemma_prefixes_agree(line, "RemoteIP:"@, "LocalPort:"@, 0); }
    }
    if starts_with(line, "LocalIP:"@) {
        if starts_with(line, "Action:"@) { lemma_prefixes_agree(line, "LocalIP:"@, "Action:"@, 0); }
        if starts_with(line, "Direction:"@) { lemma_prefixes_agree(line, "LocalIP:"@, "Direction:"@, 0); }
        if starts_with(line, "Protocol:"@) { lemma_prefixes_agree(line, "LocalIP:"@, "Protocol:"@, 0); }
        if starts_with(line, "LocalPort:"@) { lemma_prefixes_agree(line, "LocalIP:"@, "LocalPort:"@, 5); }
        if starts_with(line, "RemoteIP:"@) { lemma_prefixes_agree(line, "LocalIP:"@, "RemoteIP:"@, 0); }
    }
}

fn field_text(line: &Vec<char>, key: &str) -> (r: Vec<char>)
    requires
        starts_with(line@, key@),
    ensures
        r@ == field_value(line@, key@),
{
    let rest = after_prefix(line.as_slice(), key);
    trim_chars(rest.as_slice())
}

fn update_rule(rule: &mut FirewallRule, line: &Vec<char>)
    ensures
        final(rule)@ == netsh_update(old(rule)@, line@),
{
    if has_prefix(line.as_slice(), "Action:") {
        rule.action = if contains_str(line.as_slice(), "Allow") { FirewallAction::Allow } else { FirewallAction::Block };
    } else if has_prefix(line.as_slice(), "Direction:") {
        rule.direction = if contains_str(line.as_slice(), "In") {
            FirewallDirection::Inbound
        } else {
            FirewallDirection::Outbound
        };
    } else if has_prefix(line.as_slice(), "Protocol:") {
        let v = field_text(line, "Protocol:");
        rule.protocol = Some(string_from_chars(v.as_slice()));
    } else if has_prefix(line.as_slice(), "LocalPort:") {
        let v = field_text(line, "LocalPort:");
        rule.dst_port = parse_u16(v.as_slice());
    } else if has_prefix(line.as_slice(), "RemoteIP:") {
        let v = field_text(line, "RemoteIP:");
        if !chars_eq_str(v.as_slice(), "Any") {
            rule.src_ip = Some(string_from_chars(v.as_slice()));
        }
    } else if has_prefix(line.as_slice(), "LocalIP:") {
        let v = field_text(line, "LocalIP:");
        if !chars_eq_str(v.as_slice(), "Any") {
            rule.dst_ip = Some(string_from_chars(v.as_slice()));
        }
    }
}

impl WindowsFirewall {
    /// The rules shown in the output of `netsh advfirewall firewall show rule name=all verbose`.
    pub fn parse_listing(&self, stdout: &str) -> (rules: Vec<FirewallRule>)
        ensures
            rules_view(rules@) == netsh_listing(stdout@),
    {
        let text = chars_of(stdout);
        let ls = lines(text.as_slice());
        let ghost lv = ls@.map_values(|l: Vec<char>| l@);
        let mut done: Vec<FirewallRule> = Vec::new();
        let mut current: Option<FirewallRule> = None;
        let n = ls.len();
        for i in 0..n
            invariant
                n == ls@.len(),
                lv == ls@.map_values(|l: Vec<char>| l@),
                lv == text_lines(stdout@),
                rules_view(done@) == netsh_scan(lv.take(i as int)).done,
                (match current {
                    Some(r) => netsh_scan(lv.take(i as int)).current == Some(r@),
                    None => netsh_scan(lv.take(i as int)).current is None,
                }),
        {
            assert(lv.take(i + 1).drop_last() == lv.take(i as int));
            assert(lv.take(i + 1).last() == ls@[i as int]@);
            let line = trim_chars(ls[i].as_slice());
            if has_prefix(line.as_slice(), "Rule Name:") {
                let name = field_text(&line, "Rule Name:");
                let ghost before = rules_view(done@);
                match current {
                    Some(r) => {
                        done.push(r);
                        assert(rules_view(done@) =~= before.push(r@));
                    },
                    None => {},
                }
                let id = string_from_chars(name.as_slice());
                let description = string_from_chars(name.as_slice());
                current = Some(FirewallRule {
                    id,
                    action: FirewallAction::Allow,
                    direction: FirewallDirection::Inbound,
                    src_ip: None,
                    dst_ip: None,
                    dst_port: None,
                    protocol: None,
                    description,
                });
            } else {
                match current {
                    Some(mut r) => {
                        update_rule(&mut r, &line);
                        current = Some(r);
                    },
                    None => {},
                }
            }
        }
        assert(lv.take(n as int) == lv);
        let ghost before = rules_view(done@);
        match current {
            Some(r) => {
                done.push(r);
                assert(rules_view(done@) =~= before.push(r@));
            },
            None => {},
        }
        done
    }
}

impl WindowsFirewall {
    /// The `netsh` arguments that delete the rule named `rule_id`:
    /// `advfirewall firewall delete rule name=<rule_id>`.
    pub fn delete_rule_args(&self, rule_id: &str) -> (r: Vec<String>)
        ensures
            strings_view(r@) == seq!["advfirewall"@, "firewall"@, "delete"@, "rule"@, "name="@ + rule_id@],
    {
        let mut v: Vec<String> = Vec::new();
        v.push(owned("advfirewall"));
        v.push(owned("firewall"));
        v.push(owned("delete"));
        v.push(owned("rule"));
        v.push(concat2("name=", rule_id));
        assert(strings_view(v@) =~= seq!["advfirewall"@, "firewall"@, "delete"@, "rule"@, "name="@ + rule_id@]);
        v
    }

    /// The `netsh` arguments that show the rule named `rule_id`; the rule exists exactly
    /// when the command succeeds.
    pub fn show_rule_args(&self, rule_id: &str) -> (r: Vec<String>)
        ensures
            strings_view(r@) == seq!["advfirewall"@, "firewall"@, "show"@, "rule"@, "name="@ + rule_id@],
    {
        let mut v: Vec<String> = Vec::new();
        v.push(owned("advfirewall"));
        v.push(owned("firewall"));
        v.push(owned("show"));
        v.push(owned("rule"));
        v.push(concat2("name=", rule_id));
        assert(strings_view(v@) =~= seq!["advfirewall"@, "firewall"@, "show"@, "rule"@, "name="@ + rule_id@]);
        v
    }

    /// The outcome of deleting the rule `rule_id`: success; `RuleNotFound(rule_id)` when
    /// netsh's error output mentions "No rules" or "not found"; otherwise the error
    /// "netsh failed: <stderr>".
    pub fn remove_outcome(&self, rule_id: &str, success: bool, stderr: &str) -> (r: Result<(), FirewallError>)
        ensures
            success ==> r is Ok,
            !success && (contains_text(stderr@, "No rules"@) || contains_text(stderr@, "not found"@)) ==>
                (r matches Err(FirewallError::RuleNotFound(id)) && id@ == rule_id@),
            !success && !(contains_text(stderr@, "No rules"@) || contains_text(stderr@, "not found"@)) ==>
                (r matches Err(FirewallError::PlatformError(m)) && m@ == "netsh failed: "@ + stderr@),
    {
        if success {
            return Ok(());
        }
        let err = chars_of(stderr);
        if contains_str(err.as_slice(), "No rules") || contains_str(err.as_slice(), "not found") {
            Err(FirewallError::RuleNotFound(owned(rule_id)))
        } else {
            Err(FirewallError::PlatformError(concat2("netsh failed: ", stderr)))
        }
    }
}

impl WindowsFirewall {
    /// The `netsh` arguments that list every rule in detail.
    pub fn list_args(&self) -> (r: Vec<String>)
        ensures
            strings_view(r@) == seq!["advfirewall"@, "firewall"@, "show"@, "rule"@, "name=all"@, "verbose"@],
    {
        let mut v: Vec<String> = Vec::new();
        v.push(owned("advfirewall"));
        v.push(owned("firewall"));
        v.push(owned("show"));
        v.push(owned("rule"));
        v.push(owned("name=all"));
        v.push(owned("verbose"));
        assert(strings_view(v@) =~= seq!["advfirewall"@, "firewall"@, "show"@, "rule"@, "name=all"@, "verbose"@]);
        v
    }
}

} // verus!
