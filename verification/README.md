# app-security

A network-protection service for public Wi-Fi and LAN use: VPN with a kill switch,
ARP spoofing detection, DNS-over-HTTPS with leak detection, a cross-platform
firewall, and security alerts.

The library in `src/` holds the state and the decisions of every module, verified
with Verus against the contracts written beside each function:

- `engine`: module registry and startup order (topological sort of dependencies),
  lifecycle decisions, configuration defaults, input validation, a string-keyed map.
- `alert`: the alert store (bounded, oldest evicted first), the event-to-alert table,
  and the alert log's record format.
- `detection::arp`: the ARP monitor (known gateway mappings, anomaly detection).
- `network`: firewall rules and their `iptables` / `pf` / `netsh` renderings and
  listings, the kill switch, the VPN module, DNS-over-HTTPS and leak detection.
- `platform`: the plain data exchanged with the operating system.

`app/` is the service around it: the async event bus, the module manager's loop,
the platform and firewall back ends that run system tools, HTTP queries, and the
reading and writing of configuration and log files. It asks the library what to do
and reports the outcome of each outside call back to it.

`tests/` exercises the library on concrete values.
