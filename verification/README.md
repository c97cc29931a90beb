# aria_agent

The verified core of the Aria node agent. It compiles the first stages of
a node's desired state: which ports the node takes on, its health checks,
backend sets, services, route tables and network policies, and the
summaries and status of a compilation. Given the state a node was compiled
to, it plans what the agent does next: the reconcile plan, the runtime
plan, the runtime inventory and what changed in it, the intent and
execution summary per runtime domain, and the socket load-balancing plan.

It also holds the building blocks of that compilation (addresses, local
ids, runtime labels, port ranges, backend members, service programs), the
entries of a tap's service maps (frontends, backend slots that follow the
backends' health, reverse-NAT entries), backend health tracking, the
decisions of one agent cycle, the control plane's observe pipeline, its
errors and the checks its operations make before they touch the kernel,
and the wire codes and resource types of the HTTP and southbound APIs.

Layout:

- `src/` — the library, verified with Verus. `agent/` plans and compiles,
  `control/` holds the control plane's decisions, `api/` the API types,
  `health.rs` the backend health trackers, `text.rs`, `order.rs` and
  `strset.rs` the string, ordering and set helpers everything else uses.
- `tests/` — tests of the library on concrete values.
- `app/` — what needs the network, the file system or `std::net`: TCP
  health probes, the kernel's uptime clock, the host name, and parsing the
  addresses that the service maps are planned from.
