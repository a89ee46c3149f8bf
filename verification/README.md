# winapps (libvirt backend)

A Verus-verified library for the libvirt backend of winapps.

- `src/text.rs`: lines, white-space separated words, ASCII case-insensitive comparison.
- `src/net.rs`: readers for the tables of `virsh domifaddr`, `virsh domiflist` and
  `virsh net-dhcp-leases`, and the MAC address check.
- `src/types.rs`: domain names and domain states (`virsh domstate`).
- `src/virsh.rs`: the `virsh` commands, as invocations for the caller to run.
- `src/discovery.rs`: the search for the guest's IP address as a state machine, with the
  laws that tie every run of it to one result.
- `src/adapter.rs`: the libvirt guest domain.
- `src/backend.rs`: the configuration, the choice of backend and its dependency check.
- `app/`: runs the commands, parses IP addresses with the standard library and logs.
