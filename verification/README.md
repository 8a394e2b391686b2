# netscan

A terminal network toolkit — a TCP connect port scanner and a packet
sniffer with a keyboard-driven interface — whose core is verified with
Verus.

* `src/` is the verified library:
  * `packet` decodes Ethernet II, IPv4, IPv6, ARP, TCP (with options) and
    UDP; each decoder's contract says exactly which inputs it accepts and
    how every field comes from the bytes.
  * `bytes` reads big-endian fields, splits bytes into nibbles and renders
    hexadecimal.
  * `banner` extracts the banner shown for an open port from a service's
    first reply.
  * `scan` holds the service table, the probe-outcome records, the planner
    that hands ports to the scan workers, and the state machine of the scan
    page; `sniffer` the bounded capture list; `app_state` the shell
    (navigation, pop-up, quit); `components`, `main_content` and `contents`
    the smaller pages and widgets.
  * `text` wraps the few standard-library string operations used.
* `app/` is the terminal front end: terminal set-up, the event loop, the
  tick timer, packet capture with `pcap`, the TCP probes on `tokio`, and all
  drawing with `ratatui`.
* `tests/` exercise the library on concrete inputs.
