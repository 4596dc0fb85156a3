# mdns-scanner

A network scanner that lists the hosts of the local networks with the names
they are known by: it listens to multicast DNS, asks for DNS-SD services, and
probes every address of each network with ICMP and TCP.

The logic is a Verus library under `src/`. Verus proves each function
against its contract, except the small wrappers marked
`#[verifier::external_body]` that call the standard library or an outside
crate (the clock, the log's ring buffer, lock and channel, regular
expressions, DNS packet parsing and building, display widths, the terminal's
emoji support, network interfaces and the file descriptor limit): their
contracts, each stated in its doc comment, are trusted. A few functions state
no result at all, where it rests on the clock, a lock or a channel.

The modules:

- `ip_address`, `net`, `hostname`, `strings`, `lexical`: addresses, networks,
  host names and texts, with their orderings and formats.
- `discovery`, `dns_sd`, `dns_wire`, `host_up`: what replies and probes tell
  about a host, the records read from received packets and the queries sent.
- `ip_info`, `collector`, `ip_db`, `mdns_info`: what is known of each host,
  how reports merge, and the listing shown to the user.
- `tui_model`, `table_pane`, `log_scroll`, `option_selector`, `config_doc`,
  `config_edit`, `cfg_picker`, `error_box`, `keybindings`, `port_scan`, `theme`, `format`: the state
  machines, layout arithmetic and texts of the terminal interface.
- `log`, `refresh`, `clock`, `resource_scaling`, `emojis`, `display_width`:
  logging, signalling and what the machine offers.

`app/` is the program around it: arguments, sockets, threads, probes and
printing. `tests/` runs the library on concrete values.
