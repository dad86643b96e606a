# orbit

`orbit` delegates the local Docker to a beefier machine on the LAN over SSH and
forwards published container ports back to `localhost`.

This crate is split in two:

- `src/` is the library, verified with Verus: the port reconciler
  (`forwarder`), the configuration and its paths (`config`), host adapter
  detection (`host`), SSH key authorization (`commands::host_setup`), the
  parsers of probe output (`metrics`, `commands::link`, `commands::host_init`),
  the dashboard and status lines, the `doctor` findings and verdict, and the MCP
  server's request handling (`mcp`). Text handling shared by all of these is in
  `text`; terminal colors and process outcomes in `util`.
- `app/` is the command-line program around it: argument parsing (clap),
  processes (`ssh`, `docker`), the Docker API client (bollard), files, prompts
  and printing.

The library's laws are public proof functions, among them:

- `forwarder::lemma_round_reaches_desired`, `lemma_round_within_desired`,
  `lemma_settled_round_is_empty`: a reconcile round converges on the published
  ports, never forwards an unwanted port, never closes a wanted one, and does
  nothing once settled;
- `commands::host_setup::lemma_add_key_idempotent`: authorizing a key twice
  leaves it authorized once;
- `config::lemma_paths_under_config_dir`: every runtime path lives under `~/.orbit`;
- `commands::link::lemma_target_round_trip`: a `user@host` target comes back
  unchanged as the linked configuration's SSH target;
- `mcp::lemma_stripped_text_is_clean`, `mcp::lemma_strip_ansi_idempotent`: no
  escape character survives color stripping, and stripping twice is stripping once.
- `mcp::lemma_catalogue_handled`: every tool the server advertises
  (`mcp::tool_names`) is handled when given its arguments, and any other name is
  refused as an unknown tool;
- `mcp::lemma_catalogue_matches_calls`: the catalogue (`mcp::tool_catalogue`)
  lists those tools in order, and its required arguments are exactly what a
  call needs;
- `mcp::Session::feed` and `mcp::lemma_answers_follow_input`: over a whole
  input stream the server answers each request that has an id exactly once, in
  input order, and nothing else.

Design notes:

- The MCP server reads messages through a JSON value type of its own
  (`mcp::Json`). serde_json only parses the text (`from_str::<Value>`, taken
  one for one into `Json`); which fields a request is read from, and with which
  types, is verified (`mcp::request_of`).
- The self-test's retry loop is a step function (`commands::setup::self_test_step`):
  up to 15 attempts, 700 ms apart; app/ sleeps and fetches the page.

- The reconciler's set of active forwards (`forwarder::Forwards`) is a
  `Vec<u16>` kept free of duplicates (its well-formedness invariant) rather
  than a hash set. vstd specifies `HashSet` too, but its iteration order is
  unspecified; with a vector the order in which a round plans its new forwards
  is fixed and can be stated in the contract.
- Host detection takes the environment as plain inputs: whether the program
  runs on Windows and whether WSL answers there (`host::windows_wsl::detect`),
  and which socket paths exist (`host::unix::detect`). The probes themselves
  are in `app/`.
- `-v`, `-vv` and `-vvv` select increasingly verbose default log filters
  (`cli::default_log_filter`: `info`, `debug`, `trace`).
