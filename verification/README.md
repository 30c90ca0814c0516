# starshield

The decision logic of the StarShield threat-response system, verified with Verus.

- `src/text.rs`: the character-level model (whitespace, trimming, search, words,
  decimal numbers) that the rest is stated in.
- `src/agents.rs`: the agents of the hub: the offline analyst, the packet-filter
  defender, the red-team challenge (a state machine of up to three rounds), and the
  healing of the dotfiles repository (a state machine over git steps).
- `src/config.rs`: the hub's configuration and port parsing.
- `src/hub.rs`: the handling of an alert, and the fallback parser of analyst replies.
- `src/probe.rs`: which log lines are threats, and where the probe reads next.
- `app/`: the programs (`starshield hub`, `starshield probe`): HTTP, ssh, git,
  files and the clock, driving the library's state machines.
