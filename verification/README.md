# automation_core

The platform-independent core of a local desktop automation that sends a
message to one contact of a chat client: it finds the contact (through the
search box and its suggestion dropdown, or by sweeping the chat list), checks
the chat it opened, types the message and verifies its delivery. Every step
that could reach the wrong recipient is refused unless the screen confirms it.

The library (`src/`) is written in Verus and verified:

- `state` — the task state machine and its transition rules;
- `ports` — geometry, recognised text blocks and the error vocabulary;
- `policy`, `trail` — the contact-name matching rules and the reasons each
  candidate was kept or dropped;
- `dropdown` — the judgement of the search dropdown;
- `flow`, `runner` — every decision of a run: its route, window guards,
  list sweeps, verdicts and failure messages;
- `audit`, `candidates`, `diagnostics`, `cancel` — audit records, the send
  ledger, message digests and their supporting pieces;
- `desktop`, `macosapi` — the decisions of the macOS platform layer (the
  system calls themselves are not available in this build);
- `mock`, `mockdesk` — test doubles: scripted faults, a matcher, a simulated
  desktop and a scripted recognition engine.

`app/` holds what the library cannot: the port traits, the floating-point
parts (confidences as numbers, window-relative regions, scales, icon scores),
serialisable records, and the run loop that performs the desktop work the
library's decisions call for. `tests/` exercises the library from outside.
