# Dinit Dash

The logic of a dashboard for the [Dinit](https://davmac.org/projects/dinit/)
service manager, verified with Verus.

The dashboard shows the services of the system or of the user, starts, stops,
restarts, enables and disables them, and shows the details and the log of one of
them. It talks to Dinit through `dinitctl`.

- `src/text.rs`: words, lines, numbers and replacement in text.
- `src/environment.rs`, `src/paths.rs`: environment variables, and where Dinit
  keeps description files and the links that enable services.
- `src/listing.rs`: the output of `dinitctl list`.
- `src/details.rs`: the status report of a service, and where its log lies.
- `src/control.rs`: the command lines, privilege escalation, and what the outcome
  of a command means.
- `src/dinit.rs`: services, scopes, and the manager that ties these together.
- `src/roster.rs`: merging a new list of services into the one that is kept.
- `src/message.rs`, `src/update.rs`: the messages, the state, and how messages
  change it.
- `src/roster_laws.rs`, `src/laws.rs`: what holds of all of it.
- `app/`: processes, files, the environment and the clock.

The library does no input or output. Where it needs to know what exists on the
disk, one function names the paths to look at, and the paths that were found are
handed to another.
