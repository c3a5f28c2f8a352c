# goose-hostops

The host operations of the goose agent, with their behaviour stated in contracts
and proved by Verus: shell commands, SSH commands and terminals, git
repositories, directory listings, attachments, file mentions, and the
certificate of the local server.

`src/` is the verified library. An operation that needs the host is a function
of the replies that it has got so far: it gives back the next action to perform,
or its result. Nothing in `src/` touches the disk, the network or a process, so
each such function has one exact contract over the whole exchange.

- `text`, `numbers`, `order`, `paths`, `encoding`, `platform`: text, decimal
  numbers, stable sorting, paths by the rules of a platform, UTF-8 and base64.
- `shell`: which shell runs a command, how it is started and stopped, the words
  of a command, paths and line ends.
- `ssh`: connecting and logging in, single commands, terminals.
- `git`: the state of a repository, branches, worktrees, changed files.
- `system_ops`: directories, attachments, files to mention.
- `tls`: a self-signed certificate for this machine.

The modules named `laws` state what holds of several functions together, as
proof functions.

What the proofs rest on besides Verus and its library are the contracts of the
functions marked `external_body` and of the `assume_specification` item. The
comment of each names the outside code that it calls and says what is claimed of
it.

`app/` performs the actions: it runs `git`, reads and writes files, walks
directories, speaks SSH, serves the tools and starts processes.

`tests/` runs the library.
