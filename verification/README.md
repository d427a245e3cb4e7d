# dwo_agent

The rules of a host for coding agents: sessions and their turns, tools and who
may call them, subagents, context compaction, channels, automation and the
dashboard's numbers.

- `src/` holds the rules, with contracts that Verus proves. Modules speak of
  their data through views (`json::Jv`, `session::SessionView`, ...); a rule is
  a `spec fn`, and the function that applies it ensures that it does. What
  holds across functions is stated by the `law_...` proof functions.
- Calls into other crates stand behind small functions that are marked
  `external_body` (`json`, `patterns`, `compact`, `ids`, `days`,
  `text`, `file_edit`). Their comments say what is claimed of the outside code.
- `tests/` runs the library on concrete values.
- `app/` is the program around it: files, processes, network, the terminal.

Errors are texts. Times are handed in as texts, and so is everything else that
depends on the machine.
