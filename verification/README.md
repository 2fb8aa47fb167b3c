# rust_system_agent

A command-line system agent: a language model answers a request by calling
tools (shell commands, file reading and writing, directory listings, a
persistent memory store, web search and page fetching) until it gives a
final answer.

The crate is split in two:

- `src/` is the library, verified with Verus. It holds the agent's
  conversation loop as a state machine (`agent`), the settings (`config`),
  the chat message types (`llm`), the interactive session rules
  (`session`), the tool catalogue and request decoding (`tools`), the
  memory store (`tools::memory`), and the text processing behind the file,
  shell, web-fetch and web-search tools. Contracts state each function's
  result over spec functions; public proof functions state the laws that
  hold across calls (the round limit of a run, the history bound, what the
  memory operations keep).
- `app/` is the program around it: command-line parsing, the terminal, the
  HTTP client, process spawning, file I/O and JSON (de)serialisation. It
  runs the agent loop by performing the steps the library's state machine
  asks for.

Calls into outside crates that compute (regular expressions, JSON field
lookup, URL encoding, lowercasing, the clock) sit behind small trusted
wrappers whose contracts say what the crates' sources show.
