# research_mcp

A deep research engine: a queue of topics, a pipeline of eight phases from a plan to a
report, a debate of five agents on the draft, and a server of eight tools.

`src/` is the library. Everything that decides something stands there, with its contract,
and is proved by Verus:

- `db`, `worker`, `mcp`: the queue, which run comes next and what follows a failure, the
  tools.
- `workflow`: plans, gathering, sources, evidence, reports, and the run as a state machine.
- `debate`: the agents, their prompts, and the debate as a state machine.
- `search`, `arxiv`, `pubmed`, `scopus`, `fetch`, `llm`: requests, retries, and what replies
  say.
- `slug`, `config`, `log`, `fence`: names, settings, messages, fenced replies.
- `text`, `words`, `number`, `order`: texts and numbers.
- `pattern`, `codec`, `xml`, `json`, `clock`: what the library has from other crates. Their
  contracts, and those of a few functions of std, are trusted; all others are proved.

Each module states its laws as public proof functions behind the functions they speak of.

`app/` does the input and output around the library: the command line, the network, the
database file, the server, and the arithmetic on beliefs, which are floating-point numbers.
`tests/` runs the library on concrete values.
