# stock_agent

A terminal investment assistant in Spanish: a pipeline of model-backed
agents (profile, router, news search, market data, informer, formatter)
answers questions about markets, with a chat interface in the terminal.

The library in `src/` holds the rules of the assistant, verified with Verus:

- `text` — character-level helpers (trimming, ASCII case, UTF-8 byte
  lengths, splitting) and their facts.
- `models`, `events` — the domain data, the router's decision read from its
  JSON fields, token usage.
- `agents` — reading JSON out of model answers, the chat history sent to
  the model; `agents::investigation` — which companies are researched, the
  evidence quoted to the model, partial results, and the search for
  verified prices of a company as a state machine.
- `market_data` — ticker normalisation, price histories from Yahoo Finance
  and Finnhub answers, retry decisions, provider URLs and a price cache.
- `orchestrator` — the guardrail, the pipeline of a query as a state
  machine from outcome to next command, and the bookkeeping of a run.
- `storage` — how roles are stored.
- `ui`, `screen`, `markdown` — the interface state and what each key does,
  what the screen shows, and how Markdown (headings, bold, pipe tables) is
  drawn.

`app/` is the program around it: HTTP clients, SQLite storage, the agents'
prompts, the asynchronous run loop and the terminal drawing.
