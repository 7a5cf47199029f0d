# kiro_web_search

The web-search side of an Anthropic-to-Kiro gateway, verified with Verus.

- `src/json.rs`: the library's JSON documents (`Json`), their model
  (`JsonValue`), reading and assigning along key paths, with the laws that a
  path reads back what was assigned to it and that other paths are untouched.
- `src/models/anthropic.rs`: the Anthropic message, tool, response and
  streaming models.
- `src/text.rs`: decimal notation of integers.
- `src/web_search.rs`: the Exa client's state, the body of a search request,
  and the text that search results are fed back to the model as.
- `src/web_search_loop.rs`: detection of the server-side `web_search` tool, the
  follow-up Kiro payload, server tool ids, and the agentic loop as a state
  machine whose steps are proved against a model, with its invariant (token
  totals, pairing of tool uses and results, the iteration limit).
- `app/`: serde forms of the models, conversion to and from `serde_json`, the
  Exa HTTP call and the async driver of the loop.
