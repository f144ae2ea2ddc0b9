# ferox-ai

A shared interface for talking to LLM providers, with an adapter for providers
that speak the OpenAI chat completions API. The library is written in Verus:
the functions in `src/` carry contracts that Verus proves, except the few
marked `#[verifier::external_body]`, which make a call into std or reqwest and
whose contracts are trusted as stated in their doc comments.

- `src/models.rs`, `src/error.rs`, `src/gateway.rs`: the provider-neutral request,
  response, tool and error types, and the gateway that forwards provider results.
- `src/openai_compatible/`: the adapter's translation of requests and tools into
  the provider's format, of responses and model lists back, the mapping of HTTP
  failures to errors, the server-sent-events decoder and the assembly of streamed
  tool calls.
- `src/text.rs`: whitespace trimming as `str::trim` does it, with its proofs.
- `src/cli.rs`, `src/settings.rs`: the decisions of the chat session and the
  default settings.
- `app/`: the program around the library: HTTP, JSON and TOML, the event-stream
  loop, terminal I/O.
- `tests/`: tests of the library on concrete values.
