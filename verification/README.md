# makereadme

A command-line agent that writes a `README.md` for a software project with the
help of a language model (Gemini, Groq, LLMAPI, Ollama or a local GGUF model run
through llama.cpp). The model answers in tags — `<THINK>`, `<READ>`, `<WRITE>`,
`<EXIT>` — and the agent reads files, writes the README and reports back until
the model asks to exit.

## Layout

- `src/` — the library, verified with Verus:
  - `actions` — the tagged-action parser (at most three non-THINK actions per reply);
  - `executor` — carrying out one reply's actions as a state machine whose file
    reads and writes are performed by the caller, and the feedback text;
  - `tree` — the ordered, depth- and size-limited directory listing;
  - `memory`, `optlib`, `prompt` — the agent's bounded memory and prompts;
  - `agent`, `session` — the prompts between turns and the agent loop's decisions;
  - `settings`, `local`, `service`, `debug`, `errors` — settings and `.env`
    handling, local-model parameters, service replies, log layout, errors;
  - `laws` — properties of the whole, proved over the specifications.
- `tests/` — tests of the library on concrete values.
- `app/` — the program: terminal dialogue, file system, HTTP and llama.cpp.
