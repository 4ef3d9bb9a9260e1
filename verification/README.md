# xiaoai_llm

A voice assistant that turns a XiaoAi speaker (小爱音箱) into a player for your own
music library, with NetEase Cloud Music behind it. Its logic is verified with
Verus; the program around it is ordinary Rust.

- `src/` is the library: every rule, grammar, state machine and message format,
  with its contract and proof.
- `app/` is the program: HTTP, files, the terminal, the tool server and the loop.
  It performs what the library decides and hands back what came of it.
- `tests/` runs the library on concrete values.

## The library

| Module | What it decides |
| --- | --- |
| `gate` | whether an utterance is worth a model call |
| `speaker` | what is polled, said and played on the speaker, and when |
| `tools` | the capabilities the model may invoke, and how a request for music runs |
| `brain` | the loop over utterances and each turn of it: messages, tool calls, history; the tool registry |
| `music`, `source` | which file or song a request means, and what the speaker is handed |
| `netease` | the encrypted requests to NetEase and what its replies mean |
| `xiaoai`, `mi_api` | logging in to Xiaomi, operations, history, redaction of secrets |
| `config`, `startup` | the deployment, and whether it can start |
| `command`, `agent`, `polling_agent`, `music_backend` | the assistants and the server that work without a model |
| `text`, `decimal`, `json`, `percent`, `pattern`, `digest`, `random` | text, numbers and what other crates compute |

What other crates compute stands behind small trusted functions whose contracts are
written next to them; everything else is proved.
