# vllm-server

The request handling of the vLLM server frontends as a verified library. `src/` holds what decides:
which requests are taken, how they are converted for the engine, what is answered, how adapters are
registered on every rank, which paths adapters may come from, how KV caches are handed from prefill
to decode engines, and what a server reports of its load and its health. Every function states in
its contract what it returns, and Verus proves it.

| Module | What it is about |
| --- | --- |
| `text`, `names`, `paths` | texts, the order of names, paths of the file system |
| `json`, `struct_json`, `binary64` | JSON, protobuf structs, double-precision numbers by their bits |
| `protocol`, `events`, `request`, `state`, `status` | what the engines report and are asked for |
| `endpoints`, `openengine::endpoints` | where KV events are published and can be had |
| `admission`, `middleware` | work in flight, and draining |
| `lora`, `lora_path`, `routes` | adapters: the registry, their paths, their HTTP handlers |
| `openengine`, `engine_rpc`, `grpc`, `control` | the gRPC services |
| `chat` | errors of the chat frontend, images that an encoder has seen |
| `provenance` | which release of the OpenEngine schema a build uses |
| `foreign` | calls into other crates, with what is relied on of them |

`app/` is the ordinary Rust around it: sockets, files, git, locks, timeouts, HTTP bodies and the
types that are serialized. A function of the library that needs the machine takes what is known so
far and returns the next question or the decision; `app/` answers the questions.

`tests/` runs the library on concrete values.
