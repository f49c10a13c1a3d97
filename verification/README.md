# zonky

A local LLM workspace: hardware detection, a model cache fed from the
HuggingFace Hub, model loading with a VRAM budget, an OpenAI-compatible HTTP
API, a command-line front end and a terminal UI.

## Layout

- `src/` — the library, written in Verus and verified. The program's rules
  and decisions live here with their contracts:
  - `gpu`, `setup`: device detection from what the host reports (sysfs,
    `/proc/meminfo`, `lspci`, ...) and the GPU compute setup check;
  - `cache`, `hub`, `config`: the model registry, Hub URLs and file lists,
    tokenizer sources, configuration defaults and paths;
  - `inference`: prompts, output clean-up, GGUF checks and metadata repair,
    when the token loop stops, responses and streamed chunks;
  - `manager`: the table of loaded models, device and backend selection, the
    VRAM budget, LRU eviction, and the state of the backend-by-backend
    loading walk (which backend is tried next, what a failure records);
  - `server`, `desktop`, `cli`, `tui`: what the API, the desktop shell, the
    command line and the terminal UI answer and how they react to input;
  - `text`: the string toolkit the rest is written with.
- `app/` — the `zonky` program around the library: I/O, HTTP (axum, reqwest),
  tensors (candle), terminal drawing (ratatui), serialisation (serde). The
  loading walk itself runs there: it awaits each backend's load and stops at
  the first that succeeds, handing each outcome back to the library.
- Backends: the candle backend is the one built. The optional llama.cpp
  backend is not included: its crate compiles llama.cpp from C++ sources.
- `tests/` — tests of the library's public functions.
