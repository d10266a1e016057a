# maity

The core of a meeting assistant that records the microphone and the system
audio, transcribes them (locally with a Moonshine speech model, or in the
cloud through Deepgram), detects running meeting applications, and
synchronises meetings with a cloud service. The library holds the rules of
these parts, each function with a contract proved by Verus.

## Layout

- `src/` — the verified library:
  - `text`, `num`: text and number primitives, text order as SQLite compares it.
  - `cleanup`: transcript cleanup (special tokens, repeated words and phrases).
  - `deepgram`, `proxy`, `finalize`: the streaming transcription client, its
    proxy credentials and the answers of the cloud service.
  - `recording`, `lifecycle`, `monitor`: the recording state machine, the
    decisions of starting a recording and the steps of stopping one, the
    level monitor.
  - `meeting`: meeting detection from the running processes, and the detector's decisions.
  - `notifications`, `oauth`: notifications and the sign-in callback server's routing.
  - `tokenizer`, `decoder`, `moonshine`, `engines`: the speech model's
    tokenizer and inference plan, its files and downloads, and the choice of
    transcription engine.
  - `logs`, `sync_queue`, `recording_log`: log files, the queue of cloud sync
    jobs and the log of recording events.
- `tests/` — tests of the library.
- `app/` — a command-line program around the library: it reads processes,
  files, the clock and the network, hands plain values to the library and
  prints what comes back. Floating-point audio processing lives here too.
