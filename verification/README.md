# AccessibleScreenCapture

A screen-reader-first Windows tool for screenshots and screen recordings.
This crate is its logic, specified with `requires`/`ensures` contracts and
proved with Verus; `app/` is the Tauri application around it.

## Layout

- `src/` — the verified library, one module per concern:
  - `shortcuts` — shortcut actions, combination parsing, bindings, and the
    decision on a request to rebind (no two actions ever share a binding).
  - `capture_context`, `descriptor` — the description of the foreground
    window and the Capture Context Descriptor's announce-once state.
  - `audio` — pause removal from captured audio, packet handling, the
    ordered list of audio applications, WAV headers.
  - `video` — frame packing, the video clock's frame loop, encode outcome.
  - `recording` — the recording lifecycle (start, pause, resume, stop), its
    timing and what the final file is made of.
  - `recording_save`, `payload` — chunked save sessions and their size
    check, base64 payloads, edit and import results.
  - `mux` — the FFmpeg arguments of every mux (one audio file, or a
    recording with no, one or two audio sources, with their synchronizing
    filters) and the report of a muxing run; `app/` computes the
    floating-point durations and tempos and hands them over as text.
  - `confirmation` — the local Screenshot Confirmation's payload check and
    the reading of its streamed answer.
  - `output_settings`, `debug_log` — speech and notification settings, log
    lines (local timestamp, session id, sequence number) and the tray menu.
  - `text` — strings as character sequences: trimming, decimal numbers,
    truncation, and the std text functions the rest relies on.
- `tests/` — tests of the library on concrete values.
- `app/` — the Tauri commands, Win32/WASAPI/Windows Graphics Capture calls,
  FFmpeg runs, dialogs and files; it hands plain values to the library and
  acts on what it returns.
