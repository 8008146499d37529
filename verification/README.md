# echotype

The verified core of the EchoType dictation overlay, written in Verus.

- `src/` is the library. Its functions are verified against their
  contracts, except the trusted wrappers around outside calls: hotkey parsing (`shortcut`), language codes (`language`), audio
  naming and decoding (`audio`), settings (`settings`), the transcription
  policy and the cloud request (`transcribe`), the local worker's line
  protocol and restart policy (`worker`), keyboard events for typing a
  transcript and the clipboard fallback (`keyboard`), the shell's small decisions (`desktop`) and the
  web view permission reset (`permissions`). Calls into `base64`,
  `serde_json` (gathered in `json`) and two string operations of the standard library stand behind
  trusted wrappers whose contracts name their results.
- `app/` is the Tauri shell around it: windows, tray, global hotkey,
  clipboard, HTTP, files and the worker process.
- `tests/` runs the library on concrete inputs.
