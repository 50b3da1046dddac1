# Draft

Push-to-talk dictation: hold a hotkey, speak, release, and the transcript lands at
the cursor. This is its library of decisions, verified with Verus, with the ordinary
Rust around it.

- `src/` holds the decisions, each with its contract and its proof: the hotkeys
  (`activation`), the life of a dictation (`session`), the pill that shows it
  (`pill`), what is done to a transcript (`postprocess`), the providers
  (`transcribe`), transcribing a file (`transcription_run`), API keys (`secrets`),
  the settings window without its widgets (`settings_ui`), the tray and the update
  check. It never reads a clock, a file or the network: whoever calls it says what
  time it is and what was found.
- `tests/` runs it.
- `app/` is the rest: the screen, the network, the keyring, the window toolkit and
  floating point.

Laws that span several functions are public proof functions whose names begin with
`law_`. What is believed without proof is marked `external_body` or
`assume_specification`, and says above it what it claims of which outside function.

Sizes and alphas are counted in thousandths and shares of a transition in
billionths, because the library has no floating point.
