# voiceflow

A push-to-talk dictation tool: a global shortcut starts a microphone
recording, a local speech engine (whisper.cpp) transcribes it, an optional
chat-completion service corrects the grammar, and the text is typed into the
focused window or put on the clipboard.

- `src/` is the verified library (Verus): settings and their defaults,
  transcript normalisation, the speech engine's arguments, the model
  catalogue (file names, download addresses, directory listings, which copy
  of a model is used), the grammar clean-up request and the reading of its
  answer, the typing plan, the recording state machine and the tray menu.
- `app/` is the desktop program around it: windows, tray, shortcuts, audio
  capture, files, HTTP and the keyboard.
- `tests/` runs the library on concrete values.
