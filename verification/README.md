# kikitori

Local, real-time Japanese speech input for Wayland: an engine daemon
(sherpa-onnx, SenseVoice small, silero VAD) and clients that stream the
microphone to it and show or type the recognised text.

- `src/` is the verified library (Verus): the frame protocol and its
  JSON payloads, endpoint resolution, text post-processing and the
  replacement dictionary, the VAD segment planner, the daemon's per-frame
  decisions, the clients' argument parsing and reply handling, the overlay
  box's content and size, and the daemon's command line.
- `tests/` exercises the library.
- `app/` holds the programs around it: sockets, threads, microphone
  capture (cpal), the recogniser and detector (sherpa-onnx), wav files
  (hound), the GUI (iced with layer-shell) and the floating-point audio
  measurements.
