# TackleCast core

The verified core of TackleCast, a low-latency capture-card viewer with audio
passthrough, written in Verus.

- `src/` — the library, every function with a contract proved by Verus:
  - `audio/common.rs`: audio status and diagnostics, the sample ring buffer
    between the capture and playback callbacks, volume/mute, channel routing;
  - `audio/linux.rs`: which audio devices to try, in which order;
  - `audio/mod.rs`: the status reported when the pipeline fails;
  - `capture.rs`: frame containers, plane extraction, the order in which
    capture settings are tried, decode-loop bookkeeping, V4L2 labels;
  - `devices.rs`: keyword matching of a video device to its audio input,
    device lists;
  - `settings.rs`: frame-rate modes, resolution presets, capture configuration;
  - `ui.rs`: menu state and the texts shown by the menu and overlay;
  - `dx12_interop.rs`, `gpu_monitor.rs`, `logger.rs`: buffer layout, GPU
    readings text, log-file rules;
  - `text.rs`: the character-level string operations the above are built on.
- `tests/` — tests run against the compiled library.
- `app/` — the I/O around it: cpal streams, the ffmpeg capture thread, egui
  drawing, settings and log files. Samples cross into the library as `f32`
  bit patterns; the floating-point arithmetic on them stays in `app/`.
