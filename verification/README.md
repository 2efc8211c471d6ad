# rustic_audio_tool

Voice recording, processing and playback with Opus compression, built
around a library verified with Verus.

* `src/` is the verified library:
  * `opus_encoder` – the Opus encoder settings and the codec configuration
    they stand for;
  * `ogg_opus` – the Ogg Opus stream layout: the `OpusHead` and `OpusTags`
    headers, the split of audio into 20 ms frames and the placement of
    every audio packet;
  * `pcm` – sample routing: stereo-to-mono, unsigned sample conversion,
    spreading a mono frame over the output channels, WAV playback frames;
  * `playback_flow` – the hand-off between the decoding thread and the
    audio output callback, and the first-error slots;
  * `voice_note` – clip naming, and the voice-note engine's decisions on
    starting, stopping and cancelling captures;
  * `activity` – the recorder's mutually exclusive operations and the
    names of the files a recording produces.
* `app/` holds what runs around it: audio devices (cpal), WAV files
  (hound), Ogg files (ogg), the Opus codec (opus-rs), the floating-point
  DSP chain (rustfft), threads, the Python module (pyo3) and the command
  line.
* `tests/` exercises the library.
