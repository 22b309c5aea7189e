# hikaru

The decision logic of the Hikaru OpenStudio / OpenLive audio workstation as
a library with machine-checked contracts.

## Layout

- `src/` — the verified library.
  - `clip`, `matrix`: sequencer clips and the track × scene launch grid:
    where a voice reads its source, when it falls silent, how finished
    voices release their pads.
  - `transport`: the sample clock and the global loop wrap.
  - `engine`: the engine's clip voices — OpenStudio windows, OpenLive
    voices on the linear clock with clip loops and loop-wrap crossfades,
    pad and scene launching, clip loading and the end-of-block clock step.
  - `session`: the OpenLive session view (pads, tracks, scenes, clipboard,
    pad and scene launching, polling finished voices).
  - `mixer`, `fx_chain`: mixer strips (their two-way sync with the session
    tracks, arrow-key reordering) and each track's effect chain.
  - `transport_controls`: what the transport buttons do and request.
  - `playlist`, `loop_drag`, `timeline`: the arrangement — grid snapping,
    the time selection and its ruler drags, and clip editing on tracks.
  - `preview`: the browser preview's read cursor.
  - `explorer`, `names`, `settings`, `plugin`, `quantizer`: file checks,
    navigation history, labels, modes and settings, plugin names.
- `tests/` — tests of the library.
- `app/` — the application around it: floating-point signal paths (mixing,
  DSP, tempo conversions), WAV decoding, the audio driver, plugin loading,
  and the command thread.
