# make-movie

`mm` renders movies from a declarative project file (`mm.toml`) and manages
the plugins a project uses. The library in `src/` holds the parts whose
behaviour is specified and proved with Verus; `app/` is the `mm` program
around it.

## Layout

- `src/project.rs`: the project model. Decimal quantities are held as the
  bit patterns of their IEEE-754 values.
- `src/validate.rs`: the rules a project must meet, and their messages.
- `src/ids.rs`, `src/import.rs`: fresh identifiers and importing a media file
  as an asset and a layer.
- `src/wav.rs`: reading WAV containers and their samples, writing 16-bit PCM.
- `src/plugin.rs`, `src/lock.rs`: plugin configurations, manifests, the lock
  file, checksums and the plugin manager's decisions.
- `src/runtime.rs`: loading WebAssembly plugins and driving their lifecycle.
- `src/sdk.rs`: the plugin SDK's metadata and JSON.
- `src/cli.rs`, `src/help.rs`: languages, help pages, error reports and the
  `plugin` subcommands' decisions.
- `src/render.rs`, `src/subtitle.rs`, `src/tts.rs`: the renderer's choices
  that do not draw (ffmpeg arguments and filter graph, colors, cache names,
  GPU readback layout), subtitle cues, and text-to-speech requests.
- `src/text.rs`, `src/paths.rs`: text and path helpers.
- `app/`: the `mm` command line, file and network work, and drawing.
- `tests/`: tests of the library.
