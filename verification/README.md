# deck_toolbox

The verified core of Deck Toolbox, a desktop helper for Steam Deck maintenance.

`src/` is checked by Verus:

- `base64` – the encoding of the saved sudo password, with the proof that a
  saved password reads back unchanged.
- `text` – trimming, lines, words and number parsing on characters, each
  against a statement of what the standard library does.
- `disk` – reading `df` output, the internal storage, and the search for the
  SD card under `/run/media`.
- `scripts` – which script each tool runs, command lines and standard input for
  bash, sudo, `chpasswd`/`passwd`, the cached sudo password, remote commands for
  the Deck, and the Trash report.
- `paths`, `backups`, `cue`, `transport` – file locations, Steam backup cleanup,
  `.cue` sheets, and the Deck connection state.

`app/` is the Tauri command layer: dialogs, processes, files and SSH, calling
the library for every decision.
