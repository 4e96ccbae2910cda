# tone_mark

A patch editor and patch library for the Boss Katana MkII amplifiers. The
library crate (`src/`) holds the editor's logic with Verus contracts and
proofs; `app/` is the window, the MIDI connection and the file access around
it.

## src/

- `sysex` – Roland data-set (DT1) messages and their checksum.
- `state` – target channels, the editor's blocks, snapshots.
- `katana` – the amplifier parameters and the order of a full resend.
- `edit` – knob, switch and type edits, each giving the write to send.
- `patch` – `.tsl` patch files: block addresses, hexadecimal payloads,
  the messages that load a patch, what the library shows of a file.
- `library`, `assignments` – tags, their colours, and which patch carries
  which tags; the metadata document.
- `config` – the settings document.
- `export` – the document into which the editor's state is exported.
- `tone` – the application state and its decisions (connection, status
  line, library listing and filters, snapshots).
- `theme` – palettes and packed accent colours.
- `json`, `paths`, `text` – the JSON model (parsed and printed by
  `serde_json`), path helpers and text helpers.

Laws that span functions are public proof functions named `lemma_*`.

## app/

`main`, the egui interface, MIDI through `midir`, folder and file dialogs
through `rfd`, and reading and writing the settings, metadata and patch
files. It hands the library plain values and sends what the library
returns.
