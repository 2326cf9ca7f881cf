# orbitalos

The shared logic of the OrbitalOS desktop suite — the `orbital-core`
library and the non-UI logic of the Drift (notes) and Blink (snapshots)
apps — written in Verus, with each function's behaviour stated in its
contract and proved.

## Layout

- `src/` — the verified library
  - `app`, `paths`: application identities and the XDG directory layout
  - `error`: the core's errors and their messages
  - `note`, `snapshot`, `records`: notes and snapshots, tag normalisation,
    stored rows, migration selection
  - `text`, `config`: trimming and searching text; the `key=value` settings
    format
  - `blink_settings`, `drift_settings`: each app's settings file
  - `layout`, `canvas`, `editor`, `rich_text`, `selection`, `history`: the
    Drift canvas geometry, page layouts, list editing, inline formatting,
    sidebar selection and undo/redo
  - `library`, `capture`: Blink's tag lists, file names, MIME types, list
    subtitles and image snapshots, and the decisions of screenshot capture
    and of waiting for a captured file
- `tests/` — tests of the library
- `app/` — the I/O around it: environment, filesystem, the SQLite database,
  JSON, the screenshot tools, image import and the clock
