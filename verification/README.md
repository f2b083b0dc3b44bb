# local_image_db

Track which photos from an SD card are already on an external drive, and copy
the new ones into a `yyyy/mm/dd` folder structure.

The decisions are made by the library (`src/`), each with a proved contract: the catalog
of drives and images with its consistency rules, the two-pass duplicate check
(name and size, then content hash), destination paths and collision-free
names, the check report, the `hash` bookkeeping and its progress messages,
settings resolution, EXIF capture dates read from a file's bytes, the rows of
the catalog file, and the terminal interface's state, key handling and
screen text. Its contracts and laws are stated
over views of these types and proved.

`app/` is the program around it: argument parsing, the settings file,
reading and writing the SQLite catalog file, walking folders, reading file
contents, copying files and showing progress bars. The program's commands
do not open the terminal interface, so `app/` draws no screens; the
interface's decisions and text stand in the library.

## Layout

| Path | What it holds |
|---|---|
| `src/db.rs` | the catalog, its invariant, and the laws of its operations |
| `src/copy.rs` | classification of card files, splitting, recording copies |
| `src/scanner.rs` | image extensions, records of scanned files, destinations |
| `src/paths.rs` | path components, joining, collision resolution |
| `src/report.rs` | the lines of the check report (table, JSON, paths) |
| `src/hasher.rs` | the `hash` command's targets, tallies and messages |
| `src/dates.rs`, `src/hashing.rs` | capture dates (EXIF), timestamps, BLAKE3 hex digests |
| `src/rows.rs` | the catalog file's rows and their date and time text |
| `src/tui.rs`, `src/editing.rs`, `src/screens.rs` | terminal interface: state, keys, text-field editing, screen text |
| `app/` | `main`, settings, SQLite persistence, file I/O |
| `tests/` | tests of the library |
