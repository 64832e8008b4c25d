# comically

A manga/comic optimizer for e-readers: it reads `.cbz`/`.zip`/`.cbr`/`.rar`
archives, turns each page into device-sized grayscale pages (gamma,
autocontrast, brightness, white-margin cropping, spread splitting and
rotation, resizing) and packages them as CBZ, EPUB or MOBI (through
KindleGen).

The library under `src/` is written in Verus and carries the contracts of its
functions; `app/` is the command-line program around it.

## Layout

- `src/settings.rs` – conversion settings and how the settings screen changes them
- `src/gray.rs` – grayscale images: pixels, crop, quarter turns, halves
- `src/tone.rs` – gamma lookup, autocontrast, brightness
- `src/autocrop.rs` – white-margin detection with noise rejection
- `src/pages.rs` – which device pages a scan becomes; resizing onto the screen
- `src/codec.rs` – decoding and JPEG/PNG encoding
- `src/archive.rs` – which archive entries are pages, which files are comics
- `src/comic.rs` – comics, output names, page names and their order
- `src/package.rs`, `src/cbz.rs`, `src/epub.rs` – the zip container, CBZ and EPUB
- `src/mobi.rs` – judging a KindleGen run
- `src/pipeline.rs` – packaging decisions and the KindleGen run bookkeeping
- `src/progress.rs`, `src/screen.rs`, `src/config_screen.rs`, `src/labels.rs` –
  the state and texts behind the progress, error and settings screens
- `src/text.rs` – character-level string helpers

## Usage

```bash
comically [directory] [--output path] [--format mobi|epub|cbz] ...
```

The directory defaults to the current one; output goes to
`{directory}/comically/`. Settings are remembered in
`~/.config/comically/config.json`.
