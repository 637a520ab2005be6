# vvrd

The logic of a full-screen PDF and EPUB reader for terminals, verified with Verus.

`src/` is the library. Each module states in its contracts what it computes:

- `app` – the reader's state: pages, scrolling, zoom, search results
- `geometry`, `terminal` – the pane and what is drawn in it
- `compositor`, `picture`, `rounding` – turning a rendered page into a frame
- `renderer`, `document`, `error` – what is asked of a document and read out of it
- `cache`, `queue`, `render_loop`, `heartbeat` – the renderer's decisions
- `presenter`, `vivid_thread` – the display and what is shown on it
- `state`, `export` – the names of files
- `text` – the short texts that all of these build

`app/` surrounds the library with what reaches outside: MuPDF, threads and channels,
files, the terminal, and the Vivid session.
