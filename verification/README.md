# tyMNL

A server for TRMNL e-ink panels. Pages are written in typst, shown in turn by
playlists, and playlists are chosen by a schedule.

The library under `src/` holds the rules of the server and is verified with
Verus. The program under `app/` reads files, runs commands, talks to devices and
lays out pages; it calls the library for every decision.

| module | what it says |
| --- | --- |
| `text`, `table`, `clock` | numbers as text, trimming, a table of named values, local times and dates |
| `config`, `loading`, `query` | devices, playlists, screens and schedules; the sources of screens; the values of inputs and their hash |
| `bytes`, `lookups`, `variations`, `outlines`, `sound` | which font files can be read without going astray |
| `fonts`, `diagnostic`, `render` | faces of font files; complaints about a page; dithering, packing and encoding of images |
| `device`, `reply`, `state`, `handlers` | what a page is told about its device; URLs and replies; what is remembered; what each request does |
| `command` | what the commands of the program decide |
| `laws` | what holds of the server as a whole |

Where the library calls another crate, a function marked
`#[verifier::external_body]` makes the call and says in its contract what is
relied on.

The program looks for its templates (`templates/*.typ`) and bundled fonts
(`fonts/*.ttf`) in a directory `assets` beside it.
