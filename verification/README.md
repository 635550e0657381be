# ricercar

A bit-perfect music player for Linux whose decisions are verified with Verus.

`src/` is the library. It holds the rules of the player, each with a contract:

| module | what it decides |
|---|---|
| `audio` | sample formats and containers, devices, decoding steps, HTTP bodies, the engine's states |
| `library` | tags, scans, album identity, playlists, search, covers |
| `controller` | the queue, shuffle and repeat, gapless succession, the session, counted plays |
| `online` | lyrics, scrobbling, cover art, internet radio: requests and replies |
| `daemon`, `cli`, `mpris` | arguments, start-up, the scrobbler, the command line client, the session bus |
| `ui` | what the pages, rows and labels of a window show, and what actions do |
| `config`, `paths`, `uri`, `text`, `order` | settings and the vocabulary that the rest is written in |

The library does no input or output. Where the player has to act, a function
says what to do next and another takes what came of it, so the engine and the
controller are state machines. Numbers that are fractions (gains, peaks) pass
through as bit patterns.

What the library promises as a whole stands in public proof functions next to
the functions that they speak of, for instance `audio::laws` and
`controller::laws`.

`app/` is the program around the library: files, the network, threads, SQLite,
ALSA, the session bus. It has no window; `ui` is there for one.

`tests/` runs the library on concrete values.
