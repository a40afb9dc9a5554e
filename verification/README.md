# me3_attach

The decisions of a mod launcher, and of the mod host that it loads into a game, as a verified
library.

- `src/launcher/`: starting a game, attaching to it, having it load a DLL, relaying its messages.
- `src/mod_host/`: which properties of the game are overridden, when, and by whom.
- `src/script.rs`, `src/text.rs`: what both share.
- `app/`: the drivers that carry the decisions out. What talks to Windows is compiled there only.
- `tests/`: the library at work.

Whatever touches the system is a step that the library names and a driver performs. The driver
replies with what came of it, and the library decides what follows. Each module states in its
contracts what follows each reply, and proves in its laws what holds of every run.

One fact is taken on trust: the order in which `rdvec::Vec::iter` walks a list (`runtime.rs`).
