# eR Commander

A file manager with two panels: copying, moving, deleting, packing and extracting in the
background, bulk renaming, searching, checksums, bookmarks and updating itself.

`src/` is the library. It holds what the program decides and computes, as Verus functions with
contracts that are proved. It touches no disk, network or screen:

- work that alternates with the outside (an operation on files, extracting, packing, a walk
  through a directory, checksums, an update) is a state machine, which says what it needs next
  and takes in the reply;
- what a key, a click or a window asks for is a function from the state of the program to its
  next state and to a `Command`.

The modules, from the bottom up:

- `text`, `number`, `path`, `glob`: texts, numbers and sizes, paths, masks;
- `entry`, `sort`, `archive`, `panel`: rows, their order, archives as directories, a panel;
- `file_op`, `extract`, `tree`, `hash`, `search`, `rename`, `update`, `install`: the work itself;
- `state_file`, `state_laws`, `window_state`, `platform`, `bookmark`: what is kept between two
  runs, and the system;
- `jobs`, `app`, `ops`, `dialogs`, `frame`, `mouse`, `shortcuts`, `view`, `labels`: the program
  as a whole, its windows, mouse and keyboard, and the texts that it shows.

Letter cases, dates, digests, regular expressions and JSON come from std, `chrono`, `md-5`,
`sha2`, `regex` and `serde_json`. Each of those calls stands behind one small function whose
contract says what is relied on.

`app/` is the program around the library: reading and writing, threads, the network and drawing.
`tests/` runs the library on concrete values.
