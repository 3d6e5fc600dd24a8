# moss

The core of a mod manager for the game Starsector, written in Verus: every
function under `src/` carries a contract that Verus proves.

- `src/` is the library: the game's JVM parameter file (reading, writing and
  the laws that the sizes and the verification setting written are read back), game and mod versions and their
  order, the Java runtime swapper's decisions, the mod list's filters,
  search and sorting, what each mod list message does to the list's state
  (and that every finished installation is followed by a rescan), installation
  decisions and tallies, the mod repository
  listing, the navigation tree, a fixed-capacity set, and the text helpers
  they share. Calls into `regex`, `sublime_fuzzy`, `infer`, `deunicode`,
  `zip` and `classfile-parser` go through small trusted wrappers whose
  contracts are stated next to them.
- `app/` is a command-line front end: it reads and writes the files and hands
  their contents to the library.
- `tests/` exercises the library on concrete values.
