# exa

The decision-making core of `exa`, a replacement for `ls`, written in Verus
with its behaviour stated in contracts and proved.

- `src/options/` parses the command line (`parser`) and deduces the options
  from it and from the environment (`mod`, `view`, `filter`, `dir_action`),
  with the messages for everything that can go wrong (`message`).
- `src/fs/` holds the filter and the sort: which files are listed, and in
  what order (`filter`, `order`, `sorting`); what a file's metadata says
  (`file`, `fields`); and the Git statuses and `.gitignore` patterns that
  apply to a path (`git`, `ignore`, with paths as lists of components in
  `path`).
- `src/format.rs` writes file sizes with metric or binary prefixes, modelling
  the floating-point arithmetic exactly with integers.
- `src/output/grid.rs` lays file names out in a grid that fits the console.
- `src/file.rs`, `src/filetype.rs` and `src/info/` tell kinds of file apart
  by name; `src/colours.rs` and `src/column.rs` paint and pad text.
- `src/config.rs` reads extra options from a configuration text.
- `app/main.rs` is the program: it reads the arguments, the environment and
  the directories, and prints what the library decides.

The tests under `tests/` run the library on concrete values.

Sorting by name uses the `natord` crate's natural order, which is not
documented to be a total order. So the sort promises the asked-for order
only for files on which that order is consistent (`consistent_on`); sizes,
inodes and times always are. Files always come out as a rearrangement of
the ones given.
