# fdf

A file finder whose core is verified with Verus: the byte-level reading of
directory records, the conversion of shell globs to regular expressions,
the size, time and type filters and their command-line parsers, the
matching decisions of a search, git ignore configuration, the formatting,
colouring and ordering of results, and the classification of filesystem
errors. Output to a terminal is coloured from the `LS_COLORS` table that
`compile_time_ls_colours` builds in (`--nocolour`, `NO_COLOUR` or
`NO_COLOR=true` turn it off).
The directory records it decodes and the error codes it classifies are
Linux's (`getdents64` and its `errno` values).

- `src/` is the verified library. Each module states its behaviour in
  `requires`/`ensures` over spec functions, with proof functions for the
  properties that span several functions.
- `tests/` exercises the library on concrete values.
- `app/` is the command-line program: argument parsing, directory reads,
  `stat` calls and printing, driving the library.
