# avahi_tui

A terminal browser and launcher for DNS-SD services, with its core proved
correct by Verus.

- `src/` is the verified library: the command-file reader
  (`command_file`), command layering and matching (`plumber`), service
  records (`service`), type and fuzzy text filters (`filter`), turning
  browse results into records (`discovery`), the command-line settings
  read with clap (`cli`, `config`), the text the screen shows (`ui`), and the laws that
  hold across these (`laws`). `table` and `text` hold the ordered tables and
  character-sequence helpers the rest is built on.
- `app/` is the program around it: handing the process arguments to
  `cli::parse_args`, reading command directories from disk, the discovery
  worker, and drawing with ratatui.
- `tests/` runs the library on concrete inputs.

The program browses with sample records: the dns-sd-native release it builds
against can register services but has no browser. Choosing an action shows its
name in the status line; running the command is not part of this build.

The command line is read with clap through the library (`cli::parse_args`),
and regular expressions are the `regex` crate's; the library states what it
relies on of them in the trusted wrappers at the top of `src/plumber.rs`.
