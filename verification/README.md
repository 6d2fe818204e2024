# osu_file_parser

Reading and writing osu! beatmap files (`.osu`) and storyboard files (`.osb`),
verified with Verus.

Every reader in `src/` states, over a mathematical model of the text, what it
gives for each input: the value read, or the error and the line it was found
on. Every writer states the text it produces. The laws then relate the two:
reading what was written gives the value back.

On a few inputs the grammar of the format reports its input as incomplete
and reading panics (an empty variable line, a command whose continuing pairs
break off at a second value, and the like). The readers that take a `&str`
leave those inputs out by their `requires`; each has a `try_` form (such as
`OsuFile::try_from_str`) that returns `None` exactly on them.

The round-trip laws hold under conditions that their `requires` state: for
instance a decimal must read back from its own text, a time written by
versions 3 and 4 (which write times 24 ms early) must leave room for that
shift, a hitobject's hitsample must be one its version writes, and a timing
point's sample index of 0 reads back as the default hitsounds.

## Layout

- `src/text.rs`, `src/helper.rs`, `src/section.rs`, `src/sections.rs`: text
  models (lines, splitting, trimming, numbers) and the section structure of a
  file.
- `src/general/`, `src/editor.rs`, `src/metadata.rs`, `src/difficulty.rs`,
  `src/colours.rs`, `src/timingpoints.rs`, `src/hitobjects/`, `src/events/`:
  the sections of a beatmap, each with its reader and writer. Timing points
  also convert between beat lengths, beats per minute and slider velocity,
  with `rust_decimal`'s arithmetic.
- `src/osu_file.rs`, `src/osb.rs`: whole `.osu` and `.osb` files.
- `src/compare.rs`: comparing two file texts while ignoring what does not
  matter.
- `src/decimal.rs`: decimal numbers, read, written, divided and multiplied
  by `rust_decimal`, and compared by value.
- `src/laws.rs`, `src/section_laws.rs`, `src/slider_laws.rs`,
  `src/event_laws.rs`, `src/command_laws.rs`, `src/nested_laws.rs`,
  `src/file_laws.rs`, `src/osb_laws.rs`: the round-trip laws, from single
  fields up to whole files.
- `tests/`: tests on concrete values.
- `app/lib.rs`: a readable assertion for test code that two file texts are
  equal once trimmed.
