# WireBox engine

WireBox makes IK Multimedia's TONEX and AmpliTube 5 usable on Linux through
one shared Wine prefix. This crate is its engine, written in Verus.

The engine never touches the system itself. Every workflow (detecting Wine,
initializing the prefix, installing IK Product Manager, launching an
application, registering WineASIO, resetting the prefix, finding installed
applications) is a state machine: it hands out an `Op` (run a command, list
a directory, create a directory, ...), is resumed with the `Event` that
performing it produced, and either asks for the next operation or finishes
with its result. Each machine's `resume` is proved to follow a mathematical
transition function, and the laws of the library are proved over those
functions.

Layout:

- `src/text.rs`: ASCII case folding, substring tests, trimming, path joining.
- `src/paths.rs`: paths as the system has them (any bytes), held as text
  that stands for those bytes exactly, and shown as `Path::display` shows
  them.
- `src/process.rs`: operations, events, and locating programs on `$PATH`.
- `src/catalog.rs`, `src/config.rs`, `src/audio.rs`: the applications, the
  settings, and what is read from PipeWire.
- `src/search.rs`: the depth-first file search and its correctness law.
- `src/wine.rs`, `src/dependencies.rs`, `src/bootstrap.rs`,
  `src/library.rs`: the workflows.
- `src/presentation.rs`: what a front end shows for the engine's state.
- `src/world.rs`: models of the system (a fixed tree, a disk) that answer
  a workflow's operations, used to state what complete runs do: a search
  always ends with the first match, a complete installer cache is reused
  without downloading, a reset leaves an empty prefix.
- `app/`: the command-line program (`wirebox-cli`) that performs the
  operations, reads and writes the configuration file, and asks PipeWire
  for its devices.
