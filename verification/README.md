# redstrap

Red Strap is a Roblox bootstrapper: it installs and updates Roblox from the
deploy mirrors, applies fast flags, mods and client settings, launches the
player or Studio, and follows a running client to drive Discord rich
presence, auto-rejoin and playtime tracking.

## Layout

- `src/` is the library, verified with Verus. Every public function states
  its result in its contract; the laws of the library (flag undo/redo, the
  resume rule of downloads, the watcher's rejoin limit, version ordering,
  and others) are public proof functions next to the code they speak of.
  Calls into other crates (MD5, JSON, XML, PNG codecs) sit behind small
  trusted wrappers whose contracts name what the call returns.
- `tests/` exercises the library on concrete values.
- `app/` is the command-line program around the library: argument parsing,
  files, the network, processes and the Discord socket. Every decision it
  acts on is taken by a library function.

Main modules: `cli` (which flow a command line selects), `pipeline`
(install planning, download checks, customization), `session` (the
watcher's state machine), `fastflags`/`flagmodel` (the flag table and its
model), `gbs` (Roblox's settings XML), `roblox` (log and deeplink parsing),
`paths`, `deployment`, `updater`, `shortcut`/`shortcuts`, `mods`, `tail`.
