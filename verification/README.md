# portkill

A library for freeing TCP ports: which processes listen on the ports that a user
names, how they are shown, and how they are ended. What it does is stated in
contracts and proved with Verus.

- `cli` reads port arguments (`3000`, `3000-3010`) into an ascending list without
  repeats.
- `platform` reads what the systems tell: `/proc` on Linux, `lsof` and `netstat` on
  macOS, `netstat` on Windows. A port that is occupied by a process which may not be
  seen is never called free.
- `process` holds what is known of a process, and adds to it from a snapshot of the
  system.
- `kill` ends a process: `SIGTERM`, a grace period, `SIGKILL`, and a final look. Only
  a port that was seen to be free of the process counts as freed. A process that
  holds several ports gets each signal once; at its next port the attempt goes on
  where it stood.
- `render` writes the tables for people and the report in JSON.
- `app` is the course of a run. It is a state machine: it asks for one thing at a
  time (inspect, take a snapshot, show, confirm, signal, wait, exit) and goes on with
  the answer.

Everything in `src/` is verified, save for the calls into `colored`, `comfy_table`
and `serde_json` and two functions of the standard library. Each of these stands
behind an item whose comment says what is taken on trust. The functions whose names
begin with `law_` state what holds of the library as a whole.

`app/` is the program: it parses the command line, reads files, runs commands, sends
signals, and does what a run asks for.
