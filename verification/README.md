# oxidewm

A tiling window manager for X11 whose decisions are verified with Verus.

- `src/` is the verified library. The window manager, its screens and
  workspaces, the layouts, the key bindings, the configuration and the command
  parsers live there. Every change to the X server comes out of the library as
  a list of `XAction` requests, and every contract says which requests, in which
  order.
- `app/` is the program around it. It connects to the X server, reads the
  configuration file, logs, serves the D-Bus interface and carries out the
  requests. Started with arguments, it is the command line client
  (`oxidewm <command> [argument]`, or `oxidewm state`).
- `tests/` runs the library on concrete values.
