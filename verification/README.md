# argvus-storage

A Waybar module for removable storage on top of UDisks2: a JSON line for the
bar, a launcher menu, a native popup menu and one-shot device actions.

- `src/` is the verified library: the device model built from UDisks2
  objects, configuration merging and comment stripping, the bar output, the
  menus, command-line reading, and the action and watch state machines, each
  with its contract; `src/laws.rs` states and proves properties that span
  several functions.
- `app/` is the program around it: the D-Bus client, processes, files, the
  clipboard, the GTK popup and the byte formatter (floating point).
- `tests/` runs the library on concrete values.
