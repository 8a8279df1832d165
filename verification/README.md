# Hops

Hops receives every link click on a Windows machine and routes it to the right
browser: by the user's rules, to a default browser, or through a small picker
window.

- `src/` is the verified library (Verus): the configuration model and its
  normalisation and checks, browser recognition and detection, routing, the
  picker's rows and order, the Ctrl+Shift shortcut latch, and the registry
  values that registration writes. Every public function carries a contract;
  the laws of the library are public proof functions beside the functions
  they relate.
- `src/trusted.rs` holds the calls into `std`, `url`, `globset` and `regex`
  whose contracts are believed rather than proved.
- `app/` is the Tauri program around the library: windows, tray, commands,
  the configuration file, the registry and the processes of the machine.
- `tests/` runs the library on concrete cases.
