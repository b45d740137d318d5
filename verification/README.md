# endfield_patch

A patch DLL for a Unity/IL2CPP game client, split in two:

- `src/` — the verified library (Verus): the URL redirection rule
  (`modules::http`), the telemetry host sinkhole (`modules::ccp_blocker`),
  C-string and UTF-16 string handling for the IL2CPP runtime (`il2cpp`),
  the module registry and hook holder (`modules`), and the address
  bookkeeping for the `Marshal.PtrToStringAnsi` routine (`marshal`).
  Laws about these rules are public proof functions next to them.
- `app/` — the DLL itself: `DllMain`, the IL2CPP API binding, hook
  installation through `ilhook`, and the hook callbacks that read the
  game's memory and hand plain values to the library.
- `tests/` — tests of the library on concrete values.
