# winops

Tools that prepare a Windows machine for live production: sign out of Discord and Google,
empty the Downloads folder, switch to the high-performance power plan, make networks private,
turn off notifications, visual effects, sticky keys, OneDrive sync and Windows Update
downloads, and tune network adapters, vMix and NVIDIA drivers.

- `src/` is the library, verified with Verus. It holds the decisions and data of every
  command: which registry values are written and how their bytes are encoded and read back,
  which processes are ended and in which order, the power settings, the adapter lists and
  DHCP steps, the NVIDIA driver structures, and every error text. Each public function has a
  contract; the proof functions state the laws that relate several of them.
- `tests/` runs the library on concrete values.
- `app/` is the Windows side: it calls the Windows API, hands the library plain values
  (statuses, snapshots, adapter lists) and carries out what the library returns.
