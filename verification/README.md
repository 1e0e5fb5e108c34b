# resources

The data-gathering core of a system resource monitor, written in Verus: what
`resources-processes` reads from procfs and DRM fdinfo files about every
process, the caches it keeps between scans, PCI slot identifiers, GPU and NPU
counters, the decisions of the small privileged helpers, and the texts and
filters that the process and app lists show.

- `src/` is the verified library. Every function there is verified against
  its contract; where a result rests on the clock or the locale, the contract
  states what holds of every outcome and what the library does with it. The
  laws the library keeps (round trips, the algebra of counter merging,
  what a cache gives back after a write, what a scan reads) are proof
  functions next to the code they speak of. Calls into `regex`, `gettext-rs`,
  `nparse`, `serde_json` and parts of std go through small trusted wrappers whose contracts
  say what those crates do.
- `tests/` runs the library on concrete inputs.
- `app/` holds the programs: `resources-processes` (reading `/proc`, NVML,
  serialising with `rmp-serde` or `ron`), `resources-kill`,
  `resources-adjust` and `resources-daemon` (D-Bus), chosen by the name they
  are started under. It reads and writes; the library decides.
