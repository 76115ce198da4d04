# apple_pmp

Verified logic of the Apple PMP v1 power-management drivers.

- `src/` — the Verus library: mailbox message format (`message`), the
  start-up handshake (`protocol`), the IOMMU initialisation plan
  (`init_map`), the shared-buffer layout (`shmem`), the bridge trait between
  the two drivers (`bridge`) and the report-entry driver's decisions
  (`report`).
- `tests/` — tests of the library on concrete values.
- `app/` — the kernel glue (probing, firmware-node reads, DMA memory, IOMMU
  calls, RTKit mailbox); it builds only inside a kernel tree.
