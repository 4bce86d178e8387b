# trusty_launcher

Verified core of the vendor Trusty VM launcher, its memshare service and the boot
control tool.

- `src/allocator.rs`: `GapAllocator`, a first-fit allocator of aligned sub-ranges of a
  region, with its model, its well-formedness invariant and the laws it obeys (the
  block handed out is the lowest free aligned block; freeing it undoes the allocation).
- `src/memshare.rs`: the free IPA areas per kind of shared buffer (`MemoryManager`), the
  mapping of a buffer into the VM and the release of everything a shared buffer holds.
  The VM and the trusted application are reached through the traits `MemShareVm` and
  `TaMemoryBufferContext`.
- `src/launcher.rs`, `src/boot_control.rs`: the decisions of the two programs.
- `app/`: the binder services, FFI calls, logging and command-line handling around the
  library.
