# tock_drivers

Device drivers for an embedded kernel, verified with Verus:

- the analog to digital converter of the SAM4L (`src/adc*.rs`, `src/math.rs`),
- a FAT filesystem driver: system calls (`src/driver*.rs`), the controller
  (`src/fatfs.rs`, `src/handles.rs`), reading and writing of files
  (`src/transfer.rs`), file names (`src/filename.rs`) and blocks
  (`src/data_structures.rs`),
- the protocol data of SD cards (`src/sdmmc_proto.rs`).

The drivers decide, and do no input or output. An operation that needs the
hardware, the File Allocation Table or a process returns what it needs, and
goes on in a method that takes the outcome as an argument. `app/` performs what
the drivers decide: it holds the memory mapped registers, the block device and
the callbacks.

`law_...` functions state what holds across several operations, for example
that bytes written to a file are read back, that no directory is open twice,
and that the buffers given to the converter come back.
