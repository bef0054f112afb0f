# usb_station

The verified core of a USB flashing station: a service that writes disk
images to removable drives, one at a time or in batches.

- `src/` is the library, verified with Verus:
  - `service/flash.rs`: the table of flash jobs and the decisions taken
    while a job runs (claiming, cancelling, verifying, finishing), and the
    reading of `dd`'s progress lines;
  - `service/batch.rs`: batches of jobs in clone, sequential, smart-assign
    and manual-queue modes, and their lifecycle (cancelling a batch
    cancels its unfinished jobs); the messages of refused requests;
  - `service/assign.rs`: pairing images with devices by size;
  - `service/checksum.rs`: the SHA-256 of a file read in chunks, up to a
    byte limit, with which a written device is checked;
  - `service/iso.rs`, `service/usb.rs`: images (system detection, digests)
    and devices (`/proc/mounts`, kernel files, system disks);
  - `config.rs`: settings, defaults and environment overrides;
  - `text.rs`: the character-level parsing these rest on;
  - `infra/`: the clock, random identifiers, regular expressions and
    SHA-256, called through the crates that provide them.
- `app/` is the HTTP server around it: axum routes, the worker tasks that
  run `dd` or `bmaptool`, file and device I/O.
- `tests/` runs the library on concrete values.
