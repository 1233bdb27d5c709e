# memfaultd

The decisions and parsers of the Memfault device daemon, verified with Verus.

- `src/` is the verified library:
  - `mar/`: the MAR staging area (which entries to delete when it is full or
    old, the order in which entries are read, how they are grouped into
    MAR files for upload, which entries are uploaded under a sampling
    configuration), the chunk framing of exports (header, CRC, wrapper), the
    choice of export format and the answers of the export endpoint;
  - `metrics/`: metric keys and session names, the metrics that reports
    capture and the ongoing session reports, the crash-free interval
    tracker, the battery readings and supplies, the HTTP routes of the
    metric endpoints, and the parsers and decisions of the system metric
    collectors (`/proc/stat`, `/proc/<pid>/stat`, `/proc/meminfo`,
    `/proc/diskstats`, `/proc/net/*`, `/proc/vmstat`, `/proc/buddyinfo`,
    `/proc/mounts`, `/sys/class/*`), including which collectors a
    configuration turns on;
  - `memfaultd.rs`: the decisions of the main loop (configuration refresh,
    upload, continuation, outcome);
  - `parse.rs` and `text.rs`: the character-level pieces the parsers are made
    of (runs, decimal numbers, the text of floating-point numbers), each with
    a specification of what it reads.
- `app/` does the work around it: reading the files, deleting MAR entries,
  answering HTTP requests, running the main loop, and the metric readings and
  their aggregation, whose values are floating-point numbers.
- `tests/` runs the library on concrete inputs.
