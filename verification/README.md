# unidrive-mount

A Linux FUSE co-daemon for the `unidrive` ecosystem. It serves the file system
calls of a mount, and talks to the JVM sync daemon over a Unix domain socket.

## Layout

- `src/` is the library, verified with Verus: the decisions of the co-daemon.
  - `path_map`: the numbering of paths by inode; inodes are never recycled.
  - `json`, `ipc`: the line protocol, its requests, replies and errors.
  - `fuse_fs`: what each FUSE operation asks of the daemon, what it does to the
    state of the mount, and what it answers. `fuse_fs::laws` states what holds
    of the operations together, `fuse_fs::history` what holds however long a
    mount lasts.
  - `reconnect`: when to connect again, and which requests may be sent again.
  - `cache_scanner`: crash recovery. `cache_scanner::tree` states what a walk
    finds in a whole tree of directories.
  - `cli`, `kernel_floor`, `logging`, `profile_lock`, `run`: starting up and
    shutting down.
  - `text`, `unix_path`: what the others need of texts and local paths.
- `app/` is the program around it: sockets, files, signals, the FUSE session.
- `tests/` runs the library against canned replies of the daemon.

An operation that talks to the daemon or to the disk is cut at each such point.
Its first part hands out what is to be done; the part that follows takes what
came of it. What the library believes of `serde_json` and of std without a proof
is marked `external_body` or `assume_specification`, with a comment that says
what it is.
