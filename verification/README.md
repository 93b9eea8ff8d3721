# cloud

A cluster of cloud drives used as one file store: files are cut into blocks, each block
is cached on local disk and copied to several cloud accounts (Aliyun Drive, Baidu Netdisk,
China Mobile cloud, OneDrive, a local directory), and background tasks upload, clean,
reset and spread the copies.

`src/` is the library, verified with Verus: the file tree, the block arithmetic of writes
and reads, the WebDAV file cursor, the request and form building of each cloud, the
decisions of the storage facade and of the background tasks, and the records they keep.
Calls into outside crates (MD5, percent-encoding, JSON and XML conversion, the clock,
number parsing) stand behind small trusted wrappers whose contracts say what those crates
do.

`app/` holds what Verus does not take: the program's entry, settings from YAML, the block
cache and the local-directory cloud on disk, stored tokens and error bodies through serde,
and the random draws of the rebalancing task.

`tests/` runs the library on concrete values.
