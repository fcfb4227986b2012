# ftx

The core of an FTP/SFTP file-transfer client, written in Verus: the pool of
open connections with its idle timeout, directory listings from FTP `LIST`
replies and OpenSSH `ls -l` output, remote and local path handling with
path-traversal checks, host validation, encryption of saved passwords,
directory-tree walks for recursive transfers, the byte accounting of
streamed and resumed transfers, and the bookkeeping of running transfer
tasks.

Layout:

- `src/` — the verified library. Verus proves every function against its
  contract (a function that only hands on an answer from a client, such as
  `test_connection`, has nothing more to promise); the few calls into other crates (base64, AES-GCM, chrono,
  uuid, dirs, russh defaults, parts of std) sit behind small trusted
  wrappers whose contracts are documented beside them.
- `tests/` — tests of the library on concrete values.
- `app/` — the program around the library: the SQLite store, the FTP and
  SFTP network clients, the threads that run transfers, and a small
  command line.
