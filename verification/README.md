# proxmox-fuse

A library for FUSE file systems, on the low-level interface of libfuse3. A mounted session is a
stream of typed requests, and each request is consumed by the reply that answers it.

The library itself talks neither to libfuse nor to the kernel. Its functions take what came back
from a call as plain values, and hand out the next call to make as a plain value. What they do in
between is stated in their contracts and proved by Verus.

## Layout

* `src/`: the verified library
  * `requests`: the requests of the kernel and how each is answered
  * `reply`: the calls that answer a request, and the guard of a request that has no answer yet
  * `session`: setting up, mounting and ending a session, and the steps of the stream of requests
  * `fuse_fd`: the readiness of the file descriptor, and the steps of the thread that waits for it
  * `sys`, `util`, `errno`, `error`: the values that are exchanged with libfuse and the system
  * `tmpfs`: a file system in memory, with sparse files
* `app/`: the bindings to libfuse3, the reactor thread and the stream itself
* `extras/glue.c`: accessors for bit fields, of which the layout is up to the C compiler
* `tests/`: tests of the library

## What is proved

Each public function has a contract that says what it returns and changes for every input. The
functions named `law_..` state what holds of several functions together, such as:

* what is handed out for a request that is dropped is an answer to it, and no request is answered
  twice
* requests come out of a session in the order in which they went in
* a task never waits while the file descriptor is ready
* what is written to a file of the file system in memory is what is read from it
* a file or directory goes when it has neither a name nor a reference, and not before

Calls into libfuse and the kernel are made in `app/` and are not part of any proof. That a request
which is dropped is answered, that a session which is dropped is unmounted, and that the steps of
the stream and of the reactor thread are taken in turn is up to `app/`: the library says what is to
be called then (`on_drop`), and `app/` calls it.
