# rdmalib

Share memory regions between machines over RDMA. A provider offers local
buffers, as bytes or as vectors of plain types; readers join a group over
TCP, receive the region catalog and the group's (remote_addr, size, rkey)
tuples, and then read and write the memory with one-sided accesses.

The library in `src/` is verified with Verus. It decides what to do and
judges what came of it; sockets, threads and the device calls are in
`app/`, which runs the library against the network and libibverbs.

| Module | What it holds |
| --- | --- |
| `wire`, `meta` | the wire protocol: encoding, decoding, framing |
| `rdma` | connections, registrations and one-sided accesses, call by call |
| `regions` | accesses to a remote region: bounds, layout, alignment |
| `readers`, `cache` | the reader's sessions and what it knows of the remote |
| `providers`, `shared`, `sessions` | the provider's catalog, groups, tuples and sessions |
| `pod` | the types that can be shared |
| `error`, `text` | the errors and their texts |
| `*_laws`, `rdma::laws` | what holds of the library as a whole |

## Offsets

Byte accesses may start and end anywhere in the region. Typed accesses
must use the layout the region is shared as, stay in the region, and
start where a `T` can. A typed read's offset is in bytes: element `i` of
a region of `T`s starts at `element_offset::<T>(i)`. A typed write's
offset is in elements. A region's base is aligned for its elements, so
every element can be accessed; with an alignment of at least the machine
word, typed accesses keep to word boundaries.
