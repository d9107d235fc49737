# kafka_broker

A small Kafka broker: it reads ApiVersions and Fetch requests from the wire
and writes their responses. The library under `src/` is verified with Verus;
`app/` holds the network side (a Tokio server) around it.

Layout of `src/`:

- `big_endian.rs`: fixed-width integers in network byte order; the reads and
  writes go through the `bytes` crate.
- `messages/primitives.rs`: the primitive types of the protocol (unsigned
  varints, UUIDs, nullable and compact strings, compact arrays, tagged
  fields), the `Deserialize` and `Serialize` traits and their spec functions.
- `messages/requests/`: the request header, the Fetch and ApiVersions
  requests, and the reading of a whole framed request.
- `messages/responses/`: the response header, the Fetch and ApiVersions
  responses, and the writing of a whole framed response.
- `meta.rs`: the records of the cluster metadata log and the maps built from
  them.
- `process/`: the answer to a request, from request bytes to response bytes.

Each reader is specified by a function from bytes to an outcome (the value
and the bytes it took, an error, or no outcome where the reader would run past
the buffer or meets an encoding it does not support); each writer by the
bytes it writes.
