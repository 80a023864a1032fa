# ncd — network character devices

A remote device (a camera, a keyboard, a serial port, a file) is used on a Linux
machine as if it were a local character device. A *host* offers its devices over
TCP; a *daemon* on the Linux machine makes each of them a device node and carries
the bytes.

The decisions of both are a library that is verified with Verus. Input and output
are kept out of it: the library is told what happened (bytes arrived, a timer is
due, a key was pressed) and says what is to be done.

## Layout

| Path | What it is |
| --- | --- |
| `src/proto/` | Frames, packets, and byte streams that carry packets |
| `src/runtime/` | A connection: handshake, liveness, requests, closing |
| `src/ncdd/` | The daemon: messages of the kernel driver, flow control, traffic log |
| `src/host/` | The host: detection and choice of devices, drivers, screens, adapters |
| `src/text.rs`, `src/scan.rs`, `src/wire.rs` | Text and bytes |
| `tests/` | Tests of the compiled library |
| `app/` | The programs `ncd` and `ncdd` around the library |

## What is proved

Every function of the library has a contract over mathematical views of its data.
Facts that span functions stand beside them as `law_...` proof functions, among
them:

- what one side writes is read by the other side, message for message, however
  the stream cuts the bytes (`law_messages_arrive`, `law_delivery`);
- frames and packets are read back as they were written (`law_frame_roundtrip`,
  `law_packet_roundtrip`, `law_fragment_assemble`);
- a closed connection has no timers and never acts again (`law_closed_is_final`);
- data on its way into the kernel is neither lost nor reordered, and never more
  than the kernel queue holds (`law_flush`);
- every key keeps the configuration screens consistent
  (`law_keys_keep_invariant`).

Calls into other crates (`bytes`, `rand`, `regex`, `serde_json`, `sha2`,
`zip`) and into parts of the standard library that have no specification stand behind small
functions whose contracts are trusted; their comments say what is trusted.

## Protocol

```text
0                  16      24        32 bit
|       Magic Number       | Version |
|  Payload Length  |  Flag |  Type   |
|         Payload (variable)         |
```

All numbers are big-endian. The flag is 1 for every frame of a packet but the
last, whose flag is 0.
