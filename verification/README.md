# gpu-info

GPU information in one place: capability reports of every adapter, the limits and features a device
should be asked for, the one shared device of a process and its Vulkan half for video decoders, live
and static video memory, live counters, and the displays' color profiles.

The library under `src/` decides and computes. It takes what wgpu, the driver or the operating system
said as plain values, and gives plain values back. Every function states in its contract what it
returns, and Verus proves the statements. The program under `app/` does the talking: it opens
instances and devices, reads files, calls system interfaces, converts floating point numbers, and
hands everything else to the library.

## Modules

| Module | What it is about |
| --- | --- |
| `model`, `flags`, `caps` | capability reports, wgpu's flag sets, an adapter's limits |
| `compare`, `diff`, `json`, `names`, `paths` | reports as JSON and the differences between two of them |
| `pretty`, `cli` | reports as text, and what the command line tool decides |
| `limits` | whether an image fits one dispatch, and if not why |
| `shared`, `pin`, `shared_vk` | the negotiation of the shared device, the module pin, the Vulkan half |
| `image`, `readback` | images at the host boundary, the outcome of a blocking readback |
| `vram` | live and static video memory |
| `stats` | live counters of Linux, Windows, macOS and NVIDIA |
| `displays` | the displays' ICC profiles |
| `text`, `number`, `wide`, `narrow` | texts and numbers, UTF-16 and C strings |

Functions named `law_...` state what holds across functions: that a comparison is empty exactly when
two reports say the same, that a readback returns what was uploaded, that no two submitters share a
queue, that nothing is negotiated unless the module is pinned, and so on.

## What is trusted

A few functions call another crate or the standard library and are believed without proof. Each is
marked `#[verifier::external_body]` or written as `assume_specification`, and its comment names what it
calls and what is claimed of it. They cover the names and predicates of wgpu's flag sets, wgpu's error
texts, ash's flag tests, serde_json's quoting of a text, and four functions on strings and characters.

Temperatures, powers and speeds are whole numbers here, and half floats are their sixteen bits.
