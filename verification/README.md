# node-system-audio

System audio (loopback) capture for Node: records what the machine is playing into a rolling
in-memory buffer you can reach back into after the fact. What decides and computes is a library
verified with Verus; devices, threads, the clock, the rate-conversion engine and the JavaScript
surface are ordinary Rust around it.

## The library (`src/`)

| Module | What it holds |
|---|---|
| `ring` | The retention ring: the newest frames under a fixed ceiling, a movable window, clamped reads, waveform envelopes |
| `wav` | The mono 16-bit WAV writer |
| `epoch` | Frame accounting against the wall clock, in exact integer arithmetic |
| `resample` | Collecting input into chunks for the engine, counting refused chunks, quantising to 16 bits |
| `device` | Planning a stream on the default output device, and telling device changes |
| `capture` | The state the callback, the worker and the caller share |
| `supervisor` | The capture worker as a state machine: ticks, gap filling, recovery from faults and device changes |
| `buffer` | `SystemAudioBuffer`: idle, running, frozen; status, reading, peaks |
| `permission`, `error`, `text` | Permission status, errors and their messages |

Each type has a mathematical view, and each function says what becomes of that view. The functions
named `law_...` state what holds of several functions together: for instance that a stream cut
into any pieces leaves the same ring, that a WAV clip decodes to the frames it was cut from, that
reopening a stream keeps the buffer, that what was staged is what a clip decodes to, and that the interval between two devices is
owed and filled.

Samples travel through the library as the bit patterns of IEEE 754 single-precision numbers, so
that quantising is integer arithmetic with an exact definition.

The library trusts no outside code. It asks for outside work by returning an action, such as
"convert this chunk" or "reopen the stream", and is told the outcome by the next call.

## Around it (`app/`)

`app/` is the addon: the `napi` classes, the `cpal` streams and their callbacks, the `rubato`
engine, the worker thread that performs the supervisor's actions, and the macOS preflight.

## Tests (`tests/`)

The tests run the compiled library, the conversion tests together with the real engine. The
quantiser is compared with floating-point arithmetic on every 1571st bit pattern and around each
step between two samples.
