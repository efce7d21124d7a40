# rptadv-portaudio-alsa-adapter

The hardware-audio boundary of a radio port: PortAudio stream lifetime, ALSA mixer
control, stable USB device selection and raw audio measurements, behind a small
versioned C descriptor.

The decisions are a verified library, and the calls are ordinary Rust around it.

- `src/` is the library, written in Verus. Every operation that needs the hardware is a
  machine: it names the next call to make, takes the call's reply, and ends with a status.
  Its contracts say what each step does, and its laws what a whole operation comes to for
  every possible sequence of replies.
- `app/` is the C ABI: it makes those calls on PortAudio, ALSA, the rate-adjusting PCM
  ring, the scheduler and `/sys/class/sound`, and shares the statistics with the audio
  callbacks through atomics.
- `tests/` runs the library against simulated hardware.

## What the library holds

| Modules | Subject |
| --- | --- |
| `abi`, `stats`, `timing` | configuration checks, shared statistics, stream timing |
| `pcm`, `callback`, `render` | channel mapping, meters, the capture and playback callbacks |
| `capture_ring` | sizes, priming and bounds of the mono capture ring |
| `runtime`, `devices` | runtime references, device leases, device resolution |
| `stream_create`, `stream_start`, `stream_stop`, `stream_destroy` | the stream lifecycle |
| `text`, `sysfs`, `selection`, `usb_device` | device names and stable USB identity |
| `mixer`, `mixer_control`, `mixer_level`, `cm119` | mixer controls and CM119 path plans |

Samples and levels cross the library as IEEE-754 bit patterns. What needs floating-point
arithmetic (averaging two samples, summing squares, the root of a mean) is handed in by
the caller, and the contracts say which calls are made and where their results go.
