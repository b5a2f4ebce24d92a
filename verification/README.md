# Playfruit

Stream a PC's system audio to a HomePod over AirPlay 2.

The library holds the project's decisions, proved with Verus:

| module | what it decides |
| --- | --- |
| `pump` | forwards captured audio to the sender, fills true silence, holds the stream to the wall clock |
| `pump_laws` | what holds of every run of the pump |
| `session` | how a session begins, and what it keeps out |
| `capture`, `clock`, `pcm` | the capture channel, the clock, and chunks of audio |
| `rig` | everything outside that a session runs on, with a journal of what was done with it |
| `supervisor` | when to connect, how long to back off, when to give up |
| `health` | heartbeats, clock-sync queries, and silence of a session that is up |
| `mute` | "HomePod only": muting the PC's speakers, and giving them back |
| `status` | what the user is told, and how the command line prints it |
| `devices` | which devices can be streamed to, at which address, and which one is meant |
| `doctor` | what each finding of `playfruit doctor` means |
| `args`, `settings` | the command line, and what the user can set |
| `tray`, `icon` | the tray menu and its icon |
| `click` | the click track of the latency test |
| `text`, `numbers`, `streak` | what the others are stated with |

`app/` is the ordinary Rust around it: the programs, the network, the audio
devices, and the tray icon. It performs what the library decides.

Public proof functions whose names begin with `law_` state what holds of the
library as a whole. Functions marked `#[verifier::external_body]` call std or
crossbeam-channel; their doc comments say what is taken on trust.
