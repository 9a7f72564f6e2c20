# SherPresent

Presentation remote control: a desktop app drives PowerPoint, Keynote,
LibreOffice Impress and Canva, takes commands over OSC, shows live
translated captions and finds its peers over mDNS; a bridge turns USB
clicker key presses into OSC commands; an importer saves Canva designs for
offline use.

`src/` is the library, verified with Verus: every function carries a
`requires`/`ensures` contract, and the `pub proof fn`s state the laws that
hold across calls.

| module | what it holds |
|---|---|
| `text`, `split`, `num` | strings as character sequences: trimming, splitting, lines, decimal numbers |
| `adapters`, `applescript`, `scripts` | presentation adapters, the AppleScript they run and its replies, adapter choice |
| `impress` | the LibreOffice Impress remote protocol |
| `osc`, `channel`, `config` | OSC feedback cache, command encoding, channels and peers, settings |
| `discovery` | mDNS peers, display ids, TXT records, addresses |
| `captions` | audio framing, speech providers, caption lines, engine status, Gemini Live sessions |
| `canva`, `bootstrap`, `design`, `canva_remote`, `polling` | Canva import (names, escapes, page data, reading the design tree, download plan), remote control, polling |
| `bindings`, `bridge`, `bridge_api`, `usb` | clicker bindings, USB devices and events, the bridge's HTTP API routes |

`app/` is ordinary Rust around it: sockets, processes, files, evdev,
mDNS, HTTP and WebSocket plumbing, and the serde copies of library types.
`tests/` runs the library on concrete values.
