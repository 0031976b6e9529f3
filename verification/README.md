# GEM12+ status display

The logic behind the secondary display of the AOOSTAR GEM12+: it turns reports of a Proxmox VE host
into sensor values, the fingerprint module into a touch input, and both into what the display shows.

`src/` is a library that Verus verifies:

| Module | What it holds |
| --- | --- |
| `pve` | From the report of the host to sensor values, and what the collector asks and writes |
| `json` | JSON values, read with `serde_json` |
| `sensors`, `caption`, `text`, `time` | Sensor values by key, texts with figures in them, characters, times |
| `fingerprint`, `touch_session`, `touch_listener` | Packets of the fingerprint module, the course of a session with it, and sessions one after the other |
| `gesture`, `panel_loop`, `startup` | Gestures, the loop that shows the panels, and choices at the start |
| `scope` | The touch timing scope: figures, trace, picture and the bytes for the display |

A module states its laws in public proof functions whose names start with `law_`.

Figures such as percentages are floating-point numbers. The library fixes what they are worked out
from and how they are set; `app/` puts them into digits.

`app/` is ordinary Rust around the library: arguments, files, SSH, USB, drawing and the display driver.
`tests/` runs the library on concrete values.
