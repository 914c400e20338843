# robot_core

The decision core of a small autonomous vehicle, verified with Verus.

Numbers are IEEE 754 binary64 values, held by their bit patterns. Their
arithmetic is specified over integers and proved correctly rounded
(`src/binary64`). Elementary functions (sine, bearing, length and so on) come
from the host as one callable; contracts speak of every mathematical function
that describes it (`src/elementary.rs`).

| Module | Content |
| --- | --- |
| `sensors`, `autonomy`, `local_world`, `mission` | plain values and their checks |
| `safety` | the interlock that decides whether the vehicle may drive |
| `startup_assist` | bounded proposals to start from rest |
| `teleop` | limits of manual driving |
| `protocol` | chassis packets, IMU and lidar decoders, calibrated PWM tables |
| `scan` | whole revolutions of the lidar |
| `reference`, `tracking` | projection on a route, pure pursuit and LQR |
| `navigation` | bounded predictions, terminal connections, recovery, stopping margins |
| `online_mission` | the mission that observes its course |

Laws that relate several functions are public proof functions named `law_...`,
beside the functions they speak of or in a `laws` module.

`app/` is ordinary Rust around the library: the machine's floating point,
values as they are read and written with serde, packets on a device, and
measured time.
