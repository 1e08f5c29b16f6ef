# sauron

A drone-based incident surveillance system: a monitor where operators
register incidents, drones that fly to them, and a camera system whose
cameras wake near active incidents. They talk over MQTT 3.1.1, with
AES-256-GCM for the packets that are encrypted.

`src/` is the verified library (Verus):

- `mqtt/`: the wire formats of the control packets and their components,
  with round-trip laws, and the packet encryption.
- `incident.rs`, `text.rs`: incidents and the `;`-separated records they
  travel in.
- `monitor.rs` and `monitor/`: the monitor's bookkeeping of incidents and the
  decisions of its client on each packet and each operator request.
- `drone.rs` and `drone/`: a drone's state and the decisions of its client.
- `camera_system.rs` and `camera_system/`: the cameras and the incidents they
  follow, and the decisions of the camera system's client.

Coordinates are carried as the bit patterns of IEEE-754 doubles: the library
stores and compares them, and `app/` does the floating-point geometry and the
decimal formatting.

`app/` holds the programs around the library: configuration files, network
loops, threads and timers. `tests/` exercises the library.
