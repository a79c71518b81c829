# growntrol

Control rules of an indoor-grow controller (lights, ventilation, irrigation
pump on one ESP32) and of its MQTT backend, as a Verus library.

- `src/` — the verified library: lighting window and transition timing, fan
  hysteresis, soil median and calibration, the irrigation state machine,
  the one-shot deadline scheduler, the runtime's decisions, DS3231 register
  decoding, relay polarity, MQTT topic construction and parsing, payload
  checks, the backend's device registry and the simulated device. Every
  public function carries a contract; the `lemma_*` proof functions state
  the library's invariants.
- `tests/` — example-based tests of the library.
- `app/` — the programs around it: the MQTT-to-HTTP backend (default) and
  the MQTT device simulator (`simulator` argument), JSON payload types, and
  the controller's event/deadline loop over hardware ports.

Climate values are integers in tenths of a degree Celsius and of a percent of
relative humidity, the DHT22's own resolution.
