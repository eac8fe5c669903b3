# thermometer

A driver for DS18B20 one-wire thermometers on ESP32, built around a verified
library.

- `src/` is the library, verified with Verus:
  - `crc8`: the Dallas/Maxim CRC-8, with the laws that it is computed
    piecewise, that a frame passes exactly when its last byte is the CRC of
    the rest, that it is linear over xor, that start values never collide,
    and that every change confined to one byte is detected.
  - `rom`: the 64-bit ROM code, decoded from eight checked bytes and written
    back into the MATCH ROM frame, with the round-trip laws.
  - `scratchpad`: the nine-byte scratchpad read (CRC, then configuration
    register, checked) and the three-byte write, the resolutions, and the
    temperature in sixteenths of a degree rounded to the resolution.
  - `error`: the driver's errors.
- `tests/`: tests of the library.
- `app/`: the program around it: bus I/O over `esp-idf-svc`, logging, and
  the conversion of sixteenths of a degree to a float.
