# rdx_hal

Board support for the RDX controller (a Raspberry Pi carrier with four
stepper controllers, a PCA9685 PWM expander, two IO connectors, a 20x4
character display and a rotary encoder).

- `src/` is the verified library:
  - `defines`: the board's wiring (GPIO pins, expander channels, bus
    addresses), accessors per component, and proofs that no pin and no
    channel is assigned twice.
  - `pca_pin`: duty-cycle counters of the expander and the mapping from
    channel numbers to the driver crate's channels.
  - `display`: the data sent to the character display.
  - `panel`: the operator panel's decisions (encoder navigation, select
    switch, inputs page, options buttons) with their laws.
- `app/` brings the hardware up and runs the panel's event loop.
- `tests/` exercises the library on concrete values.
