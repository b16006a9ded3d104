use vstd::prelude::*;

verus! {

/* Stepper controllers */

/// GPIO pins driving the step input of the four stepper controllers.
pub const RDX_PIN_STEP: [u8; 4] = [24, 25, 5, 6];

/// GPIO pins driving the direction input of the four stepper controllers.
pub const RDX_PIN_DIR: [u8; 4] = [23, 22, 12, 20];

/// GPIO pin of the enable input shared by all stepper controllers.
pub const RDX_PIN_SC_EN: u8 = 26;

/* PWM expander (PCA9685) */

/// Number of output channels of the PWM expander.
pub const PCA_CHANNEL_COUNT: u8 = 16;

/// Expander channels wired to the eight servo connectors.
pub const RDX_CHANNEL_SERVO: [u8; 8] = [0, 1, 2, 3, 4, 5, 6, 7];

/// Expander channels wired to the three DC drivers, two per driver.
pub const RDX_CHANNEL_DC: [u8; 6] = [8, 9, 10, 11, 12, 13];

/// Expander channels wired to the fan driver.
pub const RDX_CHANNEL_FAN: [u8; 2] = [14, 15];

/* GPIO connectors */

/// GPIO pins of the first IO connector.
pub const RDX_PIN_IO1: [u8; 4] = [4, 27, 21, 13];

/// GPIO pins of the second IO connector.
pub const RDX_PIN_IO2: [u8; 4] = [10, 9, 11, 8];

/// GPIO pins of the misc connector. They are the step pins of the stepper
/// controllers, so the connector is usable only where those are not.
pub const RDX_PIN_MISC: [u8; 4] = [24, 25, 5, 6];

/* I2C */

/// Bus address of the character display.
pub const RDX_I2C_ADDR_LCD: u8 = 0x27;

/// Bus address of the PWM expander.
pub const RDX_I2C_ADDR_PCA9685: u8 = 0x40;

/* Rotary encoder */

/// GPIO pin of the encoder's data line.
pub const RDX_PIN_ROT_DT: u8 = 18;

/// GPIO pin of the encoder's clock line.
pub const RDX_PIN_ROT_CL: u8 = 17;

/// GPIO pin of the encoder's push switch.
pub const RDX_PIN_ROT_SW: u8 = 19;

/// Number of stepper controllers on the board.
pub const RDX_STEPPER_COUNT: usize = 4;

/// Number of DC drivers on the board (the fan driver not counted).
pub const RDX_DC_DRIVER_COUNT: usize = 3;

/// Number of IO connectors that the board hands out, numbered from 1.
pub const RDX_IO_CONNECTOR_COUNT: usize = 2;

/// The pins of IO connector `connector` (1 for the first, 2 for the second).
pub open spec fn io_connector_spec(connector: int) -> Seq<u8> {
    if connector == 1 { RDX_PIN_IO1@ } else { RDX_PIN_IO2@ }
}

/// Every GPIO pin that the layout assigns to a component for its sole use:
/// direction and step pins of the stepper controllers, their common enable
/// pin, both IO connectors and the three lines of the rotary encoder.
pub open spec fn claimed_gpio_pins() -> Seq<u8> {
    RDX_PIN_DIR@ + RDX_PIN_STEP@ + seq![RDX_PIN_SC_EN] + RDX_PIN_IO1@ + RDX_PIN_IO2@
        + seq![RDX_PIN_ROT_DT, RDX_PIN_ROT_CL, RDX_PIN_ROT_SW]
}

/// Every expander channel in the order servos, DC drivers, fan.
pub open spec fn assigned_pca_channels() -> Seq<u8> {
    RDX_CHANNEL_SERVO@ + RDX_CHANNEL_DC@ + RDX_CHANNEL_FAN@
}

/// The direction and step pin of stepper controller `index`, in that order.
pub fn stepper_pins(index: usize) -> (pins: (u8, u8))
    requires
        index < RDX_STEPPER_COUNT,
    ensures
        pins == (RDX_PIN_DIR@[index as int], RDX_PIN_STEP@[index as int]),
{
    (RDX_PIN_DIR[index], RDX_PIN_STEP[index])
}

/// The two expander channels of DC driver `index`: its first and its second input.
pub fn dc_driver_channels(index: usize) -> (channels: (u8, u8))
    requires
        index < RDX_DC_DRIVER_COUNT,
    ensures
        channels == (RDX_CHANNEL_DC@[2 * index as int], RDX_CHANNEL_DC@[2 * index + 1]),
        channels.0 < PCA_CHANNEL_COUNT,
        channels.1 < PCA_CHANNEL_COUNT,
{
    (RDX_CHANNEL_DC[2 * index], RDX_CHANNEL_DC[2 * index + 1])
}

/// The two expander channels of the fan driver.
pub fn fan_channels() -> (channels: (u8, u8))
    ensures
        channels == (RDX_CHANNEL_FAN@[0], RDX_CHANNEL_FAN@[1]),
        channels.0 < PCA_CHANNEL_COUNT,
        channels.1 < PCA_CHANNEL_COUNT,
{
    (RDX_CHANNEL_FAN[0], RDX_CHANNEL_FAN[1])
}

/// The four pins of IO connector `connector` (1 for the first, 2 for the second).
pub fn io_connector_pins(connector: usize) -> (pins: [u8; 4])
    requires
        1 <= connector <= RDX_IO_CONNECTOR_COUNT,
    ensures
        pins@ == io_connector_spec(connector as int),
{
    if connector == 1 {
        RDX_PIN_IO1
    } else {
        RDX_PIN_IO2
    }
}

/// The layout assigns no GPIO pin to two of these components.
pub proof fn lemma_claimed_gpio_pins_distinct()
    ensures
        claimed_gpio_pins().len() == 20,
        claimed_gpio_pins().no_duplicates(),
{
    let s = claimed_gpio_pins();
    let lit: Seq<u8> = seq![23u8, 22, 12, 20, 24, 25, 5, 6, 26, 4, 27, 21, 13, 10, 9, 11, 8, 18, 17, 19];
    assert(s =~= lit);
}

/// Every channel of the expander is wired to exactly one output: the
/// assignment lists channel `i` at position `i`.
pub proof fn lemma_pca_channels_each_assigned_once()
    ensures
        assigned_pca_channels().len() == PCA_CHANNEL_COUNT,
        forall|i: int| 0 <= i < PCA_CHANNEL_COUNT ==> assigned_pca_channels()[i] == i,
        assigned_pca_channels().no_duplicates(),
{
    let s = assigned_pca_channels();
    assert(s =~= Seq::new(16, |i: int| i as u8));
}

} // verus!
