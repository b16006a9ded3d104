//! Board support for the RDX controller: the wiring of its connectors,
//! the duty-cycle arithmetic of its PWM expander, the data it sends to its
//! character display, and the decisions of its operator panel.

pub mod defines;
pub mod display;
pub mod panel;
pub mod pca_pin;

use vstd::prelude::*;

verus! {

/// A servo on the PWM expander, held as a plain integer.
pub type PcaServo = i32;

/// The servos of the board, one per field.
pub struct RdxServos(
    pub PcaServo,
    pub PcaServo,
    pub PcaServo,
    pub PcaServo,
    pub PcaServo,
    pub PcaServo,
    pub PcaServo,
    pub PcaServo,
    pub PcaServo,
);

} // verus!
