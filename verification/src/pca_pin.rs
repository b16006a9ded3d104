use vstd::prelude::*;

use pwm_pca9685::Channel;

verus! {

/// An output channel of the PCA9685 driver crate (`pwm_pca9685::Channel`),
/// carried through as an opaque value.
#[verifier::external_type_specification]
#[verifier::external_body]
pub struct ExChannel(pwm_pca9685::Channel);

/// The driver crate's channel for channel number `index`, as
/// `Channel::try_from(index)` gives it for `index` in 0..=15.
pub uninterp spec fn pca_channel_for(index: u8) -> Channel;

/// Calls `Channel::try_from(u8)` of the driver crate. Its documentation
/// promises an error exactly for values outside 0..=15; the channel given
/// for a number in range is named by `pca_channel_for`.
#[verifier::external_body]
fn channel_try_from(index: u8) -> (channel: Option<Channel>)
    ensures
        channel is Some <==> index < 16,
        channel matches Some(c) ==> c == pca_channel_for(index),
{
    Channel::try_from(index).ok()
}

/// The driver's channel for expander channel number `index`.
pub fn pca_channel(index: u8) -> (channel: Channel)
    requires
        index < crate::defines::PCA_CHANNEL_COUNT,
    ensures
        channel == pca_channel_for(index),
{
    channel_try_from(index).unwrap()
}

/// Largest counter value of the expander: a period has `PCA_MAX_DUTY + 1` ticks.
pub const PCA_MAX_DUTY: u16 = 4095;

/// The two counters the expander holds per channel: the output goes high at
/// tick `on` of each period and low at tick `off`.
#[derive(Debug, Clone, Copy, PartialEq, Eq, Structural)]
pub struct PwmCounts {
    pub on: u16,
    pub off: u16,
}

/// The largest duty cycle a pin of the expander accepts.
pub fn max_duty_cycle() -> (max: u16)
    ensures
        max == PCA_MAX_DUTY,
{
    PCA_MAX_DUTY
}

/// The counters that give a duty cycle of `duty` ticks out of
/// `PCA_MAX_DUTY + 1`: the output rises at the start of the period and falls
/// after `duty` ticks.
pub fn duty_cycle_counts(duty: u16) -> (counts: PwmCounts)
    requires
        duty <= PCA_MAX_DUTY,
    ensures
        counts == (PwmCounts { on: 0, off: duty }),
        counts.on <= PCA_MAX_DUTY,
        counts.off <= PCA_MAX_DUTY,
{
    PwmCounts { on: 0, off: duty }
}

/// Number of ticks per period for which the counters hold the output high.
pub open spec fn high_ticks(counts: PwmCounts) -> int {
    counts.off - counts.on
}

/// A duty cycle of `duty` holds the output high for `duty` of the
/// `PCA_MAX_DUTY + 1` ticks of each period; so even the largest duty cycle
/// leaves the output low for one tick.
pub proof fn lemma_duty_cycle_counts_high_time(duty: u16)
    requires
        duty <= PCA_MAX_DUTY,
    ensures
        high_ticks(PwmCounts { on: 0, off: duty }) == duty,
        high_ticks(PwmCounts { on: 0, off: duty }) < PCA_MAX_DUTY + 1,
{
}

} // verus!
