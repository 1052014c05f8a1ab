//! The features that the touch-display board adds of its own: an IMU logger and a
//! touch-drawing demo. Neither has settings.
use vstd::prelude::*;

use crate::config::ConfigSpec;
use crate::feature::FeatureDescriptor;

verus! {

/// Logs the board's attitude and tilt every second.
pub struct ImuFeature {}

impl ImuFeature {
    /// The feature.
    pub fn new() -> (r: Self)
        ensures
            r == (ImuFeature {}),
    {
        ImuFeature {}
    }

    /// What the feature says of itself: its name and no settings.
    pub fn init(&self) -> (r: FeatureDescriptor)
        ensures
            r.name@ == "ImuFeature"@,
            r.config.entries().len() == 0,
            r.config.wf(),
    {
        FeatureDescriptor { name: "ImuFeature".to_owned(), config: ConfigSpec::builder().build() }
    }
}

/// Draws a dot wherever the screen is touched, through a listener that it keeps
/// once started.
pub struct TouchDrawFeature<L> {
    pub listener: Option<L>,
}

impl<L> TouchDrawFeature<L> {
    /// The feature, not started yet.
    pub fn new() -> (r: Self)
        ensures
            r.listener is None,
    {
        TouchDrawFeature { listener: None }
    }

    /// What the feature says of itself: its name and no settings.
    pub fn init(&self) -> (r: FeatureDescriptor)
        ensures
            r.name@ == "TouchListener"@,
            r.config.entries().len() == 0,
            r.config.wf(),
    {
        FeatureDescriptor { name: "TouchListener".to_owned(), config: ConfigSpec::builder().build() }
    }

    /// Keeps the listener that the feature registered with the touch driver.
    pub fn start(&mut self, listener: L)
        ensures
            final(self).listener == Some(listener),
    {
        self.listener = Some(listener);
    }
}

} // verus!
