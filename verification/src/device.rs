//! What the audio layer reports about an output device and the stream it opened.
use vstd::prelude::*;

verus! {

/// Where a playback session is: not started, ready to start, or playing.
#[derive(Debug, Clone, Copy, PartialEq, Eq, Structural)]
pub enum PlaybackState {
    Idle,
    Primed,
    Playing,
}

/// The name, sample rate and channel count of an output device.
#[derive(Debug, Clone, PartialEq, Eq)]
pub struct AudioDeviceInfo {
    name: String,
    sample_rate_hz: u32,
    output_channels: u16,
}

impl AudioDeviceInfo {
    pub closed spec fn name_view(&self) -> Seq<char> {
        self.name@
    }

    pub closed spec fn rate_view(&self) -> u32 {
        self.sample_rate_hz
    }

    pub closed spec fn channels_view(&self) -> u16 {
        self.output_channels
    }

    pub fn new(name: &str, sample_rate_hz: u32, output_channels: u16) -> (r: Self)
        ensures
            r.name_view() == name@,
            r.rate_view() == sample_rate_hz,
            r.channels_view() == output_channels,
    {
        AudioDeviceInfo { name: name.to_owned(), sample_rate_hz, output_channels }
    }

    pub fn name(&self) -> (r: &str)
        ensures
            r@ == self.name_view(),
    {
        self.name.as_str()
    }

    pub fn sample_rate_hz(&self) -> (r: u32)
        ensures
            r == self.rate_view(),
    {
        self.sample_rate_hz
    }

    pub fn output_channels(&self) -> (r: u16)
        ensures
            r == self.channels_view(),
    {
        self.output_channels
    }
}

/// The sample rate and channel count of an output stream.
#[derive(Debug, Clone, Copy, PartialEq, Eq, Structural)]
pub struct AudioDeviceConfig {
    sample_rate_hz: u32,
    output_channels: u16,
}

impl AudioDeviceConfig {
    pub closed spec fn rate_view(self) -> u32 {
        self.sample_rate_hz
    }

    pub closed spec fn channels_view(self) -> u16 {
        self.output_channels
    }

    pub fn new(sample_rate_hz: u32, output_channels: u16) -> (r: Self)
        ensures
            r.rate_view() == sample_rate_hz,
            r.channels_view() == output_channels,
    {
        AudioDeviceConfig { sample_rate_hz, output_channels }
    }

    pub fn sample_rate_hz(self) -> (r: u32)
        ensures
            r == self.rate_view(),
    {
        self.sample_rate_hz
    }

    pub fn output_channels(self) -> (r: u16)
        ensures
            r == self.channels_view(),
    {
        self.output_channels
    }
}

impl Default for AudioDeviceConfig {
    /// 48 kHz stereo.
    fn default() -> (r: Self)
        ensures
            r.rate_view() == 48_000,
            r.channels_view() == 2,
    {
        Self::new(48_000, 2)
    }
}

} // verus!
