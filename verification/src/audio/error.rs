//! What can go wrong between a track and a device.

use vstd::prelude::*;

use crate::text::{concat2, concat3, copy_str};

verus! {

#[derive(Debug)]
pub enum AudioError {
    Io(String),
    Alsa { device: String, source: String },
    UnsupportedSource(String),
    Decode(String),
    UnsupportedFormat(String),
    FormatRefused { device: String, detail: String },
    DeviceGone { device: String },
    ShutDown,
}

impl AudioError {
    /// The text of `message`.
    pub open spec fn text(&self) -> Seq<char> {
        match self {
            AudioError::Io(e) => "io error: "@ + e@,
            AudioError::Alsa { device, source } => "alsa error on device '"@ + device@ + "': "@
                + source@,
            AudioError::UnsupportedSource(s) => "unsupported source: "@ + s@,
            AudioError::Decode(s) => "decode error: "@ + s@,
            AudioError::UnsupportedFormat(s) => "device '"@ + s@
                + "' does not support the track format (bit-perfect policy refuses resampling)"@,
            AudioError::FormatRefused { device, detail } => "device '"@ + device@
                + "' cannot play "@ + detail@ + " bit-perfectly"@,
            AudioError::DeviceGone { device } => "audio device '"@ + device@
                + "' disappeared (unplugged or powered off?)"@,
            AudioError::ShutDown => "engine is shut down"@,
        }
    }

    /// The error in words.
    pub fn message(&self) -> (s: String)
        ensures
            s@ == self.text(),
    {
        match self {
            AudioError::Io(e) => concat2("io error: ", e.as_str()),
            AudioError::Alsa { device, source } => {
                let mut s = concat3("alsa error on device '", device.as_str(), "': ");
                s.push_str(source.as_str());
                s
            },
            AudioError::UnsupportedSource(s) => concat2("unsupported source: ", s.as_str()),
            AudioError::Decode(s) => concat2("decode error: ", s.as_str()),
            AudioError::UnsupportedFormat(s) => concat3(
                "device '",
                s.as_str(),
                "' does not support the track format (bit-perfect policy refuses resampling)",
            ),
            AudioError::FormatRefused { device, detail } => {
                let mut s = concat3("device '", device.as_str(), "' cannot play ");
                s.push_str(detail.as_str());
                s.push_str(" bit-perfectly");
                s
            },
            AudioError::DeviceGone { device } => concat3(
                "audio device '",
                device.as_str(),
                "' disappeared (unplugged or powered off?)",
            ),
            AudioError::ShutDown => copy_str("engine is shut down"),
        }
    }
}

} // verus!
