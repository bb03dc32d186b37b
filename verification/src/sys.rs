//! Host capabilities as the pipeline sees them: which window manager and
//! sound driver are present, and which engine version answered the probe.
//!
//! Probing itself happens outside the crate; the probe's findings arrive
//! here as plain values.

use vstd::prelude::*;

verus! {

/// Marker for the driver kinds a capability snapshot can report.
pub trait Driver: Clone {

}

/// The window manager found on the host.
#[derive(Debug, Clone, Copy, PartialEq, Eq, Structural)]
pub enum WindowManager {
    X11,
    Wayland,
}

impl Driver for WindowManager {

}

impl WindowManager {
    /// Human-readable name of the window manager.
    pub fn name(&self) -> (r: &'static str)
        ensures
            r@ == match self {
                WindowManager::X11 => "X11"@,
                WindowManager::Wayland => "Wayland"@,
            },
    {
        match self {
            WindowManager::X11 => "X11",
            WindowManager::Wayland => "Wayland",
        }
    }
}

/// The sound driver found on the host.
#[derive(Debug, Clone, Copy, PartialEq, Eq, Structural)]
pub enum SoundDriver {
    Alsa,
    PulseAudio,
}

impl Driver for SoundDriver {

}

impl SoundDriver {
    /// Human-readable name of the sound driver.
    pub fn name(&self) -> (r: &'static str)
        ensures
            r@ == match self {
                SoundDriver::Alsa => "Alsa"@,
                SoundDriver::PulseAudio => "PulseAudio"@,
            },
    {
        match self {
            SoundDriver::Alsa => "Alsa",
            SoundDriver::PulseAudio => "PulseAudio",
        }
    }
}

/// The printer driver; only a default is distinguished so far.
#[derive(Debug, Clone, Copy, PartialEq, Eq, Structural)]
pub enum PrinterDriver {
    Default,
}

impl Driver for PrinterDriver {

}

impl PrinterDriver {
    /// Human-readable name of the printer driver.
    pub fn name(&self) -> (r: &'static str)
        ensures
            r@ == "Default driver installed"@,
    {
        "Default driver installed"
    }
}

/// The webcam driver; only a default is distinguished so far.
#[derive(Debug, Clone, Copy, PartialEq, Eq, Structural)]
pub enum WebCamDriver {
    Default,
}

impl Driver for WebCamDriver {

}

impl WebCamDriver {
    /// Human-readable name of the webcam driver.
    pub fn name(&self) -> (r: &'static str)
        ensures
            r@ == "Default driver installed"@,
    {
        "Default driver installed"
    }
}

/// The API version the engine's probe answered with.
pub struct DockerVersion(pub String);

impl Driver for DockerVersion {

}

impl Clone for DockerVersion {
    fn clone(&self) -> (r: Self)
        ensures
            r.0@ == self.0@,
    {
        DockerVersion(self.0.clone())
    }
}

impl DockerVersion {
    /// The version text itself.
    pub fn name(&self) -> (r: String)
        ensures
            r@ == self.0@,
    {
        self.0.clone()
    }
}

/// Point-in-time record of the host's capabilities, assembled outside the
/// crate from probe results and consumed read-only here.
pub struct System {
    pub wm: Option<WindowManager>,
    pub sd: Option<SoundDriver>,
    pub docker_version: DockerVersion,
}

impl System {
    /// Packs probe findings into a snapshot.
    pub fn new(wm: Option<WindowManager>, sd: Option<SoundDriver>, docker_version: DockerVersion)
        -> (r: Self)
        ensures
            r.wm == wm,
            r.sd == sd,
            r.docker_version.0@ == docker_version.0@,
    {
        System { wm, sd, docker_version }
    }
}

} // verus!
