//! Platform abstraction: desktop, mobile and web differences.
use vstd::prelude::*;
use crate::text::str_eq;

verus! {

/// Platform the engine runs on.
#[derive(Debug, Clone, Copy, PartialEq, Eq, Structural)]
pub enum Platform {
    Windows,
    MacOs,
    Linux,
    /// WebAssembly in a browser.
    Web,
    Android,
    Ios,
    Unknown,
}

/// The platform of a build target, given the target's operating-system name
/// and architecture (as `std::env::consts::OS` and `ARCH` spell them): wasm32
/// is the web whatever the OS.
pub open spec fn spec_platform_of(os: Seq<char>, arch: Seq<char>) -> Platform {
    if arch == "wasm32"@ {
        Platform::Web
    } else if os == "windows"@ {
        Platform::Windows
    } else if os == "macos"@ {
        Platform::MacOs
    } else if os == "linux"@ {
        Platform::Linux
    } else if os == "android"@ {
        Platform::Android
    } else if os == "ios"@ {
        Platform::Ios
    } else {
        Platform::Unknown
    }
}

impl Platform {
    pub open spec fn spec_is_desktop(self) -> bool {
        self is Windows || self is MacOs || self is Linux
    }

    pub open spec fn spec_is_mobile(self) -> bool {
        self is Android || self is Ios
    }

    pub open spec fn spec_is_web(self) -> bool {
        self is Web
    }

    /// The platform of the running build, from the target's OS name and
    /// architecture (the application shell passes `std::env::consts::OS` and `ARCH`).
    pub fn current(os: &str, arch: &str) -> (p: Platform)
        ensures
            p == spec_platform_of(os@, arch@),
    {
        if str_eq(arch, "wasm32") {
            Platform::Web
        } else if str_eq(os, "windows") {
            Platform::Windows
        } else if str_eq(os, "macos") {
            Platform::MacOs
        } else if str_eq(os, "linux") {
            Platform::Linux
        } else if str_eq(os, "android") {
            Platform::Android
        } else if str_eq(os, "ios") {
            Platform::Ios
        } else {
            Platform::Unknown
        }
    }

    /// Windows, macOS or Linux.
    pub fn is_desktop(&self) -> (b: bool)
        ensures
            b == self.spec_is_desktop(),
    {
        match self {
            Platform::Windows | Platform::MacOs | Platform::Linux => true,
            _ => false,
        }
    }

    /// Android or iOS.
    pub fn is_mobile(&self) -> (b: bool)
        ensures
            b == self.spec_is_mobile(),
    {
        match self {
            Platform::Android | Platform::Ios => true,
            _ => false,
        }
    }

    pub fn is_web(&self) -> (b: bool)
        ensures
            b == self.spec_is_web(),
    {
        match self {
            Platform::Web => true,
            _ => false,
        }
    }

    pub open spec fn spec_name(self) -> Seq<char> {
        match self {
            Platform::Windows => "Windows"@,
            Platform::MacOs => "macOS"@,
            Platform::Linux => "Linux"@,
            Platform::Web => "Web"@,
            Platform::Android => "Android"@,
            Platform::Ios => "iOS"@,
            Platform::Unknown => "Unknown"@,
        }
    }

    /// Display name of the platform.
    pub fn name(&self) -> (s: &'static str)
        ensures
            s@ == self.spec_name(),
    {
        match self {
            Platform::Windows => "Windows",
            Platform::MacOs => "macOS",
            Platform::Linux => "Linux",
            Platform::Web => "Web",
            Platform::Android => "Android",
            Platform::Ios => "iOS",
            Platform::Unknown => "Unknown",
        }
    }

    /// Every platform but the web has a file system.
    pub fn supports_filesystem(&self) -> (b: bool)
        ensures
            b == !self.spec_is_web(),
    {
        !self.is_web()
    }

    /// Wasm plugins load on desktop platforms only.
    pub fn supports_wasm_plugins(&self) -> (b: bool)
        ensures
            b == self.spec_is_desktop(),
    {
        self.is_desktop()
    }

    /// Every platform but the web runs threads.
    pub fn supports_threads(&self) -> (b: bool)
        ensures
            b == !self.spec_is_web(),
    {
        !self.is_web()
    }

    /// 60 Hz on every platform.
    pub fn recommended_physics_fps(&self) -> (f: u32)
        ensures
            f == 60,
    {
        60
    }

    /// 60 on web and mobile; 0 (unlimited) on the rest.
    pub fn recommended_max_fps(&self) -> (f: u32)
        ensures
            f == (if self.spec_is_web() || self.spec_is_mobile() { 60u32 } else { 0u32 }),
    {
        match self {
            Platform::Web => 60,
            Platform::Android | Platform::Ios => 60,
            _ => 0,
        }
    }
}

/// Capabilities of the platform the engine runs on.
#[derive(Debug, Clone, Copy)]
pub struct PlatformCapabilities {
    pub platform: Platform,
    /// Logical CPU cores.
    pub cpu_cores: usize,
    /// Available memory in bytes (0 = unknown).
    pub available_memory: u64,
    pub touch_support: bool,
    pub gamepad_support: bool,
}

impl PlatformCapabilities {
    /// Capabilities of a target given its OS name, architecture and the
    /// number of CPU cores the shell measured (`available_parallelism`, or 1).
    pub fn detect(os: &str, arch: &str, cpu_cores: usize) -> (c: PlatformCapabilities)
        ensures
            c.platform == spec_platform_of(os@, arch@),
            c.cpu_cores == cpu_cores,
            c.available_memory == 0,
            c.touch_support == (c.platform.spec_is_mobile() || c.platform.spec_is_web()),
            c.gamepad_support == (c.platform.spec_is_desktop() || c.platform.spec_is_web()),
    {
        let platform = Platform::current(os, arch);
        PlatformCapabilities {
            platform,
            cpu_cores,
            available_memory: 0,
            touch_support: platform.is_mobile() || platform.is_web(),
            gamepad_support: platform.is_desktop() || platform.is_web(),
        }
    }
}

/// Build profile.
#[derive(Debug, Clone, Copy, PartialEq, Eq, Structural)]
pub enum BuildProfile {
    Debug,
    Release,
}

impl BuildProfile {
    /// The profile of the running build, given whether debug assertions are on.
    pub fn current(debug_assertions: bool) -> (p: BuildProfile)
        ensures
            p == (if debug_assertions { BuildProfile::Debug } else { BuildProfile::Release }),
    {
        if debug_assertions {
            BuildProfile::Debug
        } else {
            BuildProfile::Release
        }
    }

    pub fn is_debug(&self) -> (b: bool)
        ensures
            b == (*self == BuildProfile::Debug),
    {
        match self {
            BuildProfile::Debug => true,
            BuildProfile::Release => false,
        }
    }

    pub fn is_release(&self) -> (b: bool)
        ensures
            b == (*self == BuildProfile::Release),
    {
        match self {
            BuildProfile::Debug => false,
            BuildProfile::Release => true,
        }
    }
}

/// No platform is both desktop and mobile, and the web is neither.
pub proof fn law_platform_classes_disjoint(p: Platform)
    ensures
        !(p.spec_is_desktop() && p.spec_is_mobile()),
        p.spec_is_web() ==> !p.spec_is_desktop() && !p.spec_is_mobile(),
{
}

} // verus!
