//! The rules for a window's surface: which mode it is put in, when it is resized, what
//! a failed frame means, and how large the renderer's buffers grow.
//!
//! Nothing here touches a device. The caller asks the device what it can do, hands that
//! over as plain values, and does what comes back.

use vstd::prelude::*;

verus! {

/// What happened when a frame was submitted.
///
/// Not a `Result`: most cases without success are routine (an occluded or resizing
/// window) and skip a frame rather than look like errors.
#[derive(Debug, Clone, Copy, PartialEq, Eq, Structural)]
pub enum FrameOutcome {
    /// Drawn and presented.
    Presented,
    /// Nothing was drawn and nothing is wrong.
    Skipped,
    /// The swapchain has been reconfigured and the frame should be drawn again.
    Redraw,
    /// The device is unusable and the application should exit.
    Fatal,
}

/// What asking the surface for an image gave.
#[derive(Debug, Clone, Copy, PartialEq, Eq, Structural)]
pub enum Acquired {
    Success,
    /// Usable this frame, but the surface has drifted from its configuration.
    Suboptimal,
    Timeout,
    Occluded,
    Outdated,
    Lost,
    Validation,
}

/// What to do about an acquired image, or the lack of one.
#[derive(Debug, Clone, Copy, PartialEq, Eq, Structural)]
pub struct FrameStep {
    /// There is an image: draw into it and present it.
    pub draw: bool,
    /// Reconfigure the surface, after presenting if there is something to present.
    pub recover: bool,
    pub outcome: FrameOutcome,
}

impl Acquired {
    pub open spec fn has_image(self) -> bool {
        self is Success || self is Suboptimal
    }

    /// The surface no longer matches its configuration.
    pub open spec fn is_stale(self) -> bool {
        self is Suboptimal || self is Outdated || self is Lost
    }

    /// Draw when there is an image, reconfigure when the surface is stale. A stale
    /// surface is drawn again, a missing image is skipped, and only a failed validation
    /// is fatal.
    pub fn step(self) -> (step: FrameStep)
        ensures
            step.draw == self.has_image(),
            step.recover == self.is_stale(),
            step.outcome == (if self is Validation {
                FrameOutcome::Fatal
            } else if self.is_stale() {
                FrameOutcome::Redraw
            } else if self.has_image() {
                FrameOutcome::Presented
            } else {
                FrameOutcome::Skipped
            }),
    {
        match self {
            Acquired::Success => FrameStep {
                draw: true,
                recover: false,
                outcome: FrameOutcome::Presented,
            },
            Acquired::Suboptimal => FrameStep {
                draw: true,
                recover: true,
                outcome: FrameOutcome::Redraw,
            },
            Acquired::Timeout | Acquired::Occluded => FrameStep {
                draw: false,
                recover: false,
                outcome: FrameOutcome::Skipped,
            },
            Acquired::Outdated | Acquired::Lost => FrameStep {
                draw: false,
                recover: true,
                outcome: FrameOutcome::Redraw,
            },
            Acquired::Validation => FrameStep {
                draw: false,
                recover: false,
                outcome: FrameOutcome::Fatal,
            },
        }
    }
}

/// How a compositor blends the window.
#[derive(Debug, Clone, Copy, PartialEq, Eq, Structural)]
pub enum AlphaMode {
    Auto,
    Opaque,
    PreMultiplied,
    PostMultiplied,
    Inherit,
}

/// When a finished frame reaches the display.
#[derive(Debug, Clone, Copy, PartialEq, Eq, Structural)]
pub enum PresentMode {
    AutoVsync,
    AutoNoVsync,
    Fifo,
    FifoRelaxed,
    Immediate,
    Mailbox,
}

/// The backend a configuration asks for.
#[derive(Debug, Clone, Copy, PartialEq, Eq, Structural)]
pub enum GpuBackend {
    Auto,
    Vulkan,
    Metal,
    Dx12,
    Gl,
}

/// The backends to try.
#[derive(Debug, Clone, Copy, PartialEq, Eq, Structural)]
pub enum Backends {
    /// What the environment says, else whatever there is.
    Environment,
    Vulkan,
    Metal,
    Dx12,
    Gl,
}

/// The backends a configuration allows. An explicit choice is the only one tried.
pub fn backends_for(backend: GpuBackend) -> (b: Backends)
    ensures
        b == (match backend {
            GpuBackend::Auto => Backends::Environment,
            GpuBackend::Vulkan => Backends::Vulkan,
            GpuBackend::Metal => Backends::Metal,
            GpuBackend::Dx12 => Backends::Dx12,
            GpuBackend::Gl => Backends::Gl,
        }),
{
    match backend {
        GpuBackend::Auto => Backends::Environment,
        GpuBackend::Vulkan => Backends::Vulkan,
        GpuBackend::Metal => Backends::Metal,
        GpuBackend::Dx12 => Backends::Dx12,
        GpuBackend::Gl => Backends::Gl,
    }
}

/// Whether the window's corners are rounded here.
///
/// Decorations win: with the compositor drawing the frame, rounding would cut holes
/// inside its square border rather than shape the window.
pub fn rounds_corners(decorations: bool, has_radius: bool) -> (b: bool)
    ensures
        b == (!decorations && has_radius),
{
    !decorations && has_radius
}

/// Whether the surface has to let the desktop through.
///
/// Rounded corners need that as much as opacity does: the pixels outside the curve are
/// written with zero alpha, and an opaque mode turns them black.
pub fn wants_transparency(translucent: bool, decorations: bool, has_radius: bool) -> (b: bool)
    ensures
        b == (translucent || (!decorations && has_radius)),
{
    translucent || rounds_corners(decorations, has_radius)
}

fn offers_alpha(available: &[AlphaMode], mode: AlphaMode) -> (b: bool)
    ensures
        b == available@.contains(mode),
{
    let mut i: usize = 0;
    while i < available.len()
        invariant
            i <= available@.len(),
            forall|j: int| 0 <= j < i ==> available@[j] != mode,
        decreases available@.len() - i,
    {
        if available[i] == mode {
            assert(available@[i as int] == mode);
            return true;
        }
        i += 1;
    }
    false
}

/// The mode transparency is had by: the first of three that is offered.
pub open spec fn transparent_mode(available: Seq<AlphaMode>) -> AlphaMode {
    if available.contains(AlphaMode::PreMultiplied) {
        AlphaMode::PreMultiplied
    } else if available.contains(AlphaMode::PostMultiplied) {
        AlphaMode::PostMultiplied
    } else if available.contains(AlphaMode::Inherit) {
        AlphaMode::Inherit
    } else {
        AlphaMode::Opaque
    }
}

/// Choose an alpha mode, falling back to opaque when transparency is unsupported: that
/// costs the user their transparency, not their terminal. Says too whether colors must
/// be premultiplied.
pub fn pick_alpha_mode(available: &[AlphaMode], want_transparency: bool) -> (r: (AlphaMode, bool))
    ensures
        r.0 == (if want_transparency {
            transparent_mode(available@)
        } else {
            AlphaMode::Opaque
        }),
        r.0 != AlphaMode::Opaque ==> available@.contains(r.0),
        r.1 == (r.0 == AlphaMode::PreMultiplied),
{
    if !want_transparency {
        return (AlphaMode::Opaque, false);
    }
    if offers_alpha(available, AlphaMode::PreMultiplied) {
        return (AlphaMode::PreMultiplied, true);
    }
    if offers_alpha(available, AlphaMode::PostMultiplied) {
        return (AlphaMode::PostMultiplied, false);
    }
    if offers_alpha(available, AlphaMode::Inherit) {
        return (AlphaMode::Inherit, false);
    }
    (AlphaMode::Opaque, false)
}

fn offers_present(available: &[PresentMode], mode: PresentMode) -> (b: bool)
    ensures
        b == available@.contains(mode),
{
    let mut i: usize = 0;
    while i < available.len()
        invariant
            i <= available@.len(),
            forall|j: int| 0 <= j < i ==> available@[j] != mode,
        decreases available@.len() - i,
    {
        if available[i] == mode {
            assert(available@[i as int] == mode);
            return true;
        }
        i += 1;
    }
    false
}

/// Choose when frames reach the display.
///
/// With vsync, a mode that never tears but does not make the client wait either, when
/// there is one, else the one every backend supports. Without it, the first mode offered
/// that does not wait, and vsync again when there is none.
pub fn pick_present_mode(available: &[PresentMode], vsync: bool) -> (mode: PresentMode)
    ensures
        mode == (if vsync {
            if available@.contains(PresentMode::Mailbox) {
                PresentMode::Mailbox
            } else {
                PresentMode::AutoVsync
            }
        } else if available@.contains(PresentMode::Immediate) {
            PresentMode::Immediate
        } else if available@.contains(PresentMode::Mailbox) {
            PresentMode::Mailbox
        } else if available@.contains(PresentMode::AutoNoVsync) {
            PresentMode::AutoNoVsync
        } else {
            PresentMode::AutoVsync
        }),
{
    if vsync {
        if offers_present(available, PresentMode::Mailbox) {
            return PresentMode::Mailbox;
        }
        return PresentMode::AutoVsync;
    }
    if offers_present(available, PresentMode::Immediate) {
        return PresentMode::Immediate;
    }
    if offers_present(available, PresentMode::Mailbox) {
        return PresentMode::Mailbox;
    }
    if offers_present(available, PresentMode::AutoNoVsync) {
        return PresentMode::AutoNoVsync;
    }
    PresentMode::AutoVsync
}

/// The mode put in place when the configuration is read again.
pub fn reloaded_present_mode(vsync: bool) -> (mode: PresentMode)
    ensures
        mode == (if vsync {
            PresentMode::AutoVsync
        } else {
            PresentMode::AutoNoVsync
        }),
{
    if vsync {
        PresentMode::AutoVsync
    } else {
        PresentMode::AutoNoVsync
    }
}

/// The first format that is gamma-encoded by the hardware, if any: `encoded` says it of
/// each format the surface offers.
pub fn pick_format(encoded: &Vec<bool>) -> (index: Option<usize>)
    ensures
        match index {
            Some(i) => i < encoded@.len() && encoded@[i as int] && forall|j: int|
                0 <= j < i ==> !encoded@[j],
            None => forall|j: int| 0 <= j < encoded@.len() ==> !encoded@[j],
        },
{
    let mut i: usize = 0;
    while i < encoded.len()
        invariant
            i <= encoded@.len(),
            forall|j: int| 0 <= j < i ==> !encoded@[j],
        decreases encoded@.len() - i,
    {
        if encoded[i] {
            return Some(i);
        }
        i += 1;
    }
    None
}

/// A size a surface or a viewport can be given: surfaces reject zero, and a freshly
/// mapped window can report it.
pub fn usable_size(width: u32, height: u32) -> (size: (u32, u32))
    ensures
        size.0 == (if width == 0 {
            1
        } else {
            width
        }),
        size.1 == (if height == 0 {
            1
        } else {
            height
        }),
{
    (
        if width == 0 {
            1
        } else {
            width
        },
        if height == 0 {
            1
        } else {
            height
        },
    )
}

/// Whether the swapchain has to be rebuilt for a new size. A zero size arrives when a
/// window is minimized and is ignored, and so is the size it already has.
pub fn needs_resize(current: (u32, u32), width: u32, height: u32) -> (b: bool)
    ensures
        b == (width != 0 && height != 0 && (width != current.0 || height != current.1)),
{
    width != 0 && height != 0 && (width != current.0 || height != current.1)
}

/// Initial capacity of the instance buffer: roughly a 200x50 grid of glyphs plus
/// backgrounds, so a normal window never reallocates on the first frame.
pub const INITIAL_INSTANCES: u64 = 16384;

/// The smallest power of two that is at least `n`.
pub open spec fn power_at_least(n: nat, p: nat) -> nat
    decreases 2 * n - p,
{
    if p >= n || p == 0 {
        p
    } else {
        power_at_least(n, p * 2)
    }
}

/// The capacity the instance buffer needs for `count` instances: its own while that is
/// enough, else the next power of two, so a steadily growing window does not reallocate
/// every frame.
pub fn grown_capacity(capacity: u64, count: u64) -> (grown: u64)
    requires
        count <= 0x8000_0000_0000_0000,
    ensures
        grown == (if count <= capacity {
            capacity as nat
        } else {
            power_at_least(count as nat, 1)
        }),
        grown >= count,
        grown > capacity ==> grown < 2 * count,
{
    if count <= capacity {
        return capacity;
    }
    let mut power: u64 = 1;
    while power < count
        invariant
            1 <= count <= 0x8000_0000_0000_0000,
            1 <= power,
            power < 2 * count,
            power_at_least(count as nat, 1) == power_at_least(count as nat, power as nat),
        decreases 2 * count - power,
    {
        power = power * 2;
    }
    power
}

/// The band of rows to upload: those of the dirty band that the atlas has.
pub fn upload_rows(y: u32, height: u32, atlas_height: u32) -> (rows: Option<u32>)
    ensures
        match rows {
            Some(n) => n > 0 && n <= height && y + n <= atlas_height && (n == height || y + n
                == atlas_height),
            None => height == 0 || y >= atlas_height,
        },
{
    let left: u32 = atlas_height.saturating_sub(y);
    let rows: u32 = if height < left {
        height
    } else {
        left
    };
    if rows == 0 {
        None
    } else {
        Some(rows)
    }
}

} // verus!
