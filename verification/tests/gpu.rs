//! What is asked of the graphics card.

use tuzminal::gpu::{
    backends_for, grown_capacity, needs_resize, pick_alpha_mode, pick_format, pick_present_mode,
    reloaded_present_mode, rounds_corners, upload_rows, usable_size, wants_transparency, Acquired,
    AlphaMode, Backends, FrameOutcome, GpuBackend, PresentMode,
};

#[test]
fn opaque_is_chosen_when_transparency_is_not_wanted() {
    let (mode, premul) = pick_alpha_mode(&[AlphaMode::PreMultiplied], false);
    assert_eq!(mode, AlphaMode::Opaque);
    assert!(!premul);
}

#[test]
fn premultiplied_is_preferred_for_transparency() {
    let (mode, premul) = pick_alpha_mode(&[AlphaMode::PostMultiplied, AlphaMode::PreMultiplied], true);
    assert_eq!(mode, AlphaMode::PreMultiplied);
    assert!(premul, "premultiplication must be reported to the caller");
}

#[test]
fn post_multiplied_is_used_when_premultiplied_is_absent() {
    let (mode, premul) = pick_alpha_mode(&[AlphaMode::PostMultiplied], true);
    assert_eq!(mode, AlphaMode::PostMultiplied);
    assert!(!premul, "post-multiplied must not premultiply");
}

#[test]
fn transparency_falls_back_to_opaque_rather_than_failing() {
    let (mode, premul) = pick_alpha_mode(&[AlphaMode::Opaque], true);
    assert_eq!(mode, AlphaMode::Opaque);
    assert!(!premul);
}

#[test]
fn vsync_resolves_without_consulting_capabilities() {
    assert_eq!(pick_present_mode(&[], true), PresentMode::AutoVsync);
}

#[test]
fn disabling_vsync_picks_a_tearing_mode_when_available() {
    assert_eq!(
        pick_present_mode(&[PresentMode::Immediate], false),
        PresentMode::Immediate
    );
    assert_eq!(
        pick_present_mode(&[PresentMode::Mailbox], false),
        PresentMode::Mailbox
    );
}

#[test]
fn disabling_vsync_falls_back_when_no_tearing_mode_exists() {
    assert_eq!(
        pick_present_mode(&[PresentMode::Fifo], false),
        PresentMode::AutoVsync
    );
}

#[test]
fn explicit_backend_selection_is_honored() {
    assert_eq!(backends_for(GpuBackend::Vulkan), Backends::Vulkan);
    assert_eq!(backends_for(GpuBackend::Gl), Backends::Gl);
    assert_eq!(backends_for(GpuBackend::Metal), Backends::Metal);
}
#[test]
fn a_frame_follows_what_the_surface_gave() {
    assert_eq!(Acquired::Success.step().outcome, FrameOutcome::Presented);
    assert!(Acquired::Success.step().draw);
    assert_eq!(Acquired::Validation.step().outcome, FrameOutcome::Fatal);
    assert_eq!(Acquired::Timeout.step().outcome, FrameOutcome::Skipped);
    assert!(Acquired::Lost.step().recover);
    assert_eq!(Acquired::Lost.step().outcome, FrameOutcome::Redraw);
    assert!(Acquired::Suboptimal.step().draw && Acquired::Suboptimal.step().recover);
}

#[test]
fn sizes_and_capacities_are_usable() {
    assert_eq!(usable_size(0, 5), (1, 5));
    assert!(!needs_resize((10, 10), 0, 5));
    assert!(!needs_resize((10, 10), 10, 10));
    assert!(needs_resize((10, 10), 11, 10));
    assert_eq!(grown_capacity(16, 10), 16);
    assert_eq!(grown_capacity(16, 17), 32);
    assert_eq!(upload_rows(2, 5, 10), Some(5));
    assert_eq!(upload_rows(8, 5, 10), Some(2));
    assert_eq!(upload_rows(10, 5, 10), None);
    assert_eq!(pick_format(&vec![false, true, true]), Some(1));
    assert_eq!(pick_format(&vec![false]), None);
}

#[test]
fn transparency_is_wanted_for_opacity_and_for_corners() {
    assert!(wants_transparency(true, true, false));
    assert!(wants_transparency(false, false, true));
    assert!(!wants_transparency(false, true, true));
    assert!(!rounds_corners(true, true));
    assert_eq!(reloaded_present_mode(true), PresentMode::AutoVsync);
    assert_eq!(reloaded_present_mode(false), PresentMode::AutoNoVsync);
}
