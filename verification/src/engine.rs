//! Decision logic of the session manager's capture operations, and the
//! observer-handle discipline the transport layer uses to reach the
//! engine after a possible shutdown.
//!
//! The live browser work — finding the element, measuring its box,
//! encoding the PNG — happens in the unverified shell; what is verified
//! here is every decision: which screenshot to request for which lookup
//! outcome, and that a missing element is an `ElementNotFound` failure,
//! never an empty image.

use vstd::prelude::*;
use crate::schema::EngineError;

verus! {

/// An element's box on the page, in integer device pixels as the shell
/// rounds the backend's measurements.
#[derive(Debug, Clone, Copy, PartialEq, Eq, Structural)]
pub struct BoundingBox {
    pub x: i64,
    pub y: i64,
    pub width: u64,
    pub height: u64,
}

/// The screenshot the shell must request from the backend: either clipped
/// to one element's box at scale 1, or the full page.
#[derive(Debug, Clone, Copy, PartialEq, Eq, Structural)]
pub struct ScreenshotSpec {
    pub clip: Option<BoundingBox>,
    pub full_page: bool,
}

/// The screenshot owed for an element lookup's outcome.
pub open spec fn spec_plan_element_capture(found: Option<BoundingBox>) -> Result<
    ScreenshotSpec,
    EngineError,
> {
    match found {
        None => Err(EngineError::ElementNotFound),
        Some(b) => Ok(ScreenshotSpec { clip: Some(b), full_page: false }),
    }
}

/// Law: a selector that matched no element fails with `ElementNotFound`;
/// no screenshot — empty or otherwise — is ever requested for it.
pub proof fn lemma_capture_requires_element(found: Option<BoundingBox>)
    ensures
        found is None <==> spec_plan_element_capture(found) == Err::<ScreenshotSpec, EngineError>(
            EngineError::ElementNotFound,
        ),
        found is Some ==> spec_plan_element_capture(found) == Ok::<ScreenshotSpec, EngineError>(
            ScreenshotSpec { clip: Some(found->0), full_page: false },
        ),
{
}

/// Decides the element-capture request: the first matching element's box
/// becomes the clip; no match is an error, never an empty image.
pub fn plan_element_capture(found: Option<BoundingBox>) -> (r: Result<ScreenshotSpec, EngineError>)
    ensures
        r == spec_plan_element_capture(found),
{
    match found {
        None => Err(EngineError::ElementNotFound),
        Some(b) => Ok(ScreenshotSpec { clip: Some(b), full_page: false }),
    }
}

/// Decides the full-page capture request: no clip, whole page.
pub fn plan_full_page_capture() -> (r: ScreenshotSpec)
    ensures
        r == (ScreenshotSpec { clip: None, full_page: true }),
{
    ScreenshotSpec { clip: None, full_page: true }
}

/// The engine registry the transport layer's handles resolve through: a
/// generation token plus whether that generation is still live.  Shutdown
/// bumps nothing but `live`; a stale or dead handle resolves to
/// `EngineUnavailable` rather than dangling.
#[derive(Debug, Clone, Copy, PartialEq, Eq, Structural)]
pub struct EngineRegistry {
    pub generation: u64,
    pub live: bool,
}

/// Whether a handle made for `handle_generation` may reach the engine.
pub open spec fn spec_handle_resolves(handle_generation: u64, reg: EngineRegistry) -> bool {
    reg.live && handle_generation == reg.generation
}

/// Resolves an observer handle against the registry.
pub fn resolve_handle(handle_generation: u64, reg: &EngineRegistry) -> (r: Result<(), EngineError>)
    ensures
        r is Ok <==> spec_handle_resolves(handle_generation, *reg),
        r is Err ==> r == Err::<(), EngineError>(EngineError::EngineUnavailable),
{
    if reg.live && handle_generation == reg.generation {
        Ok(())
    } else {
        Err(EngineError::EngineUnavailable)
    }
}

/// Marks the registry shut down; idempotent.
pub fn shutdown_registry(reg: &mut EngineRegistry)
    ensures
        final(reg).live == false,
        final(reg).generation == old(reg).generation,
{
    reg.live = false;
}

/// Law: after shutdown every handle, of any generation, resolves to
/// unavailable.
pub proof fn lemma_shutdown_unavailable(handle_generation: u64, reg: EngineRegistry)
    requires
        !reg.live,
    ensures
        !spec_handle_resolves(handle_generation, reg),
{
}

} // verus!
