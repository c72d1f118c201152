//! What the rendering demos share: a graphics instance chosen from the
//! environment, the bundle a renderer starts from, and window sizes.
use vstd::prelude::*;

verus! {

#[verifier::external_type_specification]
#[verifier::external_body]
pub struct ExInstance(wgpu::Instance);

#[verifier::external_type_specification]
#[verifier::external_body]
pub struct ExBackends(wgpu::Backends);

#[verifier::external_type_specification]
#[verifier::external_body]
pub struct ExSurface<'window>(wgpu::Surface<'window>);

#[verifier::external_type_specification]
#[verifier::external_body]
pub struct ExAnyhowError(anyhow::Error);

/// Relies on `wgpu::Backends::from_env`: the backends that the `WGPU_BACKEND`
/// environment variable names, or `None` when it is unset.
pub assume_specification[ wgpu::Backends::from_env ]() -> Option<wgpu::Backends>;

/// Relies on `Default for wgpu::Backends`: every backend.
pub assume_specification[ <wgpu::Backends as core::default::Default>::default ]() -> wgpu::Backends;

/// Relies on `wgpu::Instance::new`: an instance on `backends`, every other
/// option at its default. It panics only in a build without any backend
/// for the target; this crate builds wgpu with its default backends.
#[verifier::external_body]
fn instance_with_backends(backends: wgpu::Backends) -> wgpu::Instance {
    wgpu::Instance::new(&wgpu::InstanceDescriptor { backends, ..Default::default() })
}

/// A graphics instance on the backends that `WGPU_BACKEND` names, or on every
/// backend when it is unset.
pub fn wgpu_instance_with_env_backend() -> wgpu::Instance {
    let backends = match wgpu::Backends::from_env() {
        Some(b) => b,
        None => wgpu::Backends::default(),
    };
    instance_with_backends(backends)
}

/// What a renderer starts from: an instance, the surface it draws to, and the
/// surface's size in pixels.
pub struct WgpuStateInitInfo {
    pub instance: wgpu::Instance,
    pub surface: wgpu::Surface<'static>,
    pub size: (u32, u32),
}

/// A renderer that draws frames and follows its surface's size.
pub trait Animate {
    fn new(init_info: WgpuStateInitInfo) -> Result<Self, anyhow::Error> where Self: Sized;

    fn frame(&mut self) -> Result<(), anyhow::Error>;

    fn resize(&mut self, new_size: (u32, u32)) -> Result<(), anyhow::Error>;
}

/// A window's size in physical pixels, as `(width, height)`.
#[derive(Clone, Copy, Debug)]
pub struct WindowSizeWrapper(pub (u32, u32));

impl From<(u32, u32)> for WindowSizeWrapper {
    fn from(value: (u32, u32)) -> (r: WindowSizeWrapper)
        ensures
            r.0 == value,
    {
        WindowSizeWrapper(value)
    }
}

impl vstd::std_specs::convert::FromSpecImpl<(u32, u32)> for WindowSizeWrapper {
    open spec fn obeys_from_spec() -> bool {
        true
    }

    open spec fn from_spec(v: (u32, u32)) -> WindowSizeWrapper {
        WindowSizeWrapper(v)
    }
}

} // verus!
