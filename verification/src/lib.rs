//! The decisions of MinkaFX: which overlay a snap preview belongs to, where its
//! springs go, when it is drawn and when it sleeps.
//!
//! Everything here works on plain values. Windowing, the graphics device and
//! floating-point arithmetic stay with the caller, which performs what the
//! functions here ask for and hands the results back.

pub mod app;
pub mod app_laws;
pub mod laws;
pub mod message_laws;
pub mod number_laws;
pub mod overlay;
pub mod overlay_laws;
pub mod payload;
pub mod scalar;
pub mod spring;
pub mod uniform_laws;
pub mod uniforms;
