//! A minimal retained-mode UI scene graph: entities carrying position, size
//! and frame components are composited into a fixed-size RGBA pixel buffer,
//! and a small voltage-controlled-oscillator abstraction produces periodic
//! waveform phases for a UI-attached audio parameter control.

pub mod render;
pub mod scene;
pub mod synth;
pub mod ui;
pub mod util;
