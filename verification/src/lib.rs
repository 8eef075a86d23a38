//! A fixed-point wavetable synthesizer core.
//!
//! The crate generates audio samples by stepping a phase cursor through a
//! cyclic waveform table with linear interpolation, and shapes a sample
//! stream with a linear fade-out envelope of fixed duration.
//!
//! All amplitudes and phases are fixed-point integers: one amplitude or
//! phase unit is [`fixed::FP_ONE`]. A host that works in floating point
//! converts at the boundary.

pub mod envelope;
pub mod fixed;
pub mod oscillator;
pub mod source;
pub mod table;

pub use envelope::FadeOut;
pub use fixed::FP_ONE;
pub use oscillator::WaveTableOscillator;
pub use source::ConstantSource;
pub use source::SampleSource;
pub use table::InvalidConfiguration;
pub use table::WaveTable;
pub use table::square;
