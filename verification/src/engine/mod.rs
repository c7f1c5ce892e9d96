//! Protocol-independent TTS/ASR model runtime.
//!
//! | Module          | Responsibility                                     |
//! |-----------------|----------------------------------------------------|
//! | `model_factory` | TTS/ASR model type detection and selection         |
//! | `runtime`       | `ModelRuntime` -- the loaded TTS and ASR models    |

pub mod model_factory;
pub mod runtime;
