//! Light-to-surface association for physically based map surfaces: which
//! lights each tagged surface receives, how engine connections that toggle
//! those lights become material-variable writes, and how the baked look-up
//! texture is laid out and encoded.
pub mod connections;
pub mod debug_state;
pub mod lights;
pub mod lut;
pub mod manifest;
pub mod plane;
pub mod rules;
pub mod selection;
pub mod selection_laws;
pub mod text;
pub mod vtf;
pub mod wiring;
