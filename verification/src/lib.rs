//! Mathematical core of a particle-in-cell / material-point simulation:
//! dimension-generic interpolation basis functions evaluated over exact
//! rational scalars, and a mesh representation with a recursive,
//! dimension-aware connectivity model.

pub mod rational;
pub mod basis;
pub mod mesh;
