//! The core of a viewer for 3D models, verified with Verus.
//!
//! [`parsing`] reads the description of a mesh: a text of vertices, normals,
//! texture points and faces. [`lexer`], [`number`] and [`index`] hold the
//! grammar of that text, and [`structure`] what holds of every mesh that was
//! read. [`rotation`] names the ways in which the object turns, [`event`]
//! says what the keys and the pointer do, and [`projection`] chooses the
//! plane of the texture points of a mesh that has none of its own.
//!
//! The library holds no floating-point number. The coordinates of a mesh are
//! kept as the literals of its text, and what is computed from their values
//! is left to the program that draws the mesh.

pub mod event;
pub mod index;
pub mod lexer;
pub mod number;
pub mod parsing;
pub mod projection;
pub mod rotation;
pub mod structure;
