use vstd::prelude::*;

pub mod text;
pub mod attribute_types;
pub mod url;
pub mod extra_attributes;
pub mod element_categories;
pub mod elements;
pub mod parser;
pub mod transforms;
pub mod renderer;
pub mod token;
pub mod target;
pub mod cartesian;

verus! {
} // verus!
