//! Minimalist slide presentations: the document parser, the title deriver,
//! the colour codec and the layout engine, with machine-checked contracts.

pub mod codec;
pub mod controls;
pub mod layout;
pub mod pipeline_option;
pub mod presentation;
pub mod slides;
pub mod text;
pub mod title;
