pub mod preview;
pub mod render;
pub mod render_laws;
pub mod report;
pub mod split_laws;
pub mod splitter;
pub mod text;
