//! Reporting, highlighting, the pipeline's stages and the viewer's state.
pub mod gui_app;
pub mod highlight;
pub mod pipeline;
pub mod report_assembler;
