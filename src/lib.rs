//! Project scaffolding engine: a template is an ordered list of blueprints
//! that are prompted, then rendered, over one shared context; templates are
//! resolved across registries with blueprint-level overrides.
pub mod names;
pub mod context;
pub mod expand;
pub mod template_file;
pub mod blueprint;
pub mod template;
pub mod registry;
pub mod command;
