pub mod component;
pub mod control;
pub mod hex;
pub mod json;
pub mod llm_call;
pub mod pom;
pub mod pom_cursor;
pub mod pom_diff;
pub mod pom_diff_laws;
pub mod pom_model_laws;
pub mod pom_patch_order_laws;
pub mod pom_laws;
pub mod pom_render_laws;
pub mod pom_renderer;
pub mod pom_resolution;
pub mod pom_resolution_laws;
pub mod prompt_context;
pub mod table;
pub mod text_chars;
