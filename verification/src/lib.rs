//! Listing of table formats: fetch results are rendered to a terminal either
//! as a formatted table or as a JSON document, depending on a caller-selected
//! output mode.

pub mod json;
pub mod records;
pub mod render;
pub mod table;
pub mod yaml;

pub use records::CliError;
pub use records::ListTableFormats;
pub use records::OutputType;
pub use records::Record;
pub use records::RenderError;
pub use records::TransportError;
pub use render::process_list_fetch;
pub use render::tableformats_response_to_output;
