//! The render pipeline: mode dispatch over a fetched collection, the fixed
//! notice for an empty collection, and the command-level step that either
//! propagates a fetch failure or renders the fetched records. Rendering is a
//! pure function of the collection and the mode; writing the text to a sink
//! is the caller's task.

use vstd::prelude::*;

use crate::json::encode_json;
use crate::json::json_list;
use crate::records::CliError;
use crate::records::ListTableFormats;
use crate::records::OutputType;
use crate::records::Record;
use crate::records::RecordView;
use crate::records::TransportError;
use crate::records::record_views;
use crate::table::content_cells;
use crate::table::header_cells;
use crate::table::sanitize_rows;
use crate::table::table_text_of;
use crate::yaml::encode_yaml;
use crate::yaml::yaml_doc;

verus! {

/// The fixed notice emitted when the fetched collection is empty, whatever
/// the selected mode.
pub open spec fn empty_notice() -> Seq<char> {
    "no tableformats"@
}

/// The text rendering produces for a collection in a mode: the fixed notice
/// when the collection is empty; otherwise the prettytable layout of the
/// fixed header and the record rows (each cell sanitized for layout) in
/// table mode, or the JSON or YAML document of the whole collection in
/// structured mode.
pub open spec fn rendered_output(rs: Seq<RecordView>, mode: OutputType) -> Seq<char> {
    if rs.len() == 0 {
        empty_notice()
    } else {
        match mode {
            OutputType::Table => table_text_of(header_cells(), sanitize_rows(content_cells(rs))),
            OutputType::Json => json_list(rs),
            OutputType::Yaml => yaml_doc(rs),
        }
    }
}

/// For an empty collection, rendering emits exactly the fixed empty notice,
/// in every output mode.
pub proof fn lemma_empty_render(rs: Seq<RecordView>, mode: OutputType)
    requires
        rs.len() == 0,
    ensures
        rendered_output(rs, mode) == empty_notice(),
{
}

/// Renders a fetched collection in the selected output mode. Never fails:
/// the table layout and the document encodings are total, and no sink is
/// written here.
pub fn tableformats_response_to_output(
    list_tableformats: ListTableFormats,
    output_type: OutputType,
) -> (r: String)
    ensures
        r@ == rendered_output(list_tableformats@, output_type),
{
    if list_tableformats.0.len() == 0 {
        String::from_str("no tableformats")
    } else {
        match output_type {
            OutputType::Table => list_tableformats.to_table_text(),
            OutputType::Json => encode_json(&list_tableformats),
            OutputType::Yaml => encode_yaml(&list_tableformats),
        }
    }
}

/// The command step after the remote fetch: a failed fetch is propagated
/// unchanged as a transport failure and nothing is rendered; a successful
/// fetch is rendered in the selected mode and the text handed back for the
/// caller to write.
pub fn process_list_fetch(
    fetch: Result<Vec<Record>, TransportError>,
    output_type: OutputType,
) -> (r: Result<String, CliError>)
    ensures
        match fetch {
            Result::Err(e) => r matches Result::Err(CliError::Transport(e2)) && e2 == e,
            Result::Ok(records) => r matches Result::Ok(s) && s@ == rendered_output(
                record_views(records@),
                output_type,
            ),
        },
{
    match fetch {
        Result::Err(e) => Result::Err(CliError::Transport(e)),
        Result::Ok(records) => {
            let list = ListTableFormats(records);
            Result::Ok(tableformats_response_to_output(list, output_type))
        },
    }
}

} // verus!
