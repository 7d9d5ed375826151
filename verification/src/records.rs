//! The data model: one metadata record per listed resource, an ordered
//! collection of them, the caller-selected output mode, and the error
//! taxonomy of the list command.

use vstd::prelude::*;

verus! {

/// One retrieved resource record: a metadata wrapper around a resource
/// specification. `name` identifies the resource, `status` is its state
/// descriptor in string form, and `spec_payload` is the resource-specific
/// payload, which the renderer carries through opaquely.
#[derive(Clone, Debug)]
pub struct Record {
    pub name: String,
    pub status: String,
    pub spec_payload: String,
}

/// The mathematical view of a [`Record`]: its three fields as character
/// sequences.
pub struct RecordView {
    pub name: Seq<char>,
    pub status: Seq<char>,
    pub spec_payload: Seq<char>,
}

impl View for Record {
    type V = RecordView;

    open spec fn view(&self) -> RecordView {
        RecordView { name: self.name@, status: self.status@, spec_payload: self.spec_payload@ }
    }
}

/// The views of a sequence of records, in the same order.
pub open spec fn record_views(rs: Seq<Record>) -> Seq<RecordView> {
    rs.map_values(|r: Record| r@)
}

/// The ordered result set of one list fetch, in the order the remote
/// service returned it. Rendering never reorders it.
pub struct ListTableFormats(pub Vec<Record>);

impl View for ListTableFormats {
    type V = Seq<RecordView>;

    open spec fn view(&self) -> Seq<RecordView> {
        record_views(self.0@)
    }
}

/// The caller-selected rendering target: a formatted table, or the whole
/// collection serialized as a JSON or YAML document. The set of modes is
/// closed.
#[derive(Clone, Copy, Debug, PartialEq, Eq, Structural)]
pub enum OutputType {
    Table,
    Json,
    Yaml,
}

/// Failure of the remote fetch: the administrative client could not be
/// reached, or the remote rejected the request. Never produced locally;
/// the caller that performs the fetch hands it in, and it is propagated
/// unchanged.
#[derive(Clone, Debug)]
pub struct TransportError {
    pub message: String,
}

/// Failure while producing output: the structured encoding failed, or the
/// output sink refused data. The sink lives outside this library, so
/// `Write` errors are constructed by the caller that owns the sink.
#[derive(Clone, Debug)]
pub enum RenderError {
    Serialization(String),
    Write(String),
}

/// The command-level failure: every error propagates to the command
/// boundary as one of these, none is swallowed or retried.
#[derive(Clone, Debug)]
pub enum CliError {
    Transport(TransportError),
    Render(RenderError),
}

} // verus!
