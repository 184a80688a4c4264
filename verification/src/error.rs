//! The failures of the pipeline. Every stage fails fast: the first failure
//! ends the run.

use vstd::prelude::*;
use vstd::string::StringExecFns;

verus! {

/// Why a run ended.
#[derive(Debug, PartialEq)]
pub enum PipelineError {
    /// A source answered with a status that is no success.
    Network { status: u16, url: String },
    /// A field held text that is no date mask, no number or no valid reply.
    Parse { field: String, raw_value: String },
    /// A document or a table has not the shape that its reader expects.
    Format { description: String },
    /// A file could not be read.
    Io { path: String },
    /// A setting is missing.
    Config { missing_key: String },
    /// The tables cannot be joined.
    Join { reason: String },
}

/// The kind of a failure, without its context.
#[derive(Clone, Copy, PartialEq, Eq, Structural, Debug)]
pub enum Failure {
    Network,
    Parse,
    Format,
    Io,
    Config,
    Join,
}

/// What a `PipelineError` stands for in contracts: the failure with all
/// that it carries.
pub enum Fault {
    Network { status: u16, url: Seq<char> },
    Parse { field: Seq<char>, raw_value: Seq<char> },
    Format { description: Seq<char> },
    Io { path: Seq<char> },
    Config { missing_key: Seq<char> },
    Join { reason: Seq<char> },
}

impl Fault {
    /// The kind of this failure.
    pub open spec fn kind(self) -> Failure {
        match self {
            Fault::Network { .. } => Failure::Network,
            Fault::Parse { .. } => Failure::Parse,
            Fault::Format { .. } => Failure::Format,
            Fault::Io { .. } => Failure::Io,
            Fault::Config { .. } => Failure::Config,
            Fault::Join { .. } => Failure::Join,
        }
    }
}

impl View for PipelineError {
    type V = Fault;

    open spec fn view(&self) -> Fault {
        match self {
            PipelineError::Network { status, url } => Fault::Network { status: *status, url: url@ },
            PipelineError::Parse { field, raw_value } => Fault::Parse {
                field: field@,
                raw_value: raw_value@,
            },
            PipelineError::Format { description } => Fault::Format { description: description@ },
            PipelineError::Io { path } => Fault::Io { path: path@ },
            PipelineError::Config { missing_key } => Fault::Config { missing_key: missing_key@ },
            PipelineError::Join { reason } => Fault::Join { reason: reason@ },
        }
    }
}

impl PipelineError {
    /// The kind of this failure.
    pub open spec fn failure(&self) -> Failure {
        self@.kind()
    }

    /// The kind of this failure.
    pub fn kind(&self) -> (kind: Failure)
        ensures
            kind == self.failure(),
    {
        match self {
            PipelineError::Network { .. } => Failure::Network,
            PipelineError::Parse { .. } => Failure::Parse,
            PipelineError::Format { .. } => Failure::Format,
            PipelineError::Io { .. } => Failure::Io,
            PipelineError::Config { .. } => Failure::Config,
            PipelineError::Join { .. } => Failure::Join,
        }
    }

    /// A failure of shape, described in words.
    pub fn format(description: &str) -> (error: Self)
        ensures
            error@ == (Fault::Format { description: description@ }),
    {
        PipelineError::Format { description: String::from_str(description) }
    }

    /// A failure of a join, with its reason in words.
    pub fn join(reason: &str) -> (error: Self)
        ensures
            error@ == (Fault::Join { reason: reason@ }),
    {
        PipelineError::Join { reason: String::from_str(reason) }
    }

    /// A failure to read a field's text.
    pub fn parse(field: &str, raw_value: &str) -> (error: Self)
        ensures
            error@ == (Fault::Parse { field: field@, raw_value: raw_value@ }),
    {
        PipelineError::Parse {
            field: String::from_str(field),
            raw_value: String::from_str(raw_value),
        }
    }

    /// A failure of the network, with the status and the address.
    pub fn network(status: u16, url: &str) -> (error: Self)
        ensures
            error@ == (Fault::Network { status, url: url@ }),
    {
        PipelineError::Network { status, url: String::from_str(url) }
    }

    /// A failure of configuration, with the key that is missing.
    pub fn config(missing_key: &str) -> (error: Self)
        ensures
            error@ == (Fault::Config { missing_key: missing_key@ }),
    {
        PipelineError::Config { missing_key: String::from_str(missing_key) }
    }

    /// The failure's kind and context, in one line.
    pub fn message(&self) -> (line: String)
        ensures
            line@ == self.line(),
    {
        match self {
            PipelineError::Network { status: _, url } => String::from_str(
                "network error: ",
            ).concat(url.as_str()),
            PipelineError::Parse { field, raw_value } => String::from_str("parse error: ").concat(
                field.as_str(),
            ).concat(": ").concat(raw_value.as_str()),
            PipelineError::Format { description } => String::from_str("format error: ").concat(
                description.as_str(),
            ),
            PipelineError::Io { path } => String::from_str("io error: ").concat(path.as_str()),
            PipelineError::Config { missing_key } => String::from_str("config error: ").concat(
                missing_key.as_str(),
            ),
            PipelineError::Join { reason } => String::from_str("join error: ").concat(
                reason.as_str(),
            ),
        }
    }

    /// What `message` returns.
    pub open spec fn line(&self) -> Seq<char> {
        match self {
            PipelineError::Network { status: _, url } => "network error: "@ + url@,
            PipelineError::Parse { field, raw_value } => "parse error: "@ + field@ + ": "@
                + raw_value@,
            PipelineError::Format { description } => "format error: "@ + description@,
            PipelineError::Io { path } => "io error: "@ + path@,
            PipelineError::Config { missing_key } => "config error: "@ + missing_key@,
            PipelineError::Join { reason } => "join error: "@ + reason@,
        }
    }
}

} // verus!
