//! Diagnostics: what went wrong, where in the record, and how to mend it.
use vstd::prelude::*;

verus! {

#[derive(Clone, Copy, Debug, PartialEq, Eq, Structural)]
pub enum Severity {
    Advice,
    Warning,
    Error,
}

/// A labelled byte range `offset .. offset + len` of a diagnostic's source.
pub struct LabelSpan {
    pub offset: usize,
    pub len: usize,
    pub label: String,
}

impl LabelSpan {
    /// The span `start .. end`.
    pub fn at(start: usize, end: usize, label: String) -> (r: LabelSpan)
        requires
            start <= end,
        ensures
            r.offset == start,
            r.len == end - start,
            r.label == label,
    {
        LabelSpan { offset: start, len: end - start, label }
    }

    /// The empty span at `offset`.
    pub fn at_offset(offset: usize, label: String) -> (r: LabelSpan)
        ensures
            r.offset == offset,
            r.len == 0,
            r.label == label,
    {
        LabelSpan { offset, len: 0, label }
    }
}

/// A diagnostic about the text of a record.
pub struct SyntaxError {
    pub message: String,
    /// `None` stands for `Error`.
    pub severity: Option<Severity>,
    /// The excerpt of the record that the labels point into.
    pub src: Option<String>,
    pub src_labels: Option<Vec<LabelSpan>>,
    pub help: Option<String>,
    pub code: Option<String>,
    pub code_url: Option<String>,
}

impl SyntaxError {
    pub fn new(message: String) -> (r: SyntaxError)
        ensures
            r.message == message,
            r.severity is None,
            r.src is None,
            r.src_labels is None,
            r.help is None,
            r.code is None,
            r.code_url is None,
    {
        SyntaxError {
            message,
            severity: None,
            src: None,
            src_labels: None,
            help: None,
            code: None,
            code_url: None,
        }
    }

    pub fn with_src(self, src: String) -> (r: SyntaxError)
        ensures
            r == (SyntaxError { src: Some(src), ..self }),
    {
        SyntaxError { src: Some(src), ..self }
    }

    pub fn with_src_labels(self, labels: Vec<LabelSpan>) -> (r: SyntaxError)
        ensures
            r == (SyntaxError { src_labels: Some(labels), ..self }),
    {
        SyntaxError { src_labels: Some(labels), ..self }
    }

    pub fn with_severity(self, severity: Severity) -> (r: SyntaxError)
        ensures
            r == (SyntaxError { severity: Some(severity), ..self }),
    {
        SyntaxError { severity: Some(severity), ..self }
    }

    pub fn with_help(self, help: String) -> (r: SyntaxError)
        ensures
            r == (SyntaxError { help: Some(help), ..self }),
    {
        SyntaxError { help: Some(help), ..self }
    }

    /// Sets the code, and the URL where one is given.
    pub fn with_code(self, code: String, url: Option<String>) -> (r: SyntaxError)
        ensures
            r.code == Some(code),
            r.code_url == (match url {
                Some(u) => Some(u),
                None => self.code_url,
            }),
            r.message == self.message,
            r.severity == self.severity,
            r.src == self.src,
            r.src_labels == self.src_labels,
            r.help == self.help,
    {
        let code_url = match url {
            Some(u) => Some(u),
            None => self.code_url,
        };
        SyntaxError { code: Some(code), code_url, ..self }
    }

    pub fn with_code_url(self, url: String) -> (r: SyntaxError)
        ensures
            r == (SyntaxError { code_url: Some(url), ..self }),
    {
        SyntaxError { code_url: Some(url), ..self }
    }
}

/// A rule that rejected the record, in a line and a sentence.
pub struct CheckError {
    pub summary: String,
    pub description: String,
}

pub enum SpfError {
    /// The domain publishes no TXT record that starts with `v=spf1`.
    NoSpfRecordFound(String),
    CheckFailed(CheckError),
    SyntaxError(SyntaxError),
    /// The DNS resolver failed to answer a query.
    DnsQueryFailed(String),
    /// `include:` and `redirect=` nest deeper than the resolver follows.
    NestingTooDeep(String),
}

impl From<CheckError> for SpfError {
    fn from(err: CheckError) -> (r: SpfError)
        ensures
            r == SpfError::CheckFailed(err),
    {
        SpfError::CheckFailed(err)
    }
}

impl vstd::std_specs::convert::FromSpecImpl<CheckError> for SpfError {
    open spec fn obeys_from_spec() -> bool {
        true
    }

    open spec fn from_spec(v: CheckError) -> SpfError {
        SpfError::CheckFailed(v)
    }
}

impl From<SyntaxError> for SpfError {
    fn from(err: SyntaxError) -> (r: SpfError)
        ensures
            r == SpfError::SyntaxError(err),
    {
        SpfError::SyntaxError(err)
    }
}

impl vstd::std_specs::convert::FromSpecImpl<SyntaxError> for SpfError {
    open spec fn obeys_from_spec() -> bool {
        true
    }

    open spec fn from_spec(v: SyntaxError) -> SpfError {
        SpfError::SyntaxError(v)
    }
}

} // verus!
