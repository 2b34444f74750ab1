//! What can be wrong with evidence.

use vstd::prelude::*;
use vstd::string::StringExecFns;

verus! {

/// What is wrong with evidence.
#[derive(Clone, Debug, PartialEq, Eq)]
pub enum EvidenceError {
    /// An event lacks this.
    MissingField(&'static str),
    /// An event cannot be written as JSON, for the reason given.
    Serialize(String),
    /// A metric would have a value for each of too many things.
    HighCardinalityMetricLabel(String),
}

impl EvidenceError {
    /// What `message` says.
    pub open spec fn text(self) -> Seq<char> {
        match self {
            EvidenceError::MissingField(field) => "missing evidence field: "@ + field@,
            EvidenceError::Serialize(reason) => "serialization error: "@ + reason@,
            EvidenceError::HighCardinalityMetricLabel(label) =>
                "high-cardinality field is forbidden as a metric label: "@ + label@,
        }
    }

    /// The error in words.
    pub fn message(&self) -> (res: String)
        ensures
            res@ == self.text(),
    {
        match self {
            EvidenceError::MissingField(field) => {
                let mut out = "missing evidence field: ".to_owned();
                out.append(field);
                out
            },
            EvidenceError::Serialize(reason) => {
                let mut out = "serialization error: ".to_owned();
                out.append(reason.as_str());
                out
            },
            EvidenceError::HighCardinalityMetricLabel(label) => {
                let mut out = "high-cardinality field is forbidden as a metric label: ".to_owned();
                out.append(label.as_str());
                out
            },
        }
    }
}

/// An error says what is wrong and of what, each kind in words of its own.
pub proof fn law_errors_say_what_is_wrong(error: EvidenceError)
    ensures
        error matches EvidenceError::MissingField(field) ==> error.text()
            == "missing evidence field: "@ + field@,
        error matches EvidenceError::Serialize(reason) ==> error.text() == "serialization error: "@
            + reason@,
        error matches EvidenceError::HighCardinalityMetricLabel(label) ==> error.text()
            == "high-cardinality field is forbidden as a metric label: "@ + label@,
{
}

} // verus!
