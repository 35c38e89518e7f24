//! The response building blocks: follow-up actions with optional parameter
//! descriptions, and the error detail carried in a failed envelope.

use vstd::prelude::*;
use vstd::string::StringExecFns;
use std::collections::HashMap;

verus! {

/// A follow-up command a caller can run next, with a description and
/// optional parameter specifications.
#[derive(Debug)]
pub struct NextAction {
    pub command: String,
    pub description: String,
    pub params: Option<HashMap<String, ParamSpec>>,
}

/// How one parameter of a follow-up command is described: free text, a
/// concrete value, a default, or an enumeration of admissible values.
#[derive(Debug)]
pub struct ParamSpec {
    pub description: Option<String>,
    pub value: Option<String>,
    pub default: Option<String>,
    pub enum_values: Option<Vec<String>>,
}

/// The error detail of a failed response: message, stable code, and whether
/// the caller may usefully retry.
#[derive(Debug)]
pub struct ErrorDetail {
    pub message: String,
    pub code: String,
    pub retryable: Option<bool>,
}

impl NextAction {
    /// A follow-up command with no parameter specifications.
    pub fn simple(command: &str, description: &str) -> (r: NextAction)
        ensures
            r.command@ == command@,
            r.description@ == description@,
            r.params is None,
    {
        NextAction {
            command: <String as StringExecFns>::from_str(command),
            description: <String as StringExecFns>::from_str(description),
            params: None,
        }
    }

    /// A follow-up command with parameter specifications.
    pub fn with_params(command: &str, description: &str, params: HashMap<String, ParamSpec>) -> (r:
        NextAction)
        ensures
            r.command@ == command@,
            r.description@ == description@,
            r.params is Some,
    {
        NextAction {
            command: <String as StringExecFns>::from_str(command),
            description: <String as StringExecFns>::from_str(description),
            params: Some(params),
        }
    }
}

impl ParamSpec {
    /// A parameter carrying a concrete value.
    pub fn value(val: &str) -> (r: ParamSpec)
        ensures
            r.description is None,
            r.value matches Some(v) && v@ == val@,
            r.default is None,
            r.enum_values is None,
    {
        ParamSpec {
            description: None,
            value: Some(<String as StringExecFns>::from_str(val)),
            default: None,
            enum_values: None,
        }
    }

    /// A parameter carrying only a description.
    pub fn described(desc: &str) -> (r: ParamSpec)
        ensures
            r.description matches Some(d) && d@ == desc@,
            r.value is None,
            r.default is None,
            r.enum_values is None,
    {
        ParamSpec {
            description: Some(<String as StringExecFns>::from_str(desc)),
            value: None,
            default: None,
            enum_values: None,
        }
    }

    /// A parameter carrying a description and a default value.
    pub fn with_default(desc: &str, default: &str) -> (r: ParamSpec)
        ensures
            r.description matches Some(d) && d@ == desc@,
            r.value is None,
            r.default matches Some(d) && d@ == default@,
            r.enum_values is None,
    {
        ParamSpec {
            description: Some(<String as StringExecFns>::from_str(desc)),
            value: None,
            default: Some(<String as StringExecFns>::from_str(default)),
            enum_values: None,
        }
    }
}

} // verus!
