//! What the daemon reports of its models: the list of installed models and
//! the list of loaded ones, as the caller fetched and decoded them.

use crate::size::{format_size, size_text};
use crate::text::{decimal, push_decimal, same_text};
use crate::transfer::{is_success, status_is_success};
use vstd::prelude::*;
use vstd::string::StringExecFns;

verus! {

/// What the size field of an installed model held.
#[derive(Clone, Debug)]
pub enum SizeValue {
    /// A whole number of bytes.
    Bytes(u64),
    /// A text, which is shown as it is.
    Text(String),
    /// Anything else, which is not shown.
    Other,
}

/// An installed model, as the daemon lists it.
#[derive(Clone, Debug)]
pub struct ModelInfo {
    pub name: String,
    pub size: Option<SizeValue>,
    pub modified_at: Option<String>,
}

/// A loaded model, as the daemon lists it.
#[derive(Clone, Debug)]
pub struct RunningModel {
    pub name: Option<String>,
}

/// The list of loaded models, as the daemon sends it.
#[derive(Clone, Debug)]
pub struct Processes {
    pub models: Option<Vec<RunningModel>>,
}

/// What came back for a request that asks the daemon for a list.
pub enum Reply<T> {
    /// The request got no answer.
    Unanswered,
    /// The daemon answered with `status`; `body` is what its answer
    /// decoded to, `None` where it could not be decoded.
    Answered { status: u16, body: Option<T> },
}

/// Why the list of installed models could not be had.
#[derive(Clone, Copy, PartialEq, Eq, Structural, Debug)]
pub enum ListingError {
    /// The request got no answer.
    Unanswered,
    /// The daemon answered with a status other than success.
    Status(u16),
    /// The answer could not be decoded.
    Undecodable,
}

/// The installed models that a reply holds: those of a decoded answer with
/// a status of success.
pub open spec fn listing(reply: Reply<Vec<ModelInfo>>) -> Result<Vec<ModelInfo>, ListingError> {
    match reply {
        Reply::Unanswered => Err(ListingError::Unanswered),
        Reply::Answered { status, body } => if !is_success(status) {
            Err(ListingError::Status(status))
        } else {
            match body {
                Some(models) => Ok(models),
                None => Err(ListingError::Undecodable),
            }
        },
    }
}

/// Whether one of the models has exactly the given name.
pub open spec fn holds_name(models: Seq<ModelInfo>, name: Seq<char>) -> bool {
    exists|i: int| 0 <= i < models.len() && (#[trigger] models[i]).name@ == name
}

/// Whether one of the loaded models has exactly the given name.
pub open spec fn is_loaded(models: Seq<RunningModel>, name: Seq<char>) -> bool {
    exists|i: int|
        0 <= i < models.len() && (#[trigger] models[i]).name is Some && models[i].name->0@ == name
}

/// Whether the reply reports the model as loaded. Any reply that holds no
/// list stands for `false`: the question never fails.
pub open spec fn reported_running(reply: Reply<Processes>, name: Seq<char>) -> bool {
    match reply {
        Reply::Answered { status, body: Some(processes) } => is_success(status) && (
        processes.models matches Some(models) && is_loaded(models@, name)),
        _ => false,
    }
}

/// Takes the installed models out of the reply to the request for them.
pub fn list_models(reply: Reply<Vec<ModelInfo>>) -> (r: Result<Vec<ModelInfo>, ListingError>)
    ensures
        r == listing(reply),
{
    match reply {
        Reply::Unanswered => Err(ListingError::Unanswered),
        Reply::Answered { status, body } => {
            if !status_is_success(status) {
                Err(ListingError::Status(status))
            } else {
                match body {
                    Some(models) => Ok(models),
                    None => Err(ListingError::Undecodable),
                }
            }
        },
    }
}

/// Tests whether one of the models has exactly the given name.
pub fn listing_holds(models: &Vec<ModelInfo>, name: &str) -> (b: bool)
    ensures
        b == holds_name(models@, name@),
{
    let mut i: usize = 0;
    while i < models.len()
        invariant
            i <= models.len(),
            forall|j: int| 0 <= j < i ==> (#[trigger] models@[j]).name@ != name@,
        decreases models.len() - i,
    {
        if same_text(models[i].name.as_str(), name) {
            return true;
        }
        i += 1;
    }
    false
}

/// Tells from the reply to the request for the installed models whether a
/// model of the given name is installed.
pub fn model_exists(reply: Reply<Vec<ModelInfo>>, name: &str) -> (r: Result<bool, ListingError>)
    ensures
        r == match listing(reply) {
            Ok(models) => Ok::<bool, ListingError>(holds_name(models@, name@)),
            Err(e) => Err(e),
        },
{
    match list_models(reply) {
        Ok(models) => Ok(listing_holds(&models, name)),
        Err(e) => Err(e),
    }
}

fn loaded_among(models: &Vec<RunningModel>, name: &str) -> (b: bool)
    ensures
        b == is_loaded(models@, name@),
{
    let mut i: usize = 0;
    while i < models.len()
        invariant
            i <= models.len(),
            forall|j: int|
                0 <= j < i ==> !((#[trigger] models@[j]).name is Some && models@[j].name->0@
                    == name@),
        decreases models.len() - i,
    {
        match &models[i].name {
            Some(n) => {
                if same_text(n.as_str(), name) {
                    return true;
                }
            },
            None => {},
        }
        i += 1;
    }
    false
}

/// Tells from the reply to the request for the loaded models whether the
/// model of the given name is loaded.
pub fn model_is_running(reply: &Reply<Processes>, name: &str) -> (b: bool)
    ensures
        b == reported_running(*reply, name@),
{
    match reply {
        Reply::Answered { status, body: Some(processes) } => {
            if !status_is_success(*status) {
                return false;
            }
            match &processes.models {
                Some(models) => loaded_among(models, name),
                None => false,
            }
        },
        _ => false,
    }
}

/// The text that reports why the list of installed models could not be
/// had; `detail` is what the failed request left behind.
pub open spec fn listing_error_text(error: ListingError, detail: Seq<char>) -> Seq<char> {
    match error {
        ListingError::Unanswered => "GET /api/tags failed: "@ + detail,
        ListingError::Status(status) => "GET /api/tags -> HTTP "@ + decimal(status as nat),
        ListingError::Undecodable => "Decode /api/tags JSON: "@ + detail,
    }
}

/// Writes the text that reports why the list of installed models could not
/// be had.
pub fn describe_listing_error(error: ListingError, detail: &str) -> (r: String)
    ensures
        r@ == listing_error_text(error, detail@),
{
    match error {
        ListingError::Unanswered => {
            let mut r = String::from_str("GET /api/tags failed: ");
            r.append(detail);
            r
        },
        ListingError::Status(status) => {
            let mut r = String::from_str("GET /api/tags -> HTTP ");
            push_decimal(&mut r, status as u64);
            r
        },
        ListingError::Undecodable => {
            let mut r = String::from_str("Decode /api/tags JSON: ");
            r.append(detail);
            r
        },
    }
}

/// The text shown for a size field; `None` where it is not shown.
pub open spec fn size_label(size: SizeValue) -> Option<Seq<char>> {
    match size {
        SizeValue::Bytes(bytes) => Some(size_text(bytes)),
        SizeValue::Text(text) => Some(text@),
        SizeValue::Other => None,
    }
}

/// The line shown for a model: its name, then its size in brackets where
/// it is shown, then the time of its last change where it has one.
pub open spec fn model_line(model: ModelInfo) -> Seq<char> {
    let with_size = match model.size {
        Some(size) => match size_label(size) {
            Some(label) => model.name@ + "  ("@ + label + ")"@,
            None => model.name@,
        },
        None => model.name@,
    };
    match model.modified_at {
        Some(at) => with_size + "  \u{2022} "@ + at@,
        None => with_size,
    }
}

/// Writes the text shown for a size field.
pub fn fmt_size_value(size: &SizeValue) -> (r: Option<String>)
    ensures
        r is Some == size_label(*size) is Some,
        r matches Some(text) ==> size_label(*size) == Some(text@),
{
    match size {
        SizeValue::Bytes(bytes) => Some(format_size(*bytes)),
        SizeValue::Text(text) => Some(text.clone()),
        SizeValue::Other => None,
    }
}

/// Writes the line shown for a model.
pub fn format_model(model: &ModelInfo) -> (r: String)
    ensures
        r@ == model_line(*model),
{
    let mut r = model.name.clone();
    match &model.size {
        Some(size) => {
            match fmt_size_value(size) {
                Some(label) => {
                    r.append("  (");
                    r.append(label.as_str());
                    r.append(")");
                },
                None => {},
            }
        },
        None => {},
    }
    match &model.modified_at {
        Some(at) => {
            r.append("  \u{2022} ");
            r.append(at.as_str());
        },
        None => {},
    }
    r
}

} // verus!
