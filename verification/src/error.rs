//! The errors of the bridge.

use vstd::prelude::*;

use crate::sys::VAStatus;
use crate::text::decimal;
use crate::text::decimal_text;
use crate::text::joined;

verus! {

/// Errors of the VA-API bridge.
#[derive(Clone, Debug)]
pub enum VaError {
    /// The render node could not be opened; holds the operating system's
    /// description.
    OpenDrm(String),
    /// `vaGetDisplayDRM` returned the null handle.
    GetDisplayNull,
    /// The libva libraries or their symbols could not be loaded.
    Sys(String),
    /// `vaInitialize` failed, or no device can be initialised.
    Init { status: VAStatus, message: String },
    /// Any later libva call failed.
    Va { status: VAStatus, message: String },
}

/// A [`VaError`] with its texts as character sequences.
#[verifier::ext_equal]
pub enum VaErrorView {
    OpenDrm(Seq<char>),
    GetDisplayNull,
    Sys(Seq<char>),
    Init { status: VAStatus, message: Seq<char> },
    Va { status: VAStatus, message: Seq<char> },
}

impl View for VaError {
    type V = VaErrorView;

    open spec fn view(&self) -> VaErrorView {
        match self {
            VaError::OpenDrm(text) => VaErrorView::OpenDrm(text@),
            VaError::GetDisplayNull => VaErrorView::GetDisplayNull,
            VaError::Sys(text) => VaErrorView::Sys(text@),
            VaError::Init { status, message } => VaErrorView::Init {
                status: *status,
                message: message@,
            },
            VaError::Va { status, message } => VaErrorView::Va {
                status: *status,
                message: message@,
            },
        }
    }
}

impl VaErrorView {
    /// The error as text.
    pub open spec fn text(self) -> Seq<char> {
        match self {
            VaErrorView::OpenDrm(text) => "open DRM render node: "@ + text,
            VaErrorView::GetDisplayNull => "vaGetDisplayDRM returned null"@,
            VaErrorView::Sys(text) => "libva runtime: "@ + text,
            VaErrorView::Init { status, message } => "vaInitialize failed (status "@ + decimal(
                status as int,
            ) + "): "@ + message,
            VaErrorView::Va { status, message } => "VA-API call failed (status "@ + decimal(
                status as int,
            ) + "): "@ + message,
        }
    }
}

/// The parts of a status report, joined.
fn status_report(head: &str, status: VAStatus, message: &str) -> (text: String)
    ensures
        text@ == head@ + decimal(status as int) + "): "@ + message@,
{
    let mut text: String = joined(head, decimal_text(status as i64).as_str());
    text.append("): ");
    text.append(message);
    text
}

impl VaError {
    /// The error as text.
    pub fn to_text(&self) -> (text: String)
        ensures
            text@ == self@.text(),
    {
        match self {
            VaError::OpenDrm(text) => joined("open DRM render node: ", text.as_str()),
            VaError::GetDisplayNull => "vaGetDisplayDRM returned null".to_string(),
            VaError::Sys(text) => joined("libva runtime: ", text.as_str()),
            VaError::Init { status, message } => status_report(
                "vaInitialize failed (status ",
                *status,
                message.as_str(),
            ),
            VaError::Va { status, message } => status_report(
                "VA-API call failed (status ",
                *status,
                message.as_str(),
            ),
        }
    }
}

/// The texts of the errors.
pub proof fn law_error_texts(error: &VaError, text: String)
    requires
        call_ensures(VaError::to_text, (error,), text),
    ensures
        match error {
            VaError::OpenDrm(reason) => text@ == "open DRM render node: "@ + reason@,
            VaError::GetDisplayNull => text@ == "vaGetDisplayDRM returned null"@,
            VaError::Sys(reason) => text@ == "libva runtime: "@ + reason@,
            VaError::Init { status, message } => text@ == "vaInitialize failed (status "@
                + decimal(*status as int) + "): "@ + message@,
            VaError::Va { status, message } => text@ == "VA-API call failed (status "@ + decimal(
                *status as int,
            ) + "): "@ + message@,
        },
{
}

} // verus!
