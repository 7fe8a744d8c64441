//! The preview protocol that Starzip exposes to Sonia: requests, and the
//! envelope that carries either a result or an error.

use vstd::prelude::*;
use vstd::string::StringExecFns;

verus! {

/// High-level preview commands; they carry identifiers and JSON file
/// paths, never raw ROM bytes.
#[derive(Debug, Clone)]
pub enum PreviewCommand {
    /// Read-only query against a ROM layout description.
    RomQuery { rom_id: String, layout_path: String },
    /// Safe, non-mutating patch preview.
    PatchPreview {
        base_rom_id: String,
        layout_path: String,
        patch_path: String,
        dry_run: bool,
        budget_only: bool,
    },
}

/// Envelope of a preview response: a success payload or an error, never
/// both.
#[derive(Debug)]
pub struct PreviewEnvelope {
    /// Protocol version.
    pub version: u32,
    /// `"ok"` on success, `"error"` on failure.
    pub status: String,
    /// Success payload, absent on error.
    pub data: Option<serde_json::Value>,
    /// Error payload, present only when the status is `"error"`.
    pub error: Option<PreviewError>,
}

/// Machine-readable error details for preview operations.
#[derive(Debug)]
pub struct PreviewError {
    /// Stable, machine-readable error code.
    pub code: String,
    /// Human-readable, log-friendly message.
    pub message: String,
    /// Structured diagnostics payload.
    pub details: Option<serde_json::Value>,
}

/// An envelope carries a payload with status "ok" and no error, or an
/// error with status "error" and no payload.
pub open spec fn envelope_well_formed(e: PreviewEnvelope) -> bool {
    ||| (e.status@ == "ok"@ && e.data is Some && e.error is None)
    ||| (e.status@ == "error"@ && e.data is None && e.error is Some)
}

impl PreviewEnvelope {
    /// An `"ok"` envelope with a JSON payload.
    pub fn ok(version: u32, data: serde_json::Value) -> (e: Self)
        ensures
            e.version == version,
            e.status@ == "ok"@,
            e.data == Some(data),
            e.error is None,
            envelope_well_formed(e),
    {
        PreviewEnvelope { version, status: String::from_str("ok"), data: Some(data), error: None }
    }

    /// An `"error"` envelope with a stable code and a message.
    pub fn err(version: u32, code: String, message: String) -> (e: Self)
        ensures
            e.version == version,
            e.status@ == "error"@,
            e.data is None,
            e.error matches Some(pe) && pe.code == code && pe.message == message && pe.details is None,
            envelope_well_formed(e),
    {
        PreviewEnvelope {
            version,
            status: String::from_str("error"),
            data: None,
            error: Some(PreviewError { code, message, details: None }),
        }
    }

    /// Attaches structured details to the error of an error envelope; other
    /// envelopes are returned as they are.
    pub fn with_details(self, details: serde_json::Value) -> (e: Self)
        ensures
            e.version == self.version,
            e.status == self.status,
            e.data == self.data,
            match self.error {
                Some(pe) => e.error matches Some(ne) && ne.code == pe.code && ne.message == pe.message
                    && ne.details == Some(details),
                None => e.error is None,
            },
            envelope_well_formed(self) ==> envelope_well_formed(e),
    {
        let PreviewEnvelope { version, status, data, error } = self;
        let error = match error {
            Some(pe) => {
                let PreviewError { code, message, details: _ } = pe;
                Some(PreviewError { code, message, details: Some(details) })
            },
            None => None,
        };
        PreviewEnvelope { version, status, data, error }
    }
}

} // verus!
