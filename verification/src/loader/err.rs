//! What can be wrong with a module or a proof.

use vstd::prelude::*;
use vstd::string::StringExecFns;

verus! {

/// Why a module cannot be run.
#[derive(Clone, Copy, Debug, PartialEq, Eq, Structural, Hash)]
pub enum PreCheckErr {
    /// The module exports nothing under the name of the entry function.
    ZkmainNotExists,
    /// What the module exports under that name is not a function.
    ZkmainIsNotFunction,
}

impl PreCheckErr {
    pub fn message(&self) -> (r: String)
        ensures
            r@ == match self {
                PreCheckErr::ZkmainNotExists => "Zkmain does not exist"@,
                PreCheckErr::ZkmainIsNotFunction => "Zkmain is not a function"@,
            },
    {
        match self {
            PreCheckErr::ZkmainNotExists => String::from_str("Zkmain does not exist"),
            PreCheckErr::ZkmainIsNotFunction => String::from_str("Zkmain is not a function"),
        }
    }
}

/// Why a loader cannot be set up.
#[derive(Clone, Copy, Debug, PartialEq, Eq, Structural, Hash)]
pub enum LoadError {
    /// The image is not a module in binary form.
    InvalidImage,
    PreCheck(PreCheckErr),
}

impl LoadError {
    pub fn message(&self) -> (r: String)
        ensures
            r@ == match self {
                LoadError::InvalidImage => "Invalid wasm image"@,
                LoadError::PreCheck(PreCheckErr::ZkmainNotExists) => "PreCheck error: "@
                    + "Zkmain does not exist"@,
                LoadError::PreCheck(PreCheckErr::ZkmainIsNotFunction) => "PreCheck error: "@
                    + "Zkmain is not a function"@,
            },
    {
        match self {
            LoadError::InvalidImage => String::from_str("Invalid wasm image"),
            LoadError::PreCheck(e) => {
                let mut message = String::from_str("PreCheck error: ");
                let detail = e.message();
                message.append(detail.as_str());
                message
            },
        }
    }
}

/// Why a proof is not accepted as a proof of the expected program.
#[derive(Clone, Copy, Debug, PartialEq, Eq, Structural, Hash)]
pub enum VerificationFailure {
    /// The verifying key names no column that holds the image.
    ImageColumnMissing,
    /// The transcript holds no commitment for the image column.
    CommitmentMissing,
    /// The commitment to the image column is not the checksum of the
    /// expected program.
    ChecksumMismatch,
}

} // verus!
