//! The errors of the vault operations and their messages.
use vstd::prelude::*;
use crate::text::{join_text, push_str, u32_to_alt_hex, usize_to_decimal, hex, decimal};

verus! {

/// A failed read or write of a file, with the system's message.
#[derive(Debug)]
pub struct IoFailure {
    pub message: String,
}

/// Why a vault operation failed.
#[derive(Debug)]
pub enum AnahtarError {
    Io(IoFailure),
    HeaderTooShort,
    UnknownSignature { signature1: u32, signature2: u32 },
    OpenDatabase,
    EntryNotFound(String),
    DuplicateEntrySelector(String),
    TotpUnavailable(String),
    GroupNotFound(String),
    InvalidGroupPath(String),
    InputOutputSame(String),
    OutputExists(String),
    TempOutputExists(String),
    SaveDatabase,
    VerificationFailed(String),
    CountMismatch {
        input_groups: usize,
        output_groups: usize,
        input_entries: usize,
        output_entries: usize,
    },
}

/// The message of an error, as its `Display` shows it.
pub open spec fn error_message(e: AnahtarError) -> Seq<char> {
    match e {
        AnahtarError::Io(f) => "I/O error: "@ + f.message@,
        AnahtarError::HeaderTooShort => "file is too short to be a KDBX database"@,
        AnahtarError::UnknownSignature { signature1, signature2 } =>
            "unsupported or unknown KeePass signature: 0x"@ + hex(signature1 as nat) + " 0x"@ + hex(signature2 as nat),
        AnahtarError::OpenDatabase =>
            "failed to open database; check password/key material or file integrity"@,
        AnahtarError::EntryNotFound(s) => "entry not found: "@ + s@,
        AnahtarError::DuplicateEntrySelector(s) =>
            "entry selector matches multiple entries; use UUID: "@ + s@,
        AnahtarError::TotpUnavailable(s) => "TOTP is not available for entry: "@ + s@,
        AnahtarError::GroupNotFound(s) => "group not found: "@ + s@,
        AnahtarError::InvalidGroupPath(s) => "invalid group path: "@ + s@,
        AnahtarError::InputOutputSame(s) => "input and output paths resolve to the same file: "@ + s@,
        AnahtarError::OutputExists(s) => "output already exists: "@ + s@,
        AnahtarError::TempOutputExists(s) =>
            "temporary output already exists; remove it before retrying: "@ + s@,
        AnahtarError::SaveDatabase => "failed to save database"@,
        AnahtarError::VerificationFailed(s) => "save verification failed: "@ + s@,
        AnahtarError::CountMismatch { input_groups, output_groups, input_entries, output_entries } =>
            "count mismatch after save: groups "@ + decimal(input_groups as nat) + "->"@
                + decimal(output_groups as nat) + ", entries "@ + decimal(input_entries as nat)
                + "->"@ + decimal(output_entries as nat),
    }
}

impl AnahtarError {
    /// The message of the error, as its `Display` shows it.
    pub fn message(&self) -> (r: String)
        ensures
            r@ == error_message(*self),
    {
        match self {
            AnahtarError::Io(f) => join_text("I/O error: ", f.message.as_str()),
            AnahtarError::HeaderTooShort => "file is too short to be a KDBX database".to_owned(),
            AnahtarError::UnknownSignature { signature1, signature2 } => {
                let mut r = "unsupported or unknown KeePass signature: ".to_owned();
                let a = u32_to_alt_hex(*signature1);
                push_str(&mut r, a.as_str());
                push_str(&mut r, " ");
                let b = u32_to_alt_hex(*signature2);
                push_str(&mut r, b.as_str());
                proof {
                    reveal_strlit(" ");
                    reveal_strlit(" 0x");
                    assert(r@ =~= "unsupported or unknown KeePass signature: "@ + seq!['0', 'x'] + hex(*signature1 as nat) + " "@ + seq!['0', 'x'] + hex(*signature2 as nat));
                    reveal_strlit("unsupported or unknown KeePass signature: 0x");
                    reveal_strlit("unsupported or unknown KeePass signature: ");
                    assert("unsupported or unknown KeePass signature: 0x"@ =~= "unsupported or unknown KeePass signature: "@ + seq!['0', 'x']);
                    assert(" 0x"@ =~= " "@ + seq!['0', 'x']);
                    assert(r@ =~= error_message(*self));
                }
                r
            },
            AnahtarError::OpenDatabase =>
                "failed to open database; check password/key material or file integrity".to_owned(),
            AnahtarError::EntryNotFound(s) => join_text("entry not found: ", s.as_str()),
            AnahtarError::DuplicateEntrySelector(s) =>
                join_text("entry selector matches multiple entries; use UUID: ", s.as_str()),
            AnahtarError::TotpUnavailable(s) => join_text("TOTP is not available for entry: ", s.as_str()),
            AnahtarError::GroupNotFound(s) => join_text("group not found: ", s.as_str()),
            AnahtarError::InvalidGroupPath(s) => join_text("invalid group path: ", s.as_str()),
            AnahtarError::InputOutputSame(s) =>
                join_text("input and output paths resolve to the same file: ", s.as_str()),
            AnahtarError::OutputExists(s) => join_text("output already exists: ", s.as_str()),
            AnahtarError::TempOutputExists(s) =>
                join_text("temporary output already exists; remove it before retrying: ", s.as_str()),
            AnahtarError::SaveDatabase => "failed to save database".to_owned(),
            AnahtarError::VerificationFailed(s) => join_text("save verification failed: ", s.as_str()),
            AnahtarError::CountMismatch { input_groups, output_groups, input_entries, output_entries } => {
                let mut r = "count mismatch after save: groups ".to_owned();
                push_str(&mut r, usize_to_decimal(*input_groups).as_str());
                push_str(&mut r, "->");
                push_str(&mut r, usize_to_decimal(*output_groups).as_str());
                push_str(&mut r, ", entries ");
                push_str(&mut r, usize_to_decimal(*input_entries).as_str());
                push_str(&mut r, "->");
                push_str(&mut r, usize_to_decimal(*output_entries).as_str());
                r
            },
        }
    }
}

} // verus!
