//! Status codes of the wallet application, and the errors built on them.

use vstd::prelude::*;
use vstd::string::StringExecFns;
use crate::text::{decimal, decimal_text, hex_text, lower_hex};

verus! {

/// Status code returned by the wallet application or by the device.
#[derive(Clone, Copy, Debug, PartialEq, Eq, Structural)]
pub enum LumioLedgerStatusCode {
    /// Rejected by user
    Deny,
    /// Either P1 or P2 is incorrect
    WrongPip2,
    /// Lc or minimum APDU length is incorrect
    WrongDataLength,
    /// No command exists with INS
    InsNotSupported,
    /// Bad CLA used for this application
    ClaNotSupported,
    /// Wrong response length (buffer size problem)
    WrongResponseLength,
    /// BIP32 path conversion to string failed
    DisplayBip32PathFail,
    /// Address conversion to string failed
    DisplayAddressFail,
    /// Amount conversion to string failed
    DisplayAmountFail,
    /// Wrong raw transaction length
    WrongTxnLength,
    /// Failed to parse raw transaction
    TxnParsingFail,
    /// Failed to compute hash digest of raw transaction
    TxnHashFail,
    /// Security issue with bad state
    BadState,
    /// Signature of raw transaction failed
    SignatureFail,
    /// Success
    Success,
    /// Ledger device is locked
    LedgerLocked,
    /// The wallet application is not opened
    AppNotOpen,
    /// Any status code that is not listed above
    Unknown,
}

impl LumioLedgerStatusCode {
    /// The number of the status code on the wire; zero stands for unknown.
    pub open spec fn spec_code(self) -> u16 {
        match self {
            LumioLedgerStatusCode::Deny => 0x6985,
            LumioLedgerStatusCode::WrongPip2 => 0x6A86,
            LumioLedgerStatusCode::WrongDataLength => 0x6A87,
            LumioLedgerStatusCode::InsNotSupported => 0x6D00,
            LumioLedgerStatusCode::ClaNotSupported => 0x6E00,
            LumioLedgerStatusCode::WrongResponseLength => 0xB000,
            LumioLedgerStatusCode::DisplayBip32PathFail => 0xB001,
            LumioLedgerStatusCode::DisplayAddressFail => 0xB002,
            LumioLedgerStatusCode::DisplayAmountFail => 0xB003,
            LumioLedgerStatusCode::WrongTxnLength => 0xB004,
            LumioLedgerStatusCode::TxnParsingFail => 0xB005,
            LumioLedgerStatusCode::TxnHashFail => 0xB006,
            LumioLedgerStatusCode::BadState => 0xB007,
            LumioLedgerStatusCode::SignatureFail => 0xB008,
            LumioLedgerStatusCode::Success => 0x9000,
            LumioLedgerStatusCode::LedgerLocked => 0x5515,
            LumioLedgerStatusCode::AppNotOpen => 0x6E01,
            LumioLedgerStatusCode::Unknown => 0x0000,
        }
    }

    /// What the status code means, in words.
    pub open spec fn spec_description(self) -> Seq<char> {
        match self {
            LumioLedgerStatusCode::Deny => "Request rejected by user"@,
            LumioLedgerStatusCode::WrongPip2 => "Wrong P1 or P2"@,
            LumioLedgerStatusCode::WrongDataLength => "Wrong data length"@,
            LumioLedgerStatusCode::InsNotSupported => "Ins(Instruction) not supported"@,
            LumioLedgerStatusCode::ClaNotSupported => "Cla not supported"@,
            LumioLedgerStatusCode::WrongResponseLength => "Wrong response length"@,
            LumioLedgerStatusCode::DisplayBip32PathFail => "BIP32 path conversion to string failed"@,
            LumioLedgerStatusCode::DisplayAddressFail => "Address conversion to string failed"@,
            LumioLedgerStatusCode::DisplayAmountFail => "Amount conversion to string failed"@,
            LumioLedgerStatusCode::WrongTxnLength => "Wrong raw transaction length"@,
            LumioLedgerStatusCode::TxnParsingFail => "Failed to parse raw transaction"@,
            LumioLedgerStatusCode::TxnHashFail => "Failed to compute hash digest of raw transaction"@,
            LumioLedgerStatusCode::BadState => "Security issue with bad state"@,
            LumioLedgerStatusCode::SignatureFail => "Signature of raw transaction failed"@,
            LumioLedgerStatusCode::Success => "Success"@,
            LumioLedgerStatusCode::LedgerLocked => "Ledger device is locked"@,
            LumioLedgerStatusCode::AppNotOpen => "Lumio ledger app is not opened"@,
            LumioLedgerStatusCode::Unknown => "Unknown status code"@,
        }
    }

    /// The status code that a number on the wire stands for.
    pub open spec fn of_code(status_code: u16) -> LumioLedgerStatusCode {
        if status_code == 0x6985 {
            LumioLedgerStatusCode::Deny
        } else if status_code == 0x6A86 {
            LumioLedgerStatusCode::WrongPip2
        } else if status_code == 0x6A87 {
            LumioLedgerStatusCode::WrongDataLength
        } else if status_code == 0x6D00 {
            LumioLedgerStatusCode::InsNotSupported
        } else if status_code == 0x6E00 {
            LumioLedgerStatusCode::ClaNotSupported
        } else if status_code == 0xB000 {
            LumioLedgerStatusCode::WrongResponseLength
        } else if status_code == 0xB001 {
            LumioLedgerStatusCode::DisplayBip32PathFail
        } else if status_code == 0xB002 {
            LumioLedgerStatusCode::DisplayAddressFail
        } else if status_code == 0xB003 {
            LumioLedgerStatusCode::DisplayAmountFail
        } else if status_code == 0xB004 {
            LumioLedgerStatusCode::WrongTxnLength
        } else if status_code == 0xB005 {
            LumioLedgerStatusCode::TxnParsingFail
        } else if status_code == 0xB006 {
            LumioLedgerStatusCode::TxnHashFail
        } else if status_code == 0xB007 {
            LumioLedgerStatusCode::BadState
        } else if status_code == 0xB008 {
            LumioLedgerStatusCode::SignatureFail
        } else if status_code == 0x9000 {
            LumioLedgerStatusCode::Success
        } else if status_code == 0x5515 {
            LumioLedgerStatusCode::LedgerLocked
        } else if status_code == 0x6E01 {
            LumioLedgerStatusCode::AppNotOpen
        } else {
            LumioLedgerStatusCode::Unknown
        }
    }

    /// The text of the status code: its description, then its number in
    /// hexadecimal, in parentheses.
    pub open spec fn spec_text(self) -> Seq<char> {
        self.spec_description() + " (0x"@ + hex_text(self.spec_code() as nat) + ")"@
    }

    /// The number of the status code on the wire.
    pub fn code(&self) -> (c: u16)
        ensures
            c == self.spec_code(),
    {
        match self {
            LumioLedgerStatusCode::Deny => 0x6985,
            LumioLedgerStatusCode::WrongPip2 => 0x6A86,
            LumioLedgerStatusCode::WrongDataLength => 0x6A87,
            LumioLedgerStatusCode::InsNotSupported => 0x6D00,
            LumioLedgerStatusCode::ClaNotSupported => 0x6E00,
            LumioLedgerStatusCode::WrongResponseLength => 0xB000,
            LumioLedgerStatusCode::DisplayBip32PathFail => 0xB001,
            LumioLedgerStatusCode::DisplayAddressFail => 0xB002,
            LumioLedgerStatusCode::DisplayAmountFail => 0xB003,
            LumioLedgerStatusCode::WrongTxnLength => 0xB004,
            LumioLedgerStatusCode::TxnParsingFail => 0xB005,
            LumioLedgerStatusCode::TxnHashFail => 0xB006,
            LumioLedgerStatusCode::BadState => 0xB007,
            LumioLedgerStatusCode::SignatureFail => 0xB008,
            LumioLedgerStatusCode::Success => 0x9000,
            LumioLedgerStatusCode::LedgerLocked => 0x5515,
            LumioLedgerStatusCode::AppNotOpen => 0x6E01,
            LumioLedgerStatusCode::Unknown => 0x0000,
        }
    }

    /// What the status code means, in words.
    pub fn description(&self) -> (text: &'static str)
        ensures
            text@ == self.spec_description(),
    {
        match self {
            LumioLedgerStatusCode::Deny => "Request rejected by user",
            LumioLedgerStatusCode::WrongPip2 => "Wrong P1 or P2",
            LumioLedgerStatusCode::WrongDataLength => "Wrong data length",
            LumioLedgerStatusCode::InsNotSupported => "Ins(Instruction) not supported",
            LumioLedgerStatusCode::ClaNotSupported => "Cla not supported",
            LumioLedgerStatusCode::WrongResponseLength => "Wrong response length",
            LumioLedgerStatusCode::DisplayBip32PathFail => "BIP32 path conversion to string failed",
            LumioLedgerStatusCode::DisplayAddressFail => "Address conversion to string failed",
            LumioLedgerStatusCode::DisplayAmountFail => "Amount conversion to string failed",
            LumioLedgerStatusCode::WrongTxnLength => "Wrong raw transaction length",
            LumioLedgerStatusCode::TxnParsingFail => "Failed to parse raw transaction",
            LumioLedgerStatusCode::TxnHashFail => "Failed to compute hash digest of raw transaction",
            LumioLedgerStatusCode::BadState => "Security issue with bad state",
            LumioLedgerStatusCode::SignatureFail => "Signature of raw transaction failed",
            LumioLedgerStatusCode::Success => "Success",
            LumioLedgerStatusCode::LedgerLocked => "Ledger device is locked",
            LumioLedgerStatusCode::AppNotOpen => "Lumio ledger app is not opened",
            LumioLedgerStatusCode::Unknown => "Unknown status code",
        }
    }

    /// The status code that a number on the wire stands for; any number
    /// that is not listed stands for `Unknown`.
    pub fn map_status_code(status_code: u16) -> (status: LumioLedgerStatusCode)
        ensures
            status == Self::of_code(status_code),
    {
        if status_code == 0x6985 {
            LumioLedgerStatusCode::Deny
        } else if status_code == 0x6A86 {
            LumioLedgerStatusCode::WrongPip2
        } else if status_code == 0x6A87 {
            LumioLedgerStatusCode::WrongDataLength
        } else if status_code == 0x6D00 {
            LumioLedgerStatusCode::InsNotSupported
        } else if status_code == 0x6E00 {
            LumioLedgerStatusCode::ClaNotSupported
        } else if status_code == 0xB000 {
            LumioLedgerStatusCode::WrongResponseLength
        } else if status_code == 0xB001 {
            LumioLedgerStatusCode::DisplayBip32PathFail
        } else if status_code == 0xB002 {
            LumioLedgerStatusCode::DisplayAddressFail
        } else if status_code == 0xB003 {
            LumioLedgerStatusCode::DisplayAmountFail
        } else if status_code == 0xB004 {
            LumioLedgerStatusCode::WrongTxnLength
        } else if status_code == 0xB005 {
            LumioLedgerStatusCode::TxnParsingFail
        } else if status_code == 0xB006 {
            LumioLedgerStatusCode::TxnHashFail
        } else if status_code == 0xB007 {
            LumioLedgerStatusCode::BadState
        } else if status_code == 0xB008 {
            LumioLedgerStatusCode::SignatureFail
        } else if status_code == 0x9000 {
            LumioLedgerStatusCode::Success
        } else if status_code == 0x5515 {
            LumioLedgerStatusCode::LedgerLocked
        } else if status_code == 0x6E01 {
            LumioLedgerStatusCode::AppNotOpen
        } else {
            LumioLedgerStatusCode::Unknown
        }
    }

    /// The text of the status code: its description, then its number in
    /// hexadecimal, in parentheses.
    pub fn to_text(&self) -> (text: String)
        ensures
            text@ == self.spec_text(),
    {
        let mut text = self.description().to_owned();
        text.append(" (0x");
        let number = lower_hex(self.code() as u64);
        text.append(number.as_str());
        text.append(")");
        text
    }
}

/// Every status code is the one that its own number stands for.
pub proof fn lemma_code_round_trip(status: LumioLedgerStatusCode)
    ensures
        LumioLedgerStatusCode::of_code(status.spec_code()) == status,
{
}

/// A number stands for `Unknown` unless it is the number of the status code
/// that it stands for.
pub proof fn lemma_unlisted_is_unknown(status_code: u16)
    ensures
        LumioLedgerStatusCode::of_code(status_code).spec_code() == status_code
            || LumioLedgerStatusCode::of_code(status_code) == LumioLedgerStatusCode::Unknown,
{
}

/// Version of the wallet application, in the form major.minor.patch.
#[derive(Clone, Copy, Debug, PartialEq, Eq, Structural)]
pub struct Version {
    pub major: u8,
    pub minor: u8,
    pub patch: u8,
}

impl Version {
    /// The text of the version: the three numbers in decimal, with dots between them.
    pub open spec fn spec_text(self) -> Seq<char> {
        decimal_text(self.major as nat) + "."@ + decimal_text(self.minor as nat) + "."@
            + decimal_text(self.patch as nat)
    }

    /// The text of the version: the three numbers in decimal, with dots between them.
    pub fn to_text(&self) -> (text: String)
        ensures
            text@ == self.spec_text(),
    {
        let mut text = decimal(self.major as u64);
        text.append(".");
        let minor = decimal(self.minor as u64);
        text.append(minor.as_str());
        text.append(".");
        let patch = decimal(self.patch as u64);
        text.append(patch.as_str());
        text
    }
}

/// What can go wrong when talking to the wallet application.
#[derive(Debug)]
pub enum LumioLedgerError {
    /// No connection to the device could be opened.
    DeviceNotFound,
    /// The wallet application answered with an error status.
    LumioError(LumioLedgerStatusCode),
    /// Anything else; the number, if there is one, is the status code that
    /// came with the answer.
    UnexpectedError(String, Option<u16>),
}

/// Model of a [`LumioLedgerError`].
pub enum LedgerErrorView {
    DeviceNotFound,
    LumioError(LumioLedgerStatusCode),
    UnexpectedError(Seq<char>, Option<u16>),
}

impl View for LumioLedgerError {
    type V = LedgerErrorView;

    open spec fn view(&self) -> LedgerErrorView {
        match self {
            LumioLedgerError::DeviceNotFound => LedgerErrorView::DeviceNotFound,
            LumioLedgerError::LumioError(status) => LedgerErrorView::LumioError(*status),
            LumioLedgerError::UnexpectedError(message, code) => LedgerErrorView::UnexpectedError(
                message@,
                *code,
            ),
        }
    }
}

impl LedgerErrorView {
    /// The text of the error.
    pub open spec fn text(self) -> Seq<char> {
        match self {
            LedgerErrorView::DeviceNotFound => "Device not found"@,
            LedgerErrorView::LumioError(status) => "Error - "@ + status.spec_text(),
            LedgerErrorView::UnexpectedError(message, code) => "Unexpected Error: "@ + message
                + " (StatusCode "@ + match code {
                Some(c) => "Some("@ + decimal_text(c as nat) + ")"@,
                None => "None"@,
            } + ")"@,
        }
    }
}

impl LumioLedgerError {
    /// The text of the error.
    pub fn to_text(&self) -> (text: String)
        ensures
            text@ == self@.text(),
    {
        match self {
            LumioLedgerError::DeviceNotFound => "Device not found".to_owned(),
            LumioLedgerError::LumioError(status) => {
                let mut text = "Error - ".to_owned();
                let inner = status.to_text();
                text.append(inner.as_str());
                text
            },
            LumioLedgerError::UnexpectedError(message, code) => {
                let mut text = "Unexpected Error: ".to_owned();
                text.append(message.as_str());
                text.append(" (StatusCode ");
                match code {
                    Some(c) => {
                        let mut shown = "Some(".to_owned();
                        let number = decimal(*c as u64);
                        shown.append(number.as_str());
                        shown.append(")");
                        text.append(shown.as_str());
                    },
                    None => {
                        text.append("None");
                    },
                }
                text.append(")");
                assert(text@ =~= self@.text());
                text
            },
        }
    }
}

} // verus!
