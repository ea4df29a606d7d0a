//! The errors of the storage interface, and how the errors of other layers
//! are turned into them.

use vstd::prelude::*;
use vstd::string::StringExecFns;
use crate::text::{decimal, decimal_text};

verus! {

/// `bcs::Error`, the error of the serialization format. It is carried
/// through as it is; nothing of what it holds is looked at.
#[verifier::external_type_specification]
#[verifier::external_body]
pub struct ExBcsError(bcs::Error);

/// `anyhow::Error`, an error of any kind. It is carried through as it is.
#[verifier::external_type_specification]
#[verifier::external_body]
pub struct ExAnyhowError(anyhow::Error);

/// `std::io::Error`. It is carried through as it is.
#[verifier::external_type_specification]
#[verifier::external_body]
pub struct ExIoError(std::io::Error);

/// `std::sync::mpsc::RecvError`. It is carried through as it is.
#[verifier::external_type_specification]
#[verifier::external_body]
pub struct ExRecvError(std::sync::mpsc::RecvError);

/// `std::num::ParseIntError`. It is carried through as it is.
#[verifier::external_type_specification]
#[verifier::external_body]
pub struct ExParseIntError(std::num::ParseIntError);

/// The errors commonly used among the interfaces of the database.
#[derive(Debug)]
pub enum LumioDbError {
    /// A requested item is not found.
    NotFound(String),
    /// Requested too many items.
    TooManyRequested(u64, u64),
    /// The state root node at a version is missing.
    MissingRootError(u64),
    /// Other non-classified error.
    Other(String),
    /// The key-value store gave an incomplete result.
    RocksDbIncompleteResult(String),
    /// Any other error of the key-value store.
    OtherRocksDbError(String),
    /// An error of serialization.
    BcsError(String),
    /// An error of input or output.
    IoError(String),
    /// An error of receiving on a channel.
    RecvError(String),
    /// An error of reading a number.
    ParseIntError(String),
}

/// Model of a [`LumioDbError`].
pub enum DbErrorView {
    NotFound(Seq<char>),
    TooManyRequested(u64, u64),
    MissingRootError(u64),
    Other(Seq<char>),
    RocksDbIncompleteResult(Seq<char>),
    OtherRocksDbError(Seq<char>),
    BcsError(Seq<char>),
    IoError(Seq<char>),
    RecvError(Seq<char>),
    ParseIntError(Seq<char>),
}

impl View for LumioDbError {
    type V = DbErrorView;

    open spec fn view(&self) -> DbErrorView {
        match self {
            LumioDbError::NotFound(m) => DbErrorView::NotFound(m@),
            LumioDbError::TooManyRequested(a, b) => DbErrorView::TooManyRequested(*a, *b),
            LumioDbError::MissingRootError(v) => DbErrorView::MissingRootError(*v),
            LumioDbError::Other(m) => DbErrorView::Other(m@),
            LumioDbError::RocksDbIncompleteResult(m) => DbErrorView::RocksDbIncompleteResult(m@),
            LumioDbError::OtherRocksDbError(m) => DbErrorView::OtherRocksDbError(m@),
            LumioDbError::BcsError(m) => DbErrorView::BcsError(m@),
            LumioDbError::IoError(m) => DbErrorView::IoError(m@),
            LumioDbError::RecvError(m) => DbErrorView::RecvError(m@),
            LumioDbError::ParseIntError(m) => DbErrorView::ParseIntError(m@),
        }
    }
}

impl DbErrorView {
    /// The text of the error.
    pub open spec fn text(self) -> Seq<char> {
        match self {
            DbErrorView::NotFound(m) => m + " not found."@,
            DbErrorView::TooManyRequested(a, b) => "Too many items requested: at least "@
                + decimal_text(a as nat) + " requested, max is "@ + decimal_text(b as nat),
            DbErrorView::MissingRootError(v) => "Missing state root node at version "@
                + decimal_text(v as nat) + ", probably pruned."@,
            DbErrorView::Other(m) => "LumioDB Other Error: "@ + m,
            DbErrorView::RocksDbIncompleteResult(m) => "LumioDB RocksDb Error: "@ + m,
            DbErrorView::OtherRocksDbError(m) => "LumioDB RocksDB Error: "@ + m,
            DbErrorView::BcsError(m) => "LumioDB bcs Error: "@ + m,
            DbErrorView::IoError(m) => "LumioDB IO Error: "@ + m,
            DbErrorView::RecvError(m) => "LumioDB Recv Error: "@ + m,
            DbErrorView::ParseIntError(m) => "LumioDB ParseInt Error: "@ + m,
        }
    }
}

/// A text made of a heading and a message.
fn headed(heading: &str, message: &String) -> (text: String)
    ensures
        text@ == heading@ + message@,
{
    let mut text = heading.to_owned();
    text.append(message.as_str());
    text
}

impl LumioDbError {
    /// The text of the error.
    pub fn to_text(&self) -> (text: String)
        ensures
            text@ == self@.text(),
    {
        match self {
            LumioDbError::NotFound(m) => {
                let mut text = m.clone();
                text.append(" not found.");
                text
            },
            LumioDbError::TooManyRequested(a, b) => {
                let mut text = "Too many items requested: at least ".to_owned();
                let first = decimal(*a);
                text.append(first.as_str());
                text.append(" requested, max is ");
                let second = decimal(*b);
                text.append(second.as_str());
                text
            },
            LumioDbError::MissingRootError(v) => {
                let mut text = "Missing state root node at version ".to_owned();
                let number = decimal(*v);
                text.append(number.as_str());
                text.append(", probably pruned.");
                text
            },
            LumioDbError::Other(m) => headed("LumioDB Other Error: ", m),
            LumioDbError::RocksDbIncompleteResult(m) => headed("LumioDB RocksDb Error: ", m),
            LumioDbError::OtherRocksDbError(m) => headed("LumioDB RocksDB Error: ", m),
            LumioDbError::BcsError(m) => headed("LumioDB bcs Error: ", m),
            LumioDbError::IoError(m) => headed("LumioDB IO Error: ", m),
            LumioDbError::RecvError(m) => headed("LumioDB Recv Error: ", m),
            LumioDbError::ParseIntError(m) => headed("LumioDB ParseInt Error: ", m),
        }
    }

    /// An error of any kind is a non-classified error; its message is the
    /// text that the error displays.
    pub fn from_anyhow(error: anyhow::Error) -> (e: Self)
        ensures
            (e matches LumioDbError::Other(message)
                && vstd::string::to_string_from_display_ensures::<anyhow::Error>(&error, message)),
    {
        LumioDbError::Other(error.to_string())
    }

    /// An error of serialization; its message is the text that the error displays.
    pub fn from_bcs(error: bcs::Error) -> (e: Self)
        ensures
            e is BcsError,
    {
        LumioDbError::BcsError(error.to_string())
    }

    /// An error of receiving on a channel; its message is the text that the
    /// error displays.
    pub fn from_recv(error: std::sync::mpsc::RecvError) -> (e: Self)
        ensures
            e is RecvError,
    {
        LumioDbError::RecvError(error.to_string())
    }

    /// An error of input or output; its message is the text that the error displays.
    pub fn from_io(error: std::io::Error) -> (e: Self)
        ensures
            e is IoError,
    {
        LumioDbError::IoError(error.to_string())
    }

    /// An error of reading a number is a non-classified error; its message
    /// is the text that the error displays.
    pub fn from_parse_int(error: std::num::ParseIntError) -> (e: Self)
        ensures
            (e matches LumioDbError::Other(message)
                && vstd::string::to_string_from_display_ensures::<std::num::ParseIntError>(&error, message)),
    {
        LumioDbError::Other(error.to_string())
    }
}

/// The errors of a state view.
#[derive(Debug)]
pub enum StateViewError {
    /// A requested item is not found.
    NotFound(String),
    /// Other non-classified error.
    Other(String),
    /// An error of serialization.
    BcsError(bcs::Error),
}

/// Model of a [`StateViewError`].
pub enum StateViewErrorView {
    NotFound(Seq<char>),
    Other(Seq<char>),
    BcsError(bcs::Error),
}

impl View for StateViewError {
    type V = StateViewErrorView;

    open spec fn view(&self) -> StateViewErrorView {
        match self {
            StateViewError::NotFound(m) => StateViewErrorView::NotFound(m@),
            StateViewError::Other(m) => StateViewErrorView::Other(m@),
            StateViewError::BcsError(e) => StateViewErrorView::BcsError(*e),
        }
    }
}

impl StateViewError {
    /// The error of the database as an error of a state view: what was
    /// not found stays so, a non-classified error keeps its message, and
    /// any other error becomes a non-classified error whose message is the
    /// text of the error.
    pub fn from_db_error(error: LumioDbError) -> (e: Self)
        ensures
            e@ == match error@ {
                DbErrorView::NotFound(m) => StateViewErrorView::NotFound(m),
                DbErrorView::Other(m) => StateViewErrorView::Other(m),
                other => StateViewErrorView::Other(other.text()),
            },
    {
        match error {
            LumioDbError::NotFound(msg) => StateViewError::NotFound(msg),
            LumioDbError::Other(msg) => StateViewError::Other(msg),
            other => StateViewError::Other(other.to_text()),
        }
    }

    /// The error of a state view as an error of the database: what was not
    /// found stays so, a non-classified error keeps its message, and an
    /// error of serialization carries the text that it displays.
    pub fn into_db_error(self) -> (e: LumioDbError)
        ensures
            match self@ {
                StateViewErrorView::NotFound(m) => e@ == DbErrorView::NotFound(m),
                StateViewErrorView::Other(m) => e@ == DbErrorView::Other(m),
                StateViewErrorView::BcsError(_) => e is BcsError,
            },
    {
        match self {
            StateViewError::NotFound(msg) => LumioDbError::NotFound(msg),
            StateViewError::Other(msg) => LumioDbError::Other(msg),
            StateViewError::BcsError(err) => LumioDbError::BcsError(err.to_string()),
        }
    }
}

} // verus!
