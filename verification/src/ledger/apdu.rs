//! The frames exchanged with the wallet application: how each request is
//! made, and what each answer means.

use vstd::prelude::*;
use vstd::string::StringExecFns;
use vstd::string::StringSliceAdditionalSpecFns;
use vstd::utf8::{encode_utf8, valid_utf8};
use crate::ledger::path::{encoding, serializable, try_serialize_bip32};
use crate::ledger::status::{LedgerErrorView, LumioLedgerError, LumioLedgerStatusCode, Version};
use crate::text::{decimal, decimal_text, digit_text};

verus! {

/// Instruction class of the wallet application.
pub const CLA_LUMIO: u8 = 0x5B;

/// Instruction: get the version of the application.
pub const INS_GET_VERSION: u8 = 0x03;

/// Instruction: get the name of the application.
pub const INS_GET_APP_NAME: u8 = 0x04;

/// Instruction: get a public key.
pub const INS_GET_PUB_KEY: u8 = 0x05;

/// Instruction: sign a transaction.
pub const INS_SIGN_TXN: u8 = 0x06;

/// Status code of an answer that reports success.
pub const APDU_CODE_SUCCESS: u16 = 36864;

/// Largest number of bytes that one frame carries.
pub const MAX_APDU_LEN: usize = 255;

/// First parameter: do not ask the user to confirm.
pub const P1_NON_CONFIRM: u8 = 0x00;

/// First parameter: ask the user to confirm on the device.
pub const P1_CONFIRM: u8 = 0x01;

/// First parameter of the frame that opens a signing exchange.
pub const P1_START: u8 = 0x00;

/// Second parameter: more frames follow.
pub const P2_MORE: u8 = 0x80;

/// Second parameter: this is the last frame.
pub const P2_LAST: u8 = 0x00;

/// Largest number of accounts that one batch may ask for.
pub const MAX_BATCH: u32 = 10;

/// One request to the wallet application.
#[derive(Debug)]
pub struct ApduCommand {
    pub cla: u8,
    pub ins: u8,
    pub p1: u8,
    pub p2: u8,
    pub data: Vec<u8>,
}

/// Model of an [`ApduCommand`].
pub struct Frame {
    pub cla: u8,
    pub ins: u8,
    pub p1: u8,
    pub p2: u8,
    pub data: Seq<u8>,
}

impl View for ApduCommand {
    type V = Frame;

    open spec fn view(&self) -> Frame {
        Frame { cla: self.cla, ins: self.ins, p1: self.p1, p2: self.p2, data: self.data@ }
    }
}

/// The request for the version of the application.
pub fn version_request() -> (c: ApduCommand)
    ensures
        c@ == (Frame {
            cla: CLA_LUMIO,
            ins: INS_GET_VERSION,
            p1: P1_NON_CONFIRM,
            p2: P2_LAST,
            data: Seq::empty(),
        }),
{
    ApduCommand {
        cla: CLA_LUMIO,
        ins: INS_GET_VERSION,
        p1: P1_NON_CONFIRM,
        p2: P2_LAST,
        data: Vec::new(),
    }
}

/// The request for the name of the application.
pub fn app_name_request() -> (c: ApduCommand)
    ensures
        c@ == (Frame {
            cla: CLA_LUMIO,
            ins: INS_GET_APP_NAME,
            p1: P1_NON_CONFIRM,
            p2: P2_LAST,
            data: Seq::empty(),
        }),
{
    ApduCommand {
        cla: CLA_LUMIO,
        ins: INS_GET_APP_NAME,
        p1: P1_NON_CONFIRM,
        p2: P2_LAST,
        data: Vec::new(),
    }
}

/// The frame that asks for the public key at a derivation path.
pub open spec fn public_key_frame(path: Seq<u8>, display: bool) -> Frame {
    Frame {
        cla: CLA_LUMIO,
        ins: INS_GET_PUB_KEY,
        p1: if display {
            P1_CONFIRM
        } else {
            P1_NON_CONFIRM
        },
        p2: 0,
        data: encoding(path),
    }
}

/// The request for the public key at a derivation path, if the path can be
/// put on the wire. With `display`, the device shows the key and asks the
/// user to confirm.
pub fn try_public_key_request(path: &str, display: bool) -> (r: Option<ApduCommand>)
    ensures
        match r {
            Some(c) => serializable(path.spec_bytes()) && c@ == public_key_frame(
                path.spec_bytes(),
                display,
            ),
            None => !serializable(path.spec_bytes()),
        },
{
    match try_serialize_bip32(path) {
        Some(data) => Some(
            ApduCommand {
                cla: CLA_LUMIO,
                ins: INS_GET_PUB_KEY,
                p1: if display {
                    P1_CONFIRM
                } else {
                    P1_NON_CONFIRM
                },
                p2: 0,
                data,
            },
        ),
        None => None,
    }
}

/// The request for the public key at a derivation path.
pub fn public_key_request(path: &str, display: bool) -> (c: ApduCommand)
    requires
        serializable(path.spec_bytes()),
    ensures
        c@ == public_key_frame(path.spec_bytes(), display),
{
    match try_public_key_request(path, display) {
        Some(c) => c,
        None => version_request(),
    }
}

/// The derivation path of the account with the given index:
/// `m/44'/637'/{index}'/0'/0'`.
pub fn derivation_path(index: u32) -> (path: String)
    ensures
        path@ == "m/44'/637'/"@ + decimal_text(index as nat) + "'/0'/0'"@,
{
    let mut path = "m/44'/637'/".to_owned();
    let number = decimal(index as u64);
    path.append(number.as_str());
    path.append("'/0'/0'");
    path
}

/// The text of the error for a batch that asks for too many accounts.
pub open spec fn batch_too_large() -> Seq<char> {
    "Unexpected Error: Make sure the range is less than or equal to 10"@
}

/// The range of account indices that a batch covers: the one asked for, or
/// the first ten if none is. The range is given by its start and its end,
/// the end not included. A range of more than ten accounts is refused.
pub fn batch_range(index_range: Option<(u32, u32)>) -> (r: Result<(u32, u32), LumioLedgerError>)
    requires
        match index_range {
            Some(range) => range.0 <= range.1,
            None => true,
        },
    ensures
        match index_range {
            None => (r matches Ok(range) && range == (0u32, 10u32)),
            Some(asked) => if asked.1 - asked.0 > MAX_BATCH {
                (r matches Err(e) && e@ == LedgerErrorView::UnexpectedError(
                    batch_too_large(),
                    None,
                ))
            } else {
                (r matches Ok(range) && range == asked)
            },
        },
{
    let range = match index_range {
        Some(range) => range,
        None => (0, 10),
    };
    if range.1 - range.0 > MAX_BATCH {
        return Err(
            LumioLedgerError::UnexpectedError(
                "Unexpected Error: Make sure the range is less than or equal to 10".to_owned(),
                None,
            ),
        );
    }
    Ok(range)
}

/// The error that stands for a failure of the transport: the text is the
/// one that the transport gave.
pub fn transport_failure(text: String) -> (e: LumioLedgerError)
    ensures
        e@ == LedgerErrorView::UnexpectedError(text@, None),
{
    LumioLedgerError::UnexpectedError(text, None)
}

/// The error that an answer with a status code other than success stands for.
pub fn status_failure(retcode: u16) -> (e: LumioLedgerError)
    ensures
        e@ == LedgerErrorView::LumioError(LumioLedgerStatusCode::of_code(retcode)),
{
    LumioLedgerError::LumioError(LumioLedgerStatusCode::map_status_code(retcode))
}

/// Reads the answer to the request for the version: on success, the first
/// three bytes are major, minor and patch.
pub fn parse_version(retcode: u16, data: &[u8]) -> (r: Result<Version, LumioLedgerError>)
    requires
        retcode == APDU_CODE_SUCCESS ==> data@.len() >= 3,
    ensures
        match r {
            Ok(v) => retcode == APDU_CODE_SUCCESS && v == (Version {
                major: data@[0],
                minor: data@[1],
                patch: data@[2],
            }),
            Err(e) => retcode != APDU_CODE_SUCCESS && e@ == LedgerErrorView::LumioError(
                LumioLedgerStatusCode::of_code(retcode),
            ),
        },
{
    if retcode == APDU_CODE_SUCCESS {
        Ok(Version { major: data[0], minor: data[1], patch: data[2] })
    } else {
        Err(status_failure(retcode))
    }
}

/// `core::str::Utf8Error`, the error of text that is not valid UTF-8. It
/// is carried through as it is.
#[verifier::external_type_specification]
#[verifier::external_body]
pub struct ExUtf8Error(core::str::Utf8Error);

/// `core::str::from_utf8`: the bytes as text, if they are valid UTF-8, and
/// an error if they are not. The text is made of the very bytes given.
#[verifier::external_body]
fn decode_utf8(data: &[u8]) -> (r: Result<&str, core::str::Utf8Error>)
    ensures
        match r {
            Ok(text) => valid_utf8(data@) && text.spec_bytes() == data@,
            Err(_) => !valid_utf8(data@),
        },
{
    core::str::from_utf8(data)
}

/// Reads the answer to the request for the name of the application: on
/// success, the bytes of the answer are the name, in UTF-8.
pub fn parse_app_name(retcode: u16, data: &[u8]) -> (r: Result<String, LumioLedgerError>)
    ensures
        match r {
            Ok(name) => retcode == APDU_CODE_SUCCESS && valid_utf8(data@) && encode_utf8(name@)
                == data@,
            Err(e) => if retcode == APDU_CODE_SUCCESS {
                !valid_utf8(data@) && (e@ matches LedgerErrorView::UnexpectedError(_, code)
                    && code.is_none())
            } else {
                e@ == LedgerErrorView::LumioError(LumioLedgerStatusCode::of_code(retcode))
            },
        },
{
    if retcode == APDU_CODE_SUCCESS {
        match decode_utf8(data) {
            Ok(text) => Ok(text.to_owned()),
            Err(error) => Err(LumioLedgerError::UnexpectedError(error.to_string(), None)),
        }
    } else {
        Err(status_failure(retcode))
    }
}

/// The bytes in lower-case hexadecimal, two digits a byte.
pub open spec fn hex_of(data: Seq<u8>) -> Seq<char>
    decreases data.len(),
{
    if data.len() == 0 {
        Seq::empty()
    } else {
        hex_of(data.drop_last()) + digit_text((data.last() / 16) as nat) + digit_text(
            (data.last() % 16) as nat,
        )
    }
}

/// `hex::encode`: the bytes as text in lower-case hexadecimal, each byte as
/// two digits, the high half first.
#[verifier::external_body]
fn hex_encode(data: &Vec<u8>) -> (text: String)
    ensures
        text@ == hex_of(data@),
{
    hex::encode(data)
}

/// The bytes of `data` from `from` up to, not including, `to`.
fn copy_range(data: &[u8], from: usize, to: usize) -> (part: Vec<u8>)
    requires
        from <= to <= data@.len(),
    ensures
        part@ == data@.subrange(from as int, to as int),
{
    let mut part: Vec<u8> = Vec::new();
    let mut i = from;
    while i < to
        invariant
            from <= i <= to <= data@.len(),
            part@ == data@.subrange(from as int, i as int),
        decreases to - i,
    {
        part.push(data[i]);
        assert(part@ =~= data@.subrange(from as int, i + 1));
        i = i + 1;
    }
    part
}

/// The answer holds a whole public key: a length byte that counts the key
/// and the marker byte before it, the marker byte, and the key.
pub open spec fn holds_key(data: Seq<u8>) -> bool {
    data.len() >= 1 && data[0] >= 1 && data.len() >= data[0] + 1
}

/// Tells whether the answer holds a whole public key.
pub fn key_answer_is_complete(data: &[u8]) -> (b: bool)
    ensures
        b == holds_key(data@),
{
    data.len() >= 1 && data[0] >= 1 && data.len() >= data[0] as usize + 1
}

/// Reads the answer to the request for a public key: on success, the key in
/// lower-case hexadecimal. The first byte of the answer is the length of
/// the key plus one; the second byte is skipped; the key follows.
pub fn parse_public_key(retcode: u16, data: &[u8]) -> (r: Result<String, LumioLedgerError>)
    requires
        retcode == APDU_CODE_SUCCESS ==> holds_key(data@),
    ensures
        match r {
            Ok(text) => retcode == APDU_CODE_SUCCESS && text@ == hex_of(
                data@.subrange(2, data@[0] + 1),
            ),
            Err(e) => retcode != APDU_CODE_SUCCESS && e@ == LedgerErrorView::LumioError(
                LumioLedgerStatusCode::of_code(retcode),
            ),
        },
{
    if retcode == APDU_CODE_SUCCESS {
        let pub_key_len: usize = (data[0] - 1) as usize;
        let key = copy_range(data, 2, 2 + pub_key_len);
        Ok(hex_encode(&key))
    } else {
        Err(status_failure(retcode))
    }
}

/// The answer holds a whole signature: a length byte, and as many bytes after it.
pub open spec fn holds_signature(data: Seq<u8>) -> bool {
    data.len() >= 1 && data.len() >= data[0] + 1
}

/// Tells whether the answer holds a whole signature.
pub fn signature_answer_is_complete(data: &[u8]) -> (b: bool)
    ensures
        b == holds_signature(data@),
{
    data.len() >= 1 && data.len() >= data[0] as usize + 1
}

/// Number of frames that a message is sent in, the opening frame not counted.
pub open spec fn chunk_count(len: nat) -> nat {
    (len + 254) / 255
}

/// The frame that carries chunk `i` of the message.
pub open spec fn chunk_frame(message: Seq<u8>, i: nat) -> Frame {
    let count = chunk_count(message.len());
    Frame {
        cla: CLA_LUMIO,
        ins: INS_SIGN_TXN,
        p1: ((i + 1) % 256) as u8,
        p2: if i + 1 == count {
            P2_LAST
        } else {
            P2_MORE
        },
        data: message.subrange(
            i as int * 255,
            if (i + 1) * 255 <= message.len() {
                (i as int + 1) * 255
            } else {
                message.len() as int
            },
        ),
    }
}

/// The frame that opens a signing exchange: it carries the derivation path.
pub open spec fn sign_start_frame(path: Seq<u8>) -> Frame {
    Frame { cla: CLA_LUMIO, ins: INS_SIGN_TXN, p1: P1_START, p2: P2_MORE, data: encoding(path) }
}

/// The frames of a signing exchange, in the order in which they are sent:
/// the opening frame with the derivation path, then the message in chunks
/// of at most 255 bytes, the last of them marked as last. None if the path
/// cannot be put on the wire.
pub fn sign_requests(path: &str, raw_message: &[u8]) -> (r: Option<Vec<ApduCommand>>)
    ensures
        match r {
            Some(frames) => {
                &&& serializable(path.spec_bytes())
                &&& frames@.len() == 1 + chunk_count(raw_message@.len())
                &&& frames@[0]@ == sign_start_frame(path.spec_bytes())
                &&& forall|i: int|
                    0 <= i < chunk_count(raw_message@.len()) ==> (#[trigger] frames@[i + 1])@
                        == chunk_frame(raw_message@, i as nat)
            },
            None => !serializable(path.spec_bytes()),
        },
{
    let path_bytes = match try_serialize_bip32(path) {
        Some(bytes) => bytes,
        None => {
            return None;
        },
    };
    let n = raw_message.len();
    let count = n / MAX_APDU_LEN + if n % MAX_APDU_LEN == 0 {
        0
    } else {
        1
    };
    assert(count == chunk_count(n as nat));
    let mut frames: Vec<ApduCommand> = Vec::new();
    frames.push(
        ApduCommand {
            cla: CLA_LUMIO,
            ins: INS_SIGN_TXN,
            p1: P1_START,
            p2: P2_MORE,
            data: path_bytes,
        },
    );
    let mut i: usize = 0;
    while i < count
        invariant
            i <= count,
            n == raw_message@.len(),
            count == chunk_count(n as nat),
            frames@.len() == 1 + i,
            frames@[0]@ == sign_start_frame(path.spec_bytes()),
            forall|j: int|
                0 <= j < i ==> (#[trigger] frames@[j + 1])@ == chunk_frame(raw_message@, j as nat),
        decreases count - i,
    {
        let from = i * MAX_APDU_LEN;
        let to = if n - from >= MAX_APDU_LEN {
            from + MAX_APDU_LEN
        } else {
            n
        };
        let chunk = copy_range(raw_message, from, to);
        let ghost before = frames@;
        frames.push(
            ApduCommand {
                cla: CLA_LUMIO,
                ins: INS_SIGN_TXN,
                p1: ((i + 1) % 256) as u8,
                p2: if i + 1 == count {
                    P2_LAST
                } else {
                    P2_MORE
                },
                data: chunk,
            },
        );
        proof {
            assert forall|j: int| 0 <= j < i + 1 implies (#[trigger] frames@[j + 1])@
                == chunk_frame(raw_message@, j as nat) by {
                if j < i {
                    assert(frames@[j + 1] == before[j + 1]);
                }
            }
        }
        i = i + 1;
    }
    Some(frames)
}

/// What an answer means for a signing exchange.
#[derive(Debug)]
pub enum SignProgress {
    /// The next frame can be sent.
    Continue,
    /// The exchange is over; these are the bytes of the signature.
    Done(Vec<u8>),
    /// The exchange has failed.
    Failed(LumioLedgerError),
}

/// Reads the answer to a frame that carried a chunk of the message. An
/// answer other than success ends the exchange with its status. A success
/// on the last chunk carries the signature: a length byte, then the
/// signature. A success on an earlier chunk lets the exchange go on.
pub fn after_sign_chunk(is_last_chunk: bool, retcode: u16, data: &[u8]) -> (r: SignProgress)
    requires
        is_last_chunk && retcode == APDU_CODE_SUCCESS ==> holds_signature(data@),
    ensures
        match r {
            SignProgress::Continue => retcode == APDU_CODE_SUCCESS && !is_last_chunk,
            SignProgress::Done(signature) => retcode == APDU_CODE_SUCCESS && is_last_chunk
                && signature@ == data@.subrange(1, 1 + data@[0]),
            SignProgress::Failed(e) => retcode != APDU_CODE_SUCCESS && e@
                == LedgerErrorView::LumioError(LumioLedgerStatusCode::of_code(retcode)),
        },
{
    if retcode == APDU_CODE_SUCCESS {
        if is_last_chunk {
            let signature_len: usize = data[0] as usize;
            SignProgress::Done(copy_range(data, 1, 1 + signature_len))
        } else {
            SignProgress::Continue
        }
    } else {
        SignProgress::Failed(status_failure(retcode))
    }
}

/// The error of a signing exchange that had no message to send.
pub fn nothing_to_sign() -> (e: LumioLedgerError)
    ensures
        e@ == LedgerErrorView::UnexpectedError("Unable to process request"@, None),
{
    LumioLedgerError::UnexpectedError("Unable to process request".to_owned(), None)
}

} // verus!
