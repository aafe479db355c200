//! The field model: the attribute kinds a record can hold, their type codes
//! in the store's format, and the decoding of one `(type code, bytes)` pair.

use pwsafer::PwsafeRecordField;
use vstd::prelude::*;
use vstd::utf8::{decode_utf8, valid_utf8};

use crate::text::{decimal, decimal_string};

verus! {

/// Type code of the unique identifier of a record.
pub const CODE_UNIQUE_ID: u8 = 0x01;

/// Type code of the group a record is filed under.
pub const CODE_GROUP: u8 = 0x02;

/// Type code of the title of a record.
pub const CODE_TITLE: u8 = 0x03;

/// Type code of the user name.
pub const CODE_USERNAME: u8 = 0x04;

/// Type code of the free-text notes.
pub const CODE_NOTES: u8 = 0x05;

/// Type code of the password.
pub const CODE_PASSWORD: u8 = 0x06;

/// Type code of the URL.
pub const CODE_URL: u8 = 0x0d;

/// Type code of the e-mail address.
pub const CODE_EMAIL_ADDRESS: u8 = 0x14;

/// Type code of the sentinel that ends a record.
pub const CODE_END_OF_RECORD: u8 = 0xff;

/// The kind of a field: one of the attributes this library reads, the
/// sentinel that ends a record, or any other type code of the store.
#[derive(Clone, Copy, Debug, PartialEq, Eq, Structural)]
pub enum FieldKind {
    UniqueId,
    Group,
    Title,
    Username,
    Password,
    Url,
    EmailAddress,
    Notes,
    EndOfRecord,
    Other(u8),
}

impl FieldKind {
    /// The kind that a type code stands for.
    pub open spec fn spec_of_code(type_code: u8) -> FieldKind {
        if type_code == CODE_UNIQUE_ID {
            FieldKind::UniqueId
        } else if type_code == CODE_GROUP {
            FieldKind::Group
        } else if type_code == CODE_TITLE {
            FieldKind::Title
        } else if type_code == CODE_USERNAME {
            FieldKind::Username
        } else if type_code == CODE_NOTES {
            FieldKind::Notes
        } else if type_code == CODE_PASSWORD {
            FieldKind::Password
        } else if type_code == CODE_URL {
            FieldKind::Url
        } else if type_code == CODE_EMAIL_ADDRESS {
            FieldKind::EmailAddress
        } else if type_code == CODE_END_OF_RECORD {
            FieldKind::EndOfRecord
        } else {
            FieldKind::Other(type_code)
        }
    }

    /// The type code that a kind is stored under.
    pub open spec fn spec_code(self) -> u8 {
        match self {
            FieldKind::UniqueId => CODE_UNIQUE_ID,
            FieldKind::Group => CODE_GROUP,
            FieldKind::Title => CODE_TITLE,
            FieldKind::Username => CODE_USERNAME,
            FieldKind::Notes => CODE_NOTES,
            FieldKind::Password => CODE_PASSWORD,
            FieldKind::Url => CODE_URL,
            FieldKind::EmailAddress => CODE_EMAIL_ADDRESS,
            FieldKind::EndOfRecord => CODE_END_OF_RECORD,
            FieldKind::Other(type_code) => type_code,
        }
    }

    /// Whether fields of this kind hold text that this library reads.
    pub open spec fn spec_is_text(self) -> bool {
        self == FieldKind::Group || self == FieldKind::Title || self == FieldKind::Username
            || self == FieldKind::Password || self == FieldKind::Url || self
            == FieldKind::EmailAddress || self == FieldKind::Notes
    }

    /// Classifies a type code.
    #[verifier::when_used_as_spec(spec_of_code)]
    pub fn of_code(type_code: u8) -> (kind: FieldKind)
        ensures
            kind == FieldKind::spec_of_code(type_code),
            kind.spec_code() == type_code,
    {
        if type_code == CODE_UNIQUE_ID {
            FieldKind::UniqueId
        } else if type_code == CODE_GROUP {
            FieldKind::Group
        } else if type_code == CODE_TITLE {
            FieldKind::Title
        } else if type_code == CODE_USERNAME {
            FieldKind::Username
        } else if type_code == CODE_NOTES {
            FieldKind::Notes
        } else if type_code == CODE_PASSWORD {
            FieldKind::Password
        } else if type_code == CODE_URL {
            FieldKind::Url
        } else if type_code == CODE_EMAIL_ADDRESS {
            FieldKind::EmailAddress
        } else if type_code == CODE_END_OF_RECORD {
            FieldKind::EndOfRecord
        } else {
            FieldKind::Other(type_code)
        }
    }

    /// The type code of this kind.
    #[verifier::when_used_as_spec(spec_code)]
    pub fn code(self) -> (type_code: u8)
        ensures
            type_code == self.spec_code(),
    {
        match self {
            FieldKind::UniqueId => CODE_UNIQUE_ID,
            FieldKind::Group => CODE_GROUP,
            FieldKind::Title => CODE_TITLE,
            FieldKind::Username => CODE_USERNAME,
            FieldKind::Notes => CODE_NOTES,
            FieldKind::Password => CODE_PASSWORD,
            FieldKind::Url => CODE_URL,
            FieldKind::EmailAddress => CODE_EMAIL_ADDRESS,
            FieldKind::EndOfRecord => CODE_END_OF_RECORD,
            FieldKind::Other(type_code) => type_code,
        }
    }

    /// Whether fields of this kind hold text that this library reads.
    #[verifier::when_used_as_spec(spec_is_text)]
    pub fn is_text(self) -> (yes: bool)
        ensures
            yes == self.spec_is_text(),
    {
        match self {
            FieldKind::Group
            | FieldKind::Title
            | FieldKind::Username
            | FieldKind::Password
            | FieldKind::Url
            | FieldKind::EmailAddress
            | FieldKind::Notes => true,
            _ => false,
        }
    }
}

/// One decoded attribute of a record.
#[derive(Clone, Debug, PartialEq, Eq)]
pub enum Field {
    UniqueId([u8; 16]),
    Group(String),
    Title(String),
    Username(String),
    Password(String),
    Url(String),
    EmailAddress(String),
    Notes(String),
    EndOfRecord,
    Other(u8),
}

/// What a [`Field`] holds, as mathematical values.
pub enum FieldView {
    UniqueId(Seq<u8>),
    Group(Seq<char>),
    Title(Seq<char>),
    Username(Seq<char>),
    Password(Seq<char>),
    Url(Seq<char>),
    EmailAddress(Seq<char>),
    Notes(Seq<char>),
    EndOfRecord,
    Other(u8),
}

impl FieldView {
    /// The kind of the field.
    pub open spec fn kind(self) -> FieldKind {
        match self {
            FieldView::UniqueId(_) => FieldKind::UniqueId,
            FieldView::Group(_) => FieldKind::Group,
            FieldView::Title(_) => FieldKind::Title,
            FieldView::Username(_) => FieldKind::Username,
            FieldView::Password(_) => FieldKind::Password,
            FieldView::Url(_) => FieldKind::Url,
            FieldView::EmailAddress(_) => FieldKind::EmailAddress,
            FieldView::Notes(_) => FieldKind::Notes,
            FieldView::EndOfRecord => FieldKind::EndOfRecord,
            FieldView::Other(type_code) => FieldKind::Other(type_code),
        }
    }

    /// The text of a text field.
    pub open spec fn text(self) -> Option<Seq<char>> {
        match self {
            FieldView::Group(t)
            | FieldView::Title(t)
            | FieldView::Username(t)
            | FieldView::Password(t)
            | FieldView::Url(t)
            | FieldView::EmailAddress(t)
            | FieldView::Notes(t) => Some(t),
            _ => None,
        }
    }

    /// The bytes of a unique identifier.
    pub open spec fn id(self) -> Option<Seq<u8>> {
        match self {
            FieldView::UniqueId(bytes) => Some(bytes),
            _ => None,
        }
    }

    /// The text field of kind `kind` that holds `text`.
    pub open spec fn of_text(kind: FieldKind, text: Seq<char>) -> FieldView
        recommends
            kind.spec_is_text(),
    {
        match kind {
            FieldKind::Group => FieldView::Group(text),
            FieldKind::Title => FieldView::Title(text),
            FieldKind::Username => FieldView::Username(text),
            FieldKind::Password => FieldView::Password(text),
            FieldKind::Url => FieldView::Url(text),
            FieldKind::EmailAddress => FieldView::EmailAddress(text),
            _ => FieldView::Notes(text),
        }
    }
}

impl View for Field {
    type V = FieldView;

    open spec fn view(&self) -> FieldView {
        match *self {
            Field::UniqueId(bytes) => FieldView::UniqueId(bytes@),
            Field::Group(t) => FieldView::Group(t@),
            Field::Title(t) => FieldView::Title(t@),
            Field::Username(t) => FieldView::Username(t@),
            Field::Password(t) => FieldView::Password(t@),
            Field::Url(t) => FieldView::Url(t@),
            Field::EmailAddress(t) => FieldView::EmailAddress(t@),
            Field::Notes(t) => FieldView::Notes(t@),
            Field::EndOfRecord => FieldView::EndOfRecord,
            Field::Other(type_code) => FieldView::Other(type_code),
        }
    }
}

impl Field {
    /// The kind of this field.
    pub fn kind(&self) -> (kind: FieldKind)
        ensures
            kind == self@.kind(),
    {
        match self {
            Field::UniqueId(_) => FieldKind::UniqueId,
            Field::Group(_) => FieldKind::Group,
            Field::Title(_) => FieldKind::Title,
            Field::Username(_) => FieldKind::Username,
            Field::Password(_) => FieldKind::Password,
            Field::Url(_) => FieldKind::Url,
            Field::EmailAddress(_) => FieldKind::EmailAddress,
            Field::Notes(_) => FieldKind::Notes,
            Field::EndOfRecord => FieldKind::EndOfRecord,
            Field::Other(type_code) => FieldKind::Other(*type_code),
        }
    }

    /// The text of a text field, and `None` for every other field.
    pub fn text(&self) -> (text: Option<&String>)
        ensures
            match text {
                Some(t) => self@.text() == Some(t@),
                None => self@.text() is None,
            },
    {
        match self {
            Field::Group(t)
            | Field::Title(t)
            | Field::Username(t)
            | Field::Password(t)
            | Field::Url(t)
            | Field::EmailAddress(t)
            | Field::Notes(t) => Some(t),
            _ => None,
        }
    }

    /// The bytes of a unique identifier, and `None` for every other field.
    pub fn id(&self) -> (id: Option<&[u8; 16]>)
        ensures
            match id {
                Some(bytes) => self@.id() == Some(bytes@),
                None => self@.id() is None,
            },
    {
        match self {
            Field::UniqueId(bytes) => Some(bytes),
            _ => None,
        }
    }

    /// Decodes the payload `data` of a field stored under `type_code`.
    ///
    /// Succeeds exactly on the payloads that are [`well_formed`] for the type
    /// code, with the field that [`decoded`] describes. A payload that is not
    /// is never turned into a field of another kind: it is reported, with the
    /// type code and the reason.
    pub fn decode(type_code: u8, data: &[u8]) -> (result: Result<Field, DecodeError>)
        ensures
            result is Ok <==> well_formed(type_code, data@),
            match result {
                Ok(field) => {
                    &&& decoded(type_code, data@) == Some(field@)
                    &&& field@.kind() == FieldKind::spec_of_code(type_code)
                },
                Err(error) => {
                    &&& decoded(type_code, data@) is None
                    &&& error.type_code == type_code
                    &&& error.reason@ == rejection_text(type_code, data@)
                    &&& has_wrong_length(type_code, data@) ==> error.reason@
                        == "Invalid field length"@
                },
            },
    {
        match parse_with_pwsafer(type_code, data) {
            Ok(field) => Ok(field),
            Err(reason) => Err(DecodeError { type_code, reason }),
        }
    }
}

/// Why a payload was not decoded.
#[derive(Clone, Debug, PartialEq, Eq)]
pub struct DecodeError {
    /// The type code the payload was stored under.
    pub type_code: u8,
    /// What was wrong with the payload.
    pub reason: String,
}

impl DecodeError {
    /// The diagnostic that a record keeps for this failure.
    pub fn message(&self) -> (message: String)
        ensures
            message@ == error_message(self.type_code, self.reason@),
    {
        let mut message = String::from_str("Error reading field(");
        let code = decimal_string(self.type_code);
        message.append(code.as_str());
        message.append("): ");
        message.append(self.reason.as_str());
        message
    }
}

/// The diagnostic for a payload of `type_code` that was rejected for `reason`.
pub open spec fn error_message(type_code: u8, reason: Seq<char>) -> Seq<char> {
    "Error reading field("@ + decimal(type_code as nat) + "): "@ + reason
}

/// The payload length that the store's format fixes for a type code, where
/// it fixes one: 16 bytes for the unique identifier, 4 for the time stamps,
/// the expiry interval and the keyboard shortcut, 2 for the click actions,
/// 1 for the protected-entry flag.
pub open spec fn fixed_length(type_code: u8) -> Option<nat> {
    if type_code == CODE_UNIQUE_ID {
        Some(16)
    } else if type_code == 0x07 || type_code == 0x08 || type_code == 0x09 || type_code == 0x0a
        || type_code == 0x0c || type_code == 0x11 || type_code == 0x19 {
        Some(4)
    } else if type_code == 0x13 || type_code == 0x17 {
        Some(2)
    } else if type_code == 0x15 {
        Some(1)
    } else {
        None
    }
}

/// Whether the store's format holds text under a type code: the text kinds
/// that this library reads and the text attributes that it passes over
/// (autotype, password history and policy, run command, own symbols, policy
/// name, credit-card data, QR code).
pub open spec fn holds_text(type_code: u8) -> bool {
    ||| FieldKind::spec_of_code(type_code).spec_is_text()
    ||| type_code == 0x0e
    ||| type_code == 0x0f
    ||| type_code == 0x10
    ||| type_code == 0x12
    ||| type_code == 0x16
    ||| type_code == 0x18
    ||| 0x1c <= type_code <= 0x20
}

/// Whether a payload has another length than the format fixes for its type code.
pub open spec fn has_wrong_length(type_code: u8, data: Seq<u8>) -> bool {
    fixed_length(type_code) matches Some(n) && data.len() != n
}

/// Whether a payload can be decoded under its type code: it has the fixed
/// length where there is one, and is UTF-8 where the code holds text.
pub open spec fn well_formed(type_code: u8, data: Seq<u8>) -> bool {
    &&& !has_wrong_length(type_code, data)
    &&& holds_text(type_code) ==> valid_utf8(data)
}

/// The field that a payload decodes to, and `None` where it is not well formed.
pub open spec fn decoded(type_code: u8, data: Seq<u8>) -> Option<FieldView> {
    if !well_formed(type_code, data) {
        None
    } else {
        let kind = FieldKind::spec_of_code(type_code);
        Some(
            if kind == FieldKind::UniqueId {
                FieldView::UniqueId(data)
            } else if kind.spec_is_text() {
                FieldView::of_text(kind, decode_utf8(data))
            } else if kind == FieldKind::EndOfRecord {
                FieldView::EndOfRecord
            } else {
                FieldView::Other(type_code)
            },
        )
    }
}

/// The text with which `pwsafer` rejects a payload that is not well formed.
pub uninterp spec fn rejection_text(type_code: u8, data: Seq<u8>) -> Seq<char>;

/// Decodes a payload with `pwsafer::PwsafeRecordField::new`.
///
/// Trusted: `pwsafer` accepts exactly the [`well_formed`] payloads; it gives
/// the identifier's bytes and the UTF-8 text unchanged, under the variant of
/// the type code; every variant that this library does not read becomes
/// `Other` with the type code. A rejection carries the text of `pwsafer`'s
/// error, which for a wrong length is "Invalid field length".
#[verifier::external_body]
fn parse_with_pwsafer(type_code: u8, data: &[u8]) -> (result: Result<Field, String>)
    ensures
        match result {
            Ok(field) => decoded(type_code, data@) == Some(field@),
            Err(reason) => {
                &&& decoded(type_code, data@) is None
                &&& reason@ == rejection_text(type_code, data@)
                &&& has_wrong_length(type_code, data@) ==> reason@ == "Invalid field length"@
            },
        },
{
    let parsed = PwsafeRecordField::new(type_code, data.to_vec());
    let parsed = match parsed { Ok(p) => p, Err(e) => return Err(e.to_string()) };
    Ok(match parsed {
        PwsafeRecordField::Uuid(bytes) => Field::UniqueId(bytes),
        PwsafeRecordField::Group(text) => Field::Group(text),
        PwsafeRecordField::Title(text) => Field::Title(text),
        PwsafeRecordField::Username(text) => Field::Username(text),
        PwsafeRecordField::Password(text) => Field::Password(text),
        PwsafeRecordField::Url(text) => Field::Url(text),
        PwsafeRecordField::EmailAddress(text) => Field::EmailAddress(text),
        PwsafeRecordField::Notes(text) => Field::Notes(text),
        PwsafeRecordField::EndOfRecord => Field::EndOfRecord,
        _ => Field::Other(type_code),
    })
}

} // verus!
