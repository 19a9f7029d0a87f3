//! Identifiers of records: the base identifier that all revisions of a
//! record share, and the identifier of one revision.

use crate::text::text_is;
use vstd::prelude::*;

verus! {

/// The character that ends every base identifier.
pub open spec fn separator() -> char {
    '/'
}

/// The decimal digit for a value below ten.
pub open spec fn digit(value: nat) -> Seq<char> {
    if value == 0 {
        "0"@
    } else if value == 1 {
        "1"@
    } else if value == 2 {
        "2"@
    } else if value == 3 {
        "3"@
    } else if value == 4 {
        "4"@
    } else if value == 5 {
        "5"@
    } else if value == 6 {
        "6"@
    } else if value == 7 {
        "7"@
    } else if value == 8 {
        "8"@
    } else {
        "9"@
    }
}

/// The decimal spelling of a number, without leading zeros.
pub open spec fn decimal(value: nat) -> Seq<char>
    decreases value,
{
    if value < 10 {
        digit(value)
    } else {
        decimal(value / 10) + digit(value % 10)
    }
}

fn digit_text(value: u64) -> (text: &'static str)
    requires
        value < 10,
    ensures
        text@ == digit(value as nat),
{
    if value == 0 {
        "0"
    } else if value == 1 {
        "1"
    } else if value == 2 {
        "2"
    } else if value == 3 {
        "3"
    } else if value == 4 {
        "4"
    } else if value == 5 {
        "5"
    } else if value == 6 {
        "6"
    } else if value == 7 {
        "7"
    } else if value == 8 {
        "8"
    } else {
        "9"
    }
}

/// Spells a number in decimal.
pub fn decimal_text(value: u64) -> (text: String)
    ensures
        text@ == decimal(value as nat),
    decreases value,
{
    if value < 10 {
        String::from_str(digit_text(value))
    } else {
        let mut text = decimal_text(value / 10);
        text.append(digit_text(value % 10));
        text
    }
}

/// Why a text is no base identifier.
#[derive(Clone, Copy, Debug, PartialEq, Eq, Structural)]
pub enum ParseBaseUriError {
    /// The text does not end with the separator.
    MissingTrailingSlash,
}

/// The stable identifier that all revisions of one record share.
#[derive(Debug, PartialEq, Eq)]
pub struct BaseUri {
    uri: String,
}

impl View for BaseUri {
    type V = Seq<char>;

    closed spec fn view(&self) -> Seq<char> {
        self.uri@
    }
}

impl BaseUri {
    /// Whether a text can serve as a base identifier: it ends with the
    /// separator, so that a version can follow it.
    pub open spec fn valid(text: Seq<char>) -> bool {
        text.len() > 0 && text.last() == separator()
    }

    /// The identifier always ends with the separator.
    #[verifier::type_invariant]
    closed spec fn well_formed(self) -> bool {
        Self::valid(self.uri@)
    }

    /// Takes a text as a base identifier.
    pub fn new(uri: String) -> (outcome: Result<BaseUri, ParseBaseUriError>)
        ensures
            Self::valid(uri@) ==> outcome is Ok && outcome->Ok_0@ == uri@,
            !Self::valid(uri@) ==> outcome == Err::<BaseUri, ParseBaseUriError>(
                ParseBaseUriError::MissingTrailingSlash,
            ),
    {
        let length = uri.as_str().unicode_len();
        if length > 0 && uri.as_str().get_char(length - 1) == '/' {
            Ok(BaseUri { uri })
        } else {
            Err(ParseBaseUriError::MissingTrailingSlash)
        }
    }

    /// The text of the identifier.
    pub fn as_str(&self) -> (text: &str)
        ensures
            text@ == self@,
            Self::valid(self@),
    {
        proof {
            use_type_invariant(self);
        }
        self.uri.as_str()
    }

    /// An independent copy of the identifier.
    pub fn to_owned(&self) -> (copy: BaseUri)
        ensures
            copy@ == self@,
    {
        proof {
            use_type_invariant(self);
        }
        BaseUri { uri: self.uri.clone() }
    }
}

/// The identifier of one revision of a record: the base identifier and the
/// number of the revision.
#[derive(Debug, PartialEq, Eq)]
pub struct VersionedUri {
    base_uri: BaseUri,
    version: u32,
}

/// What a [`VersionedUri`] holds, as a mathematical value.
pub struct VersionedUriModel {
    pub base_uri: Seq<char>,
    pub version: u32,
}

impl VersionedUriModel {
    /// The text of the identifier: the base identifier, `v/` and the
    /// version in decimal.
    pub open spec fn text(self) -> Seq<char> {
        self.base_uri + "v/"@ + decimal(self.version as nat)
    }
}

impl View for VersionedUri {
    type V = VersionedUriModel;

    closed spec fn view(&self) -> VersionedUriModel {
        VersionedUriModel { base_uri: self.base_uri@, version: self.version }
    }
}

impl VersionedUri {
    /// The identifier of revision `version` of the record `base_uri`.
    pub fn new(base_uri: BaseUri, version: u32) -> (id: VersionedUri)
        ensures
            id@ == (VersionedUriModel { base_uri: base_uri@, version }),
    {
        VersionedUri { base_uri, version }
    }

    pub fn base_uri(&self) -> (base_uri: &BaseUri)
        ensures
            base_uri@ == self@.base_uri,
    {
        &self.base_uri
    }

    pub fn version(&self) -> (version: u32)
        ensures
            version == self@.version,
    {
        self.version
    }

    /// The identifier of the revision that follows this one, if one can.
    pub fn next(&self) -> (next: Option<VersionedUri>)
        ensures
            self@.version < u32::MAX ==> next is Some && next->Some_0@ == (VersionedUriModel {
                base_uri: self@.base_uri,
                version: (self@.version + 1) as u32,
            }),
            self@.version == u32::MAX ==> next is None,
    {
        if self.version < u32::MAX {
            Some(VersionedUri { base_uri: self.base_uri.to_owned(), version: self.version + 1 })
        } else {
            None
        }
    }

    /// Whether two identifiers name the same revision.
    pub fn same(&self, other: &VersionedUri) -> (same: bool)
        ensures
            same == (self@ == other@),
    {
        self.version == other.version && text_is(
            self.base_uri.as_str(),
            other.base_uri.as_str(),
        )
    }

    /// An independent copy of the identifier.
    pub fn to_owned(&self) -> (copy: VersionedUri)
        ensures
            copy@ == self@,
    {
        VersionedUri { base_uri: self.base_uri.to_owned(), version: self.version }
    }

    /// The text of the identifier.
    pub fn to_string(&self) -> (text: String)
        ensures
            text@ == self@.text(),
    {
        let mut text = self.base_uri.as_str().to_owned();
        text.append("v/");
        let version = decimal_text(self.version as u64);
        text.append(version.as_str());
        text
    }
}

/// The identifier of an entity.
#[derive(Clone, Copy, Debug, PartialEq, Eq, Structural)]
pub struct EntityId {
    uuid: u128,
}

impl EntityId {
    pub closed spec fn uuid(self) -> u128 {
        self.uuid
    }

    /// The identifier with the given UUID, as its 128-bit value.
    pub fn new(uuid: u128) -> (id: EntityId)
        ensures
            id.uuid() == uuid,
    {
        EntityId { uuid }
    }

    /// The UUID of the entity, as its 128-bit value.
    pub fn as_uuid(&self) -> (uuid: u128)
        ensures
            uuid == self.uuid(),
    {
        self.uuid
    }
}

} // verus!
