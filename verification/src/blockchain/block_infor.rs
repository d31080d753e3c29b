use crate::primitives::ed25519::{decodes, ed25519_decodes, ed25519_verify_strict, verify_strict};
use crate::primitives::encoding::{base64_url, base64_url_decode, base64_url_encode, law_base64_url_decodes_back};
use crate::primitives::mime::{detect_mime_type, mime_detected_from};
use crate::text::{decimal, decimal_int, push_decimal, push_decimal_signed};
use vstd::slice::slice_to_vec;
use vstd::array::array_as_slice;
use vstd::prelude::*;
use vstd::string::StringExecFns;
use vstd::utf8::encode_utf8;

verus! {

/// How a stored file is served.
#[derive(Clone, Copy, Debug, PartialEq, Eq, Structural)]
pub enum FileType {
    Frontend,
    DataStore,
}

/// One record on the chain: a stored file (its data as a `data:` URL), or a plain
/// transfer of tokens when it holds no data.
///
/// Token amounts are whole nano-tokens: storing a file costs one nano-token per
/// byte, that is one token per gigabyte.
#[derive(Clone, Debug, PartialEq)]
pub struct BlockInformation {
    /// The file as a `data:` URL (MIME type, then the URL-safe Base64 of the bytes).
    pub data: Option<String>,
    /// The domain that hosts the file.
    pub linked_uri: String,
    /// The creator's public key.
    pub creator: Vec<u8>,
    /// The file's version.
    pub version: String,
    /// How the file is served.
    pub file_type: FileType,
    /// The creator's signature over the linked URI, the timestamp and the amount.
    pub signature: Vec<u8>,
    /// Timestamp of the record, which also serves as a nonce.
    pub timestamp: i128,
    /// Tokens transferred, in nano-tokens.
    pub tokens_transferred: u64,
    /// The receiving account.
    pub to_acct_id: String,
}

/// The value of a `BlockInformation`.
pub ghost struct InformationView {
    pub data: Option<Seq<char>>,
    pub linked_uri: Seq<char>,
    pub creator: Seq<u8>,
    pub version: Seq<char>,
    pub file_type: FileType,
    pub signature: Seq<u8>,
    pub timestamp: i128,
    pub tokens_transferred: u64,
    pub to_acct_id: Seq<char>,
}

/// The value of an optional string.
pub open spec fn option_string_view(s: Option<String>) -> Option<Seq<char>> {
    match s {
        Some(t) => Some(t@),
        None => None,
    }
}

impl View for BlockInformation {
    type V = InformationView;

    open spec fn view(&self) -> InformationView {
        InformationView {
            data: option_string_view(self.data),
            linked_uri: self.linked_uri@,
            creator: self.creator@,
            version: self.version@,
            file_type: self.file_type,
            signature: self.signature@,
            timestamp: self.timestamp,
            tokens_transferred: self.tokens_transferred,
            to_acct_id: self.to_acct_id@,
        }
    }
}


/// The `data:` URL of a file: its MIME type, then the URL-safe Base64 of its bytes.
pub open spec fn data_url(mime_type: Seq<char>, bytes: Seq<u8>) -> Seq<char> {
    "data:"@ + mime_type + ","@ + base64_url(bytes)
}

/// A `data:` URL carries exactly the file's bytes: it is `data:`, the MIME type
/// and a comma, followed by text that Base64 decodes back to the bytes. When the
/// MIME type holds no comma, that comma is the URL's first, so the text after
/// the first comma is the Base64 of the bytes.
pub proof fn law_data_url_carries_the_file(mime_type: Seq<char>, bytes: Seq<u8>)
    ensures
        data_url(mime_type, bytes).take(mime_type.len() + 6int) == "data:"@ + mime_type + ","@,
        base64_url_decode(data_url(mime_type, bytes).skip(mime_type.len() + 6int)) == bytes,
        !mime_type.contains(',') ==> {
            &&& data_url(mime_type, bytes)[mime_type.len() + 5int] == ','
            &&& forall|k: int| 0 <= k < mime_type.len() + 5 ==> #[trigger] data_url(mime_type, bytes)[k] != ','
        },
{
    reveal_strlit("data:");
    reveal_strlit(",");
    let head = "data:"@ + mime_type + ","@;
    let url = data_url(mime_type, bytes);
    assert(url == head + base64_url(bytes));
    assert(head.len() == mime_type.len() + 6);
    assert(url.take(head.len() as int) =~= head);
    assert(url.skip(head.len() as int) =~= base64_url(bytes));
    law_base64_url_decodes_back(bytes);
    if !mime_type.contains(',') {
        assert(url[mime_type.len() + 5int] == head[mime_type.len() + 5int]);
        assert forall|k: int| 0 <= k < mime_type.len() + 5 implies #[trigger] url[k] != ',' by {
            assert(url[k] == head[k]);
            if k >= 5 {
                assert(head[k] == mime_type[k - 5]);
                assert(mime_type.contains(mime_type[k - 5]) ==> mime_type[k - 5] != ',');
            }
        }
    }
}

/// The fee for storing `len` bytes, in nano-tokens: one per byte, that is one
/// token per gigabyte.
pub open spec fn storage_fee(len: nat) -> nat {
    len
}

/// The record of a stored file, whose fee goes to the network.
pub open spec fn file_record_view(
    mime_type: Seq<char>,
    creator: Seq<u8>,
    version: Seq<char>,
    linked_uri: Seq<char>,
    bytes: Seq<u8>,
    file_type: FileType,
    signature: Seq<u8>,
    timestamp: i128,
    tokens_transferred: u64,
) -> InformationView {
    InformationView {
        data: Some(data_url(mime_type, bytes)),
        linked_uri,
        creator,
        version,
        file_type,
        signature,
        timestamp,
        tokens_transferred,
        to_acct_id: "network"@,
    }
}

/// The record of a transfer that stores no file.
pub open spec fn transfer_record_view(
    creator: Seq<u8>,
    signature: Seq<u8>,
    timestamp: i128,
    tokens_transferred: u64,
    to_acct_id: Seq<char>,
) -> InformationView {
    InformationView {
        data: None,
        linked_uri: ""@,
        creator,
        version: ""@,
        file_type: FileType::DataStore,
        signature,
        timestamp,
        tokens_transferred,
        to_acct_id,
    }
}

/// The text that the creator signs: the linked URI, the timestamp and the amount,
/// written one after the other.
pub open spec fn signed_message(v: InformationView) -> Seq<char> {
    v.linked_uri + decimal_int(v.timestamp as int) + decimal(v.tokens_transferred as nat)
}

/// Whether the creator's key and the signature decode.
pub open spec fn signature_decodes(v: InformationView) -> bool {
    ed25519_decodes(v.creator, v.signature)
}

/// Whether the signature is a valid strict Ed25519 signature of the creator on
/// the UTF-8 bytes of the signed text.
pub open spec fn signature_valid(v: InformationView) -> bool {
    ed25519_verify_strict(v.creator, encode_utf8(signed_message(v)), v.signature)
}

impl BlockInformation {
    /// Builds the record of a file of MIME type `mime_type`, with the fee paid to
    /// the network.
    pub fn file_record(
        mime_type: &str,
        creator: Vec<u8>,
        version: String,
        linked_uri: String,
        bytes: &[u8],
        file_type: FileType,
        signature: Vec<u8>,
        timestamp: i128,
        tokens_transferred: u64,
    ) -> (r: Self)
        ensures
            r@ == file_record_view(
                mime_type@,
                creator@,
                version@,
                linked_uri@,
                bytes@,
                file_type,
                signature@,
                timestamp,
                tokens_transferred,
            ),
    {
        let mut url = String::from_str("data:");
        url.append(mime_type);
        url.append(",");
        let encoded = base64_url_encode(bytes);
        url.append(encoded.as_str());
        BlockInformation {
            data: Some(url),
            linked_uri,
            creator,
            version,
            file_type,
            signature,
            timestamp,
            tokens_transferred,
            to_acct_id: String::from_str("network"),
        }
    }

    /// The constructor once the file's MIME type is known: a file record when
    /// the amount equals the storage fee of the data, `None` when it does not.
    pub fn with_mime_type(
        mime_type: &str,
        creator: Vec<u8>,
        version: Option<String>,
        linked_uri: Option<String>,
        data: &[u8],
        file_type: Option<FileType>,
        signature: Vec<u8>,
        timestamp: i128,
        tokens_transferred: u64,
    ) -> (r: Option<Self>)
        requires
            tokens_transferred == storage_fee(data@.len()) ==> version is Some && linked_uri is Some
                && file_type is Some,
        ensures
            r is Some <==> tokens_transferred == storage_fee(data@.len()),
            r is Some <==> tokens_transferred == data@.len(),
            r matches Some(info) ==> info@ == file_record_view(
                mime_type@,
                creator@,
                version.unwrap()@,
                linked_uri.unwrap()@,
                data@,
                file_type.unwrap(),
                signature@,
                timestamp,
                tokens_transferred,
            ),
    {
        if tokens_transferred as u128 == data.len() as u128 {
            Some(
                Self::file_record(
                    mime_type,
                    creator,
                    version.unwrap(),
                    linked_uri.unwrap(),
                    data,
                    file_type.unwrap(),
                    signature,
                    timestamp,
                    tokens_transferred,
                ),
            )
        } else {
            None
        }
    }

    /// Constructor for a record.
    ///
    /// With data, the record stores the file as a `data:` URL and pays its fee
    /// to the network; it exists only when `tokens_transferred` is the storage
    /// fee of the data (else `None`). Without data it is a transfer of
    /// `tokens_transferred` to `to_acct_id`.
    pub fn new(
        creator: [u8; 32],
        version: Option<String>,
        linked_uri: Option<String>,
        data: Option<&[u8]>,
        file_type: Option<FileType>,
        signature: Vec<u8>,
        timestamp: i128,
        tokens_transferred: u64,
        to_acct_id: Option<String>,
    ) -> (r: Option<Self>)
        requires
            data matches Some(bytes) && tokens_transferred == storage_fee(bytes@.len())
                ==> version is Some && linked_uri is Some && file_type is Some,
            data is None ==> to_acct_id is Some,
        ensures
            data matches Some(bytes) ==> (r is Some <==> tokens_transferred == storage_fee(
                bytes@.len(),
            )),
            data matches Some(bytes) ==> (r is Some <==> tokens_transferred == bytes@.len()),
            data matches Some(bytes) ==> (r matches Some(info) ==> exists|mime_type: Seq<char>|
                mime_detected_from(bytes@, mime_type) && info@ == file_record_view(
                    mime_type,
                    creator@,
                    version.unwrap()@,
                    linked_uri.unwrap()@,
                    bytes@,
                    file_type.unwrap(),
                    signature@,
                    timestamp,
                    tokens_transferred,
                )),
            data is None ==> (r matches Some(info) && info@ == transfer_record_view(
                creator@,
                signature@,
                timestamp,
                tokens_transferred,
                to_acct_id.unwrap()@,
            )),
    {
        let creator_bytes = slice_to_vec(array_as_slice(&creator));
        match data {
            Some(bytes) => {
                let mime_type = detect_mime_type(bytes);
                Self::with_mime_type(
                    mime_type.as_str(),
                    creator_bytes,
                    version,
                    linked_uri,
                    bytes,
                    file_type,
                    signature,
                    timestamp,
                    tokens_transferred,
                )
            },
            None => Some(
                BlockInformation {
                    data: None,
                    linked_uri: String::from_str(""),
                    creator: creator_bytes,
                    version: String::from_str(""),
                    file_type: FileType::DataStore,
                    signature,
                    timestamp,
                    tokens_transferred,
                    to_acct_id: to_acct_id.unwrap(),
                },
            ),
        }
    }

    /// The text that the creator signs.
    pub fn signed_message_text(&self) -> (r: String)
        ensures
            r@ == signed_message(self@),
    {
        let mut message = self.linked_uri.clone();
        push_decimal_signed(&mut message, self.timestamp);
        push_decimal(&mut message, self.tokens_transferred as u128);
        message
    }

    /// Whether the creator's key and the signature decode.
    pub fn signature_decodes(&self) -> (r: bool)
        ensures
            r == signature_decodes(self@),
    {
        decodes(self.creator.as_slice(), self.signature.as_slice())
    }

    /// Checks the creator's strict Ed25519 signature over the linked URI, the
    /// timestamp and the amount. The key and the signature must decode.
    pub fn verify_signature(&self) -> (r: bool)
        requires
            signature_decodes(self@),
        ensures
            r == signature_valid(self@),
    {
        let information = self.signed_message_text();
        verify_strict(self.creator.as_slice(), information.as_str().as_bytes(), self.signature.as_slice())
    }

    /// `verify_signature` where the key and the signature decode, `None` where
    /// they do not.
    pub fn check_signature(&self) -> (r: Option<bool>)
        ensures
            r == (if signature_decodes(self@) {
                Some(signature_valid(self@))
            } else {
                None
            }),
    {
        if self.signature_decodes() {
            Some(self.verify_signature())
        } else {
            None
        }
    }
}

} // verus!
