use crate::blockchain::block_infor::data_url;
use crate::primitives::encoding::base64_url_encode;
use crate::primitives::mime::{detect_mime_type, mime_detected_from};
use vstd::prelude::*;
use vstd::string::StringExecFns;

verus! {

/// How a stored file is served.
#[derive(Clone, Copy, Debug, PartialEq, Eq, Structural)]
pub enum FileType {
    Frontend,
    DataStore,
}

/// A stored file, with the data as a `data:` URL.
#[derive(Clone, Debug, PartialEq)]
pub struct FileInformation {
    /// The file as a `data:` URL.
    pub data: String,
    /// The domain that hosts the file.
    pub linked_uri: String,
    /// The creator of the file.
    creator: String,
    /// The file's version.
    version: String,
    /// How the file is served.
    file_type: FileType,
}

/// The value of a `FileInformation`.
pub ghost struct FileInformationView {
    pub data: Seq<char>,
    pub linked_uri: Seq<char>,
    pub creator: Seq<char>,
    pub version: Seq<char>,
    pub file_type: FileType,
}

impl View for FileInformation {
    type V = FileInformationView;

    closed spec fn view(&self) -> FileInformationView {
        FileInformationView {
            data: self.data@,
            linked_uri: self.linked_uri@,
            creator: self.creator@,
            version: self.version@,
            file_type: self.file_type,
        }
    }
}

impl FileInformation {
    /// The constructor once the file's MIME type is known.
    pub fn with_mime_type(
        mime_type: &str,
        creator: String,
        version: String,
        linked_uri: String,
        data: &[u8],
        file_type: FileType,
    ) -> (r: Self)
        ensures
            r@ == (FileInformationView {
                data: data_url(mime_type@, data@),
                linked_uri: linked_uri@,
                creator: creator@,
                version: version@,
                file_type,
            }),
    {
        let mut final_data_url = String::from_str("data:");
        final_data_url.append(mime_type);
        final_data_url.append(",");
        let b64_data = base64_url_encode(data);
        final_data_url.append(b64_data.as_str());
        FileInformation { data: final_data_url, linked_uri, creator, version, file_type }
    }

    /// Constructor for a stored file: the data becomes a `data:` URL with the MIME
    /// type detected for it.
    pub fn new(creator: String, version: String, linked_uri: String, data: &[u8], file_type: FileType) -> (r: Self)
        ensures
            exists|mime_type: Seq<char>|
                mime_detected_from(data@, mime_type) && r@ == (FileInformationView {
                    data: data_url(mime_type, data@),
                    linked_uri: linked_uri@,
                    creator: creator@,
                    version: version@,
                    file_type,
                }),
    {
        let mime_type = detect_mime_type(data);
        Self::with_mime_type(mime_type.as_str(), creator, version, linked_uri, data, file_type)
    }
}

} // verus!
