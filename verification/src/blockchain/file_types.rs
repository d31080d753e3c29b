use vstd::prelude::*;
use vstd::string::StringExecFns;

verus! {

/// The kinds of file that the network serves, by file extension.
#[derive(Clone, Copy, Debug, PartialEq, Eq, Structural)]
pub enum FileType {
    AAC,
    ABW,
    ARC,
    AVIF,
    AVI,
    AZW,
    BIN,
    BMP,
    BZ,
    BZ2,
    CDA,
    CSH,
    CSS,
    CSV,
    DOC,
    DOCX,
    EOT,
    EPUB,
    GZ,
    GIF,
    HTML,
    ICO,
    ICS,
    JAR,
    JPG,
    JS,
    JSON,
    JSONLD,
    MIDI,
    MJS,
    MP3,
    MP4,
    MPEG,
    MPKG,
    ODP,
    ODS,
    ODT,
    OGA,
    OGV,
    OGX,
    OPUS,
    OTF,
    PNG,
    PDF,
    PHP,
    PPT,
    PPTX,
    RAR,
    RTF,
    SH,
    SVG,
    SWF,
    TAR,
    TIF,
    TIFF,
    TS,
    TTF,
    TXT,
    VSD,
    WAV,
    WEBM,
    WEBP,
    WOFF,
    WOFF2,
    XHTML,
    XML,
    XSL,
    XSLX,
    XUL,
    ZIP,
}

/// The MIME type under which a kind of file is served.
pub open spec fn mime_type_of(file_type: FileType) -> Seq<char> {
    match file_type {
        FileType::AAC => "audio/aac"@,
        FileType::ABW => "application/x-abiword"@,
        FileType::ARC => "application/x-freearc"@,
        FileType::AVIF => "image/avif"@,
        FileType::AVI => "video/x-msvideo"@,
        FileType::AZW => "application/vnd.amazon.ebook"@,
        FileType::BIN => "application/octet-stream"@,
        FileType::BMP => "image/bmp"@,
        FileType::BZ => "application/x-bzip"@,
        FileType::BZ2 => "application/x-bzip2"@,
        FileType::CDA => "application/x-cdf"@,
        FileType::CSH => "application/x-csh"@,
        FileType::CSS => "text/css"@,
        FileType::CSV => "text/csv"@,
        FileType::DOC => "application/msword"@,
        FileType::DOCX => "application/vnd.openxmlformats-officedocument.wordprocessingml.document"@,
        FileType::EOT => "application/vnd.ms-fontobject"@,
        FileType::EPUB => "application/epub+zip"@,
        FileType::GZ => "application/gzip"@,
        FileType::GIF => "image/gif"@,
        FileType::HTML => "text/html"@,
        FileType::ICO => "image/vnd.microsoft.icon"@,
        FileType::ICS => "text/calendar"@,
        FileType::JAR => "application/java-archive"@,
        FileType::JPG => "image/jpeg"@,
        FileType::JS => "text/javascript"@,
        FileType::JSON => "application/json"@,
        FileType::JSONLD => "application/ld+json"@,
        FileType::MIDI => "audio/midi"@,
        FileType::MJS => "text/javascript"@,
        FileType::MP3 => "audio/mpeg"@,
        FileType::MP4 => "video/mp4"@,
        FileType::MPEG => "video/mpeg"@,
        FileType::MPKG => "application/vnd.apple.installer+xml"@,
        FileType::ODP => "application/vnd.oasis.opendocument.presentation"@,
        FileType::ODS => "application/vnd.oasis.opendocument.spreadsheet"@,
        FileType::ODT => "application/vnd.oasis.opendocument.text"@,
        FileType::OGA => "audio/ogg"@,
        FileType::OGV => "video/ogg"@,
        FileType::OGX => "application/ogg"@,
        FileType::OPUS => "audio/opus"@,
        FileType::OTF => "font/otf"@,
        FileType::PNG => "image/png"@,
        FileType::PDF => "application/pdf"@,
        FileType::PHP => "application/x-httpd-php"@,
        FileType::PPT => "application/vnd.ms-powerpoint"@,
        FileType::PPTX => "application/vnd.openxmlformats-officedocument.presentationml.presentation"@,
        FileType::RAR => "application/vnd.rar"@,
        FileType::RTF => "application/rtf"@,
        FileType::SH => "application/x-sh"@,
        FileType::SVG => "image/svg+xml"@,
        FileType::SWF => "application/x-shockwave-flash"@,
        FileType::TAR => "application/x-tar"@,
        FileType::TIF => "image/tiff"@,
        FileType::TIFF => "image/tiff"@,
        FileType::TS => "video/mp2t"@,
        FileType::TTF => "font/ttf"@,
        FileType::TXT => "text/plain"@,
        FileType::VSD => "application/vnd.visio"@,
        FileType::WAV => "audio/wav"@,
        FileType::WEBM => "video/webm"@,
        FileType::WEBP => "image/webp"@,
        FileType::WOFF => "font/woff"@,
        FileType::WOFF2 => "font/woff2"@,
        FileType::XHTML => "application/xhtml+xml"@,
        FileType::XML => "application/xml"@,
        FileType::XSL => "application/vnd.ms-excel"@,
        FileType::XSLX => "application/vnd.openxmlformats-officedocument.spreadsheetml.sheet"@,
        FileType::XUL => "application/vnd.mozilla.xul+xml"@,
        FileType::ZIP => "application/zip"@,
    }
}

impl FileType {
    /// The MIME type under which files of this kind are served.
    pub fn to_mime_type(file_type: FileType) -> (r: String)
        ensures
            r@ == mime_type_of(file_type),
    {
        let mime_type = match file_type {
            FileType::AAC => "audio/aac",
            FileType::ABW => "application/x-abiword",
            FileType::ARC => "application/x-freearc",
            FileType::AVIF => "image/avif",
            FileType::AVI => "video/x-msvideo",
            FileType::AZW => "application/vnd.amazon.ebook",
            FileType::BIN => "application/octet-stream",
            FileType::BMP => "image/bmp",
            FileType::BZ => "application/x-bzip",
            FileType::BZ2 => "application/x-bzip2",
            FileType::CDA => "application/x-cdf",
            FileType::CSH => "application/x-csh",
            FileType::CSS => "text/css",
            FileType::CSV => "text/csv",
            FileType::DOC => "application/msword",
            FileType::DOCX => "application/vnd.openxmlformats-officedocument.wordprocessingml.document",
            FileType::EOT => "application/vnd.ms-fontobject",
            FileType::EPUB => "application/epub+zip",
            FileType::GZ => "application/gzip",
            FileType::GIF => "image/gif",
            FileType::HTML => "text/html",
            FileType::ICO => "image/vnd.microsoft.icon",
            FileType::ICS => "text/calendar",
            FileType::JAR => "application/java-archive",
            FileType::JPG => "image/jpeg",
            FileType::JS => "text/javascript",
            FileType::JSON => "application/json",
            FileType::JSONLD => "application/ld+json",
            FileType::MIDI => "audio/midi",
            FileType::MJS => "text/javascript",
            FileType::MP3 => "audio/mpeg",
            FileType::MP4 => "video/mp4",
            FileType::MPEG => "video/mpeg",
            FileType::MPKG => "application/vnd.apple.installer+xml",
            FileType::ODP => "application/vnd.oasis.opendocument.presentation",
            FileType::ODS => "application/vnd.oasis.opendocument.spreadsheet",
            FileType::ODT => "application/vnd.oasis.opendocument.text",
            FileType::OGA => "audio/ogg",
            FileType::OGV => "video/ogg",
            FileType::OGX => "application/ogg",
            FileType::OPUS => "audio/opus",
            FileType::OTF => "font/otf",
            FileType::PNG => "image/png",
            FileType::PDF => "application/pdf",
            FileType::PHP => "application/x-httpd-php",
            FileType::PPT => "application/vnd.ms-powerpoint",
            FileType::PPTX => "application/vnd.openxmlformats-officedocument.presentationml.presentation",
            FileType::RAR => "application/vnd.rar",
            FileType::RTF => "application/rtf",
            FileType::SH => "application/x-sh",
            FileType::SVG => "image/svg+xml",
            FileType::SWF => "application/x-shockwave-flash",
            FileType::TAR => "application/x-tar",
            FileType::TIF => "image/tiff",
            FileType::TIFF => "image/tiff",
            FileType::TS => "video/mp2t",
            FileType::TTF => "font/ttf",
            FileType::TXT => "text/plain",
            FileType::VSD => "application/vnd.visio",
            FileType::WAV => "audio/wav",
            FileType::WEBM => "video/webm",
            FileType::WEBP => "image/webp",
            FileType::WOFF => "font/woff",
            FileType::WOFF2 => "font/woff2",
            FileType::XHTML => "application/xhtml+xml",
            FileType::XML => "application/xml",
            FileType::XSL => "application/vnd.ms-excel",
            FileType::XSLX => "application/vnd.openxmlformats-officedocument.spreadsheetml.sheet",
            FileType::XUL => "application/vnd.mozilla.xul+xml",
            FileType::ZIP => "application/zip",
        };
        String::from_str(mime_type)
    }
}

} // verus!
