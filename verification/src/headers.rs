//! The four header classification tables: Request, General, Entity and
//! Response headers. Each table maps a canonical wire name to a typed
//! variant; the Entity table also carries an extension variant holding any
//! unrecognized name verbatim, so that classification never fails.

use vstd::prelude::*;

use crate::strutil::str_eq;

verus! {

/// A header of the request table.
#[derive(Debug)]
pub enum RequestHeader {
    Accept,
    AcceptCharset,
    AcceptEncoding,
    AcceptLanguage,
    Authorization,
    Expect,
    From,
    Host,
    IfMatch,
    IfModifiedSince,
    IfNoneMatch,
    IfRange,
    IfUnmodifiedSince,
    MaxForwards,
    ProxyAuthorization,
    Range,
    Referer,
    TE,
    UserAgent,
}

/// The canonical wire name of a request header.
pub open spec fn spec_request_header_name(h: RequestHeader) -> Seq<char> {
    match h {
        RequestHeader::Accept => "Accept"@,
        RequestHeader::AcceptCharset => "Accept-Charset"@,
        RequestHeader::AcceptEncoding => "Accept-Encoding"@,
        RequestHeader::AcceptLanguage => "Accept-Language"@,
        RequestHeader::Authorization => "Authorization"@,
        RequestHeader::Expect => "Expect"@,
        RequestHeader::From => "From"@,
        RequestHeader::Host => "Host"@,
        RequestHeader::IfMatch => "If-Match"@,
        RequestHeader::IfModifiedSince => "If-Modified-Since"@,
        RequestHeader::IfNoneMatch => "If-None-Match"@,
        RequestHeader::IfRange => "If-Range"@,
        RequestHeader::IfUnmodifiedSince => "If-Unmodified-Since"@,
        RequestHeader::MaxForwards => "Max-Forwards"@,
        RequestHeader::ProxyAuthorization => "Proxy-Authorization"@,
        RequestHeader::Range => "Range"@,
        RequestHeader::Referer => "Referer"@,
        RequestHeader::TE => "TE"@,
        RequestHeader::UserAgent => "User-Agent"@,
    }
}

/// The request-table variant a wire name classifies to, if any.
pub open spec fn spec_request_header_from(s: Seq<char>) -> Option<RequestHeader> {
    if s == "Accept"@ {
        Some(RequestHeader::Accept)
    } else if s == "Accept-Charset"@ {
        Some(RequestHeader::AcceptCharset)
    } else if s == "Accept-Encoding"@ {
        Some(RequestHeader::AcceptEncoding)
    } else if s == "Accept-Language"@ {
        Some(RequestHeader::AcceptLanguage)
    } else if s == "Authorization"@ {
        Some(RequestHeader::Authorization)
    } else if s == "Expect"@ {
        Some(RequestHeader::Expect)
    } else if s == "From"@ {
        Some(RequestHeader::From)
    } else if s == "Host"@ {
        Some(RequestHeader::Host)
    } else if s == "If-Match"@ {
        Some(RequestHeader::IfMatch)
    } else if s == "If-Modified-Since"@ {
        Some(RequestHeader::IfModifiedSince)
    } else if s == "If-None-Match"@ {
        Some(RequestHeader::IfNoneMatch)
    } else if s == "If-Range"@ {
        Some(RequestHeader::IfRange)
    } else if s == "If-Unmodified-Since"@ {
        Some(RequestHeader::IfUnmodifiedSince)
    } else if s == "Max-Forwards"@ {
        Some(RequestHeader::MaxForwards)
    } else if s == "Proxy-Authorization"@ {
        Some(RequestHeader::ProxyAuthorization)
    } else if s == "Range"@ {
        Some(RequestHeader::Range)
    } else if s == "Referer"@ {
        Some(RequestHeader::Referer)
    } else if s == "TE"@ {
        Some(RequestHeader::TE)
    } else if s == "User-Agent"@ {
        Some(RequestHeader::UserAgent)
    } else {
        None
    }
}

impl RequestHeader {
    /// The canonical wire name of this header.
    pub fn value(&self) -> (r: &'static str)
        ensures
            r@ == spec_request_header_name(*self),
    {
        match self {
            RequestHeader::Accept => "Accept",
            RequestHeader::AcceptCharset => "Accept-Charset",
            RequestHeader::AcceptEncoding => "Accept-Encoding",
            RequestHeader::AcceptLanguage => "Accept-Language",
            RequestHeader::Authorization => "Authorization",
            RequestHeader::Expect => "Expect",
            RequestHeader::From => "From",
            RequestHeader::Host => "Host",
            RequestHeader::IfMatch => "If-Match",
            RequestHeader::IfModifiedSince => "If-Modified-Since",
            RequestHeader::IfNoneMatch => "If-None-Match",
            RequestHeader::IfRange => "If-Range",
            RequestHeader::IfUnmodifiedSince => "If-Unmodified-Since",
            RequestHeader::MaxForwards => "Max-Forwards",
            RequestHeader::ProxyAuthorization => "Proxy-Authorization",
            RequestHeader::Range => "Range",
            RequestHeader::Referer => "Referer",
            RequestHeader::TE => "TE",
            RequestHeader::UserAgent => "User-Agent",
        }
    }

    /// Classifies a wire name against the request table.
    pub fn from(key: &str) -> (r: Option<Self>)
        ensures
            r == spec_request_header_from(key@),
    {
        if str_eq(key, "Accept") {
            Some(RequestHeader::Accept)
        } else if str_eq(key, "Accept-Charset") {
            Some(RequestHeader::AcceptCharset)
        } else if str_eq(key, "Accept-Encoding") {
            Some(RequestHeader::AcceptEncoding)
        } else if str_eq(key, "Accept-Language") {
            Some(RequestHeader::AcceptLanguage)
        } else if str_eq(key, "Authorization") {
            Some(RequestHeader::Authorization)
        } else if str_eq(key, "Expect") {
            Some(RequestHeader::Expect)
        } else if str_eq(key, "From") {
            Some(RequestHeader::From)
        } else if str_eq(key, "Host") {
            Some(RequestHeader::Host)
        } else if str_eq(key, "If-Match") {
            Some(RequestHeader::IfMatch)
        } else if str_eq(key, "If-Modified-Since") {
            Some(RequestHeader::IfModifiedSince)
        } else if str_eq(key, "If-None-Match") {
            Some(RequestHeader::IfNoneMatch)
        } else if str_eq(key, "If-Range") {
            Some(RequestHeader::IfRange)
        } else if str_eq(key, "If-Unmodified-Since") {
            Some(RequestHeader::IfUnmodifiedSince)
        } else if str_eq(key, "Max-Forwards") {
            Some(RequestHeader::MaxForwards)
        } else if str_eq(key, "Proxy-Authorization") {
            Some(RequestHeader::ProxyAuthorization)
        } else if str_eq(key, "Range") {
            Some(RequestHeader::Range)
        } else if str_eq(key, "Referer") {
            Some(RequestHeader::Referer)
        } else if str_eq(key, "TE") {
            Some(RequestHeader::TE)
        } else if str_eq(key, "User-Agent") {
            Some(RequestHeader::UserAgent)
        } else {
            None
        }
    }
}

/// Law: the request table's two directions agree. Every variant's canonical
/// name classifies back to that variant.
pub proof fn lemma_request_table_bidirectional(h: RequestHeader)
    ensures
        spec_request_header_from(spec_request_header_name(h)) == Some(h),
{
    broadcast use vstd::string::group_string_axioms;

    reveal_strlit("Accept");
    reveal_strlit("Accept-Charset");
    reveal_strlit("Accept-Encoding");
    reveal_strlit("Accept-Language");
    reveal_strlit("Authorization");
    reveal_strlit("Expect");
    reveal_strlit("From");
    reveal_strlit("Host");
    reveal_strlit("If-Match");
    reveal_strlit("If-Modified-Since");
    reveal_strlit("If-None-Match");
    reveal_strlit("If-Range");
    reveal_strlit("If-Unmodified-Since");
    reveal_strlit("Max-Forwards");
    reveal_strlit("Proxy-Authorization");
    reveal_strlit("Range");
    reveal_strlit("Referer");
    reveal_strlit("TE");
    reveal_strlit("User-Agent");
    // Two names can only be confused when they have the same length, and such
    // pairs differ at the asserted character.
    assert(("Accept"@).len() == 6);
    assert(("Accept-Charset"@).len() == 14);
    assert(("Accept-Encoding"@).len() == 15);
    assert(("Accept-Language"@).len() == 15);
    assert(("Authorization"@).len() == 13);
    assert(("Expect"@).len() == 6);
    assert(("From"@).len() == 4);
    assert(("Host"@).len() == 4);
    assert(("If-Match"@).len() == 8);
    assert(("If-Modified-Since"@).len() == 17);
    assert(("If-None-Match"@).len() == 13);
    assert(("If-Range"@).len() == 8);
    assert(("If-Unmodified-Since"@).len() == 19);
    assert(("Max-Forwards"@).len() == 12);
    assert(("Proxy-Authorization"@).len() == 19);
    assert(("Range"@).len() == 5);
    assert(("Referer"@).len() == 7);
    assert(("TE"@).len() == 2);
    assert(("User-Agent"@).len() == 10);
    assert(("Accept"@)[0] == 'A');
    assert(("Expect"@)[0] == 'E');
    assert(("Accept-Encoding"@)[7] == 'E');
    assert(("Accept-Language"@)[7] == 'L');
    assert(("Authorization"@)[0] == 'A');
    assert(("If-None-Match"@)[0] == 'I');
    assert(("From"@)[0] == 'F');
    assert(("Host"@)[0] == 'H');
    assert(("If-Match"@)[3] == 'M');
    assert(("If-Range"@)[3] == 'R');
    assert(("If-Unmodified-Since"@)[0] == 'I');
    assert(("Proxy-Authorization"@)[0] == 'P');
    match h {
        RequestHeader::Accept => {
            assert(spec_request_header_from(spec_request_header_name(h)) == Some(h));
        },
        RequestHeader::AcceptCharset => {
            assert(spec_request_header_from(spec_request_header_name(h)) == Some(h));
        },
        RequestHeader::AcceptEncoding => {
            assert(spec_request_header_from(spec_request_header_name(h)) == Some(h));
        },
        RequestHeader::AcceptLanguage => {
            assert(spec_request_header_from(spec_request_header_name(h)) == Some(h));
        },
        RequestHeader::Authorization => {
            assert(spec_request_header_from(spec_request_header_name(h)) == Some(h));
        },
        RequestHeader::Expect => {
            assert(spec_request_header_from(spec_request_header_name(h)) == Some(h));
        },
        RequestHeader::From => {
            assert(spec_request_header_from(spec_request_header_name(h)) == Some(h));
        },
        RequestHeader::Host => {
            assert(spec_request_header_from(spec_request_header_name(h)) == Some(h));
        },
        RequestHeader::IfMatch => {
            assert(spec_request_header_from(spec_request_header_name(h)) == Some(h));
        },
        RequestHeader::IfModifiedSince => {
            assert(spec_request_header_from(spec_request_header_name(h)) == Some(h));
        },
        RequestHeader::IfNoneMatch => {
            assert(spec_request_header_from(spec_request_header_name(h)) == Some(h));
        },
        RequestHeader::IfRange => {
            assert(spec_request_header_from(spec_request_header_name(h)) == Some(h));
        },
        RequestHeader::IfUnmodifiedSince => {
            assert(spec_request_header_from(spec_request_header_name(h)) == Some(h));
        },
        RequestHeader::MaxForwards => {
            assert(spec_request_header_from(spec_request_header_name(h)) == Some(h));
        },
        RequestHeader::ProxyAuthorization => {
            assert(spec_request_header_from(spec_request_header_name(h)) == Some(h));
        },
        RequestHeader::Range => {
            assert(spec_request_header_from(spec_request_header_name(h)) == Some(h));
        },
        RequestHeader::Referer => {
            assert(spec_request_header_from(spec_request_header_name(h)) == Some(h));
        },
        RequestHeader::TE => {
            assert(spec_request_header_from(spec_request_header_name(h)) == Some(h));
        },
        RequestHeader::UserAgent => {
            assert(spec_request_header_from(spec_request_header_name(h)) == Some(h));
        },
    }
}

/// A header of the general table.
#[derive(Debug)]
pub enum GeneralHeader {
    CacheControl,
    Connection,
    Date,
    Pragma,
    Trailer,
    TransferEncoding,
    Upgrade,
    Via,
    Warning,
}

/// The canonical wire name of a general header.
pub open spec fn spec_general_header_name(h: GeneralHeader) -> Seq<char> {
    match h {
        GeneralHeader::CacheControl => "Cache-Control"@,
        GeneralHeader::Connection => "Connection"@,
        GeneralHeader::Date => "Date"@,
        GeneralHeader::Pragma => "Pragma"@,
        GeneralHeader::Trailer => "Trailer"@,
        GeneralHeader::TransferEncoding => "Transfer-Encoding"@,
        GeneralHeader::Upgrade => "Upgrade"@,
        GeneralHeader::Via => "Via"@,
        GeneralHeader::Warning => "Warning"@,
    }
}

/// The general-table variant a wire name classifies to, if any.
pub open spec fn spec_general_header_from(s: Seq<char>) -> Option<GeneralHeader> {
    if s == "Cache-Control"@ {
        Some(GeneralHeader::CacheControl)
    } else if s == "Connection"@ {
        Some(GeneralHeader::Connection)
    } else if s == "Date"@ {
        Some(GeneralHeader::Date)
    } else if s == "Pragma"@ {
        Some(GeneralHeader::Pragma)
    } else if s == "Trailer"@ {
        Some(GeneralHeader::Trailer)
    } else if s == "Transfer-Encoding"@ {
        Some(GeneralHeader::TransferEncoding)
    } else if s == "Upgrade"@ {
        Some(GeneralHeader::Upgrade)
    } else if s == "Via"@ {
        Some(GeneralHeader::Via)
    } else if s == "Warning"@ {
        Some(GeneralHeader::Warning)
    } else {
        None
    }
}

impl GeneralHeader {
    /// The canonical wire name of this header.
    pub fn value(&self) -> (r: &'static str)
        ensures
            r@ == spec_general_header_name(*self),
    {
        match self {
            GeneralHeader::CacheControl => "Cache-Control",
            GeneralHeader::Connection => "Connection",
            GeneralHeader::Date => "Date",
            GeneralHeader::Pragma => "Pragma",
            GeneralHeader::Trailer => "Trailer",
            GeneralHeader::TransferEncoding => "Transfer-Encoding",
            GeneralHeader::Upgrade => "Upgrade",
            GeneralHeader::Via => "Via",
            GeneralHeader::Warning => "Warning",
        }
    }

    /// Classifies a wire name against the general table.
    pub fn from(key: &str) -> (r: Option<Self>)
        ensures
            r == spec_general_header_from(key@),
    {
        if str_eq(key, "Cache-Control") {
            Some(GeneralHeader::CacheControl)
        } else if str_eq(key, "Connection") {
            Some(GeneralHeader::Connection)
        } else if str_eq(key, "Date") {
            Some(GeneralHeader::Date)
        } else if str_eq(key, "Pragma") {
            Some(GeneralHeader::Pragma)
        } else if str_eq(key, "Trailer") {
            Some(GeneralHeader::Trailer)
        } else if str_eq(key, "Transfer-Encoding") {
            Some(GeneralHeader::TransferEncoding)
        } else if str_eq(key, "Upgrade") {
            Some(GeneralHeader::Upgrade)
        } else if str_eq(key, "Via") {
            Some(GeneralHeader::Via)
        } else if str_eq(key, "Warning") {
            Some(GeneralHeader::Warning)
        } else {
            None
        }
    }
}


/// Law: the general table's two directions agree. Every variant's canonical
/// name classifies back to that variant.
pub proof fn lemma_general_table_bidirectional(h: GeneralHeader)
    ensures
        spec_general_header_from(spec_general_header_name(h)) == Some(h),
{
    broadcast use vstd::string::group_string_axioms;

    reveal_strlit("Cache-Control");
    reveal_strlit("Connection");
    reveal_strlit("Date");
    reveal_strlit("Pragma");
    reveal_strlit("Trailer");
    reveal_strlit("Transfer-Encoding");
    reveal_strlit("Upgrade");
    reveal_strlit("Via");
    reveal_strlit("Warning");
    // Two names can only be confused when they have the same length, and such
    // pairs differ at the asserted character.
    assert(("Cache-Control"@).len() == 13);
    assert(("Connection"@).len() == 10);
    assert(("Date"@).len() == 4);
    assert(("Pragma"@).len() == 6);
    assert(("Trailer"@).len() == 7);
    assert(("Transfer-Encoding"@).len() == 17);
    assert(("Upgrade"@).len() == 7);
    assert(("Via"@).len() == 3);
    assert(("Warning"@).len() == 7);
    assert(("Trailer"@)[0] == 'T');
    assert(("Upgrade"@)[0] == 'U');
    assert(("Warning"@)[0] == 'W');
    match h {
        GeneralHeader::CacheControl => {
            assert(spec_general_header_from(spec_general_header_name(h)) == Some(h));
        },
        GeneralHeader::Connection => {
            assert(spec_general_header_from(spec_general_header_name(h)) == Some(h));
        },
        GeneralHeader::Date => {
            assert(spec_general_header_from(spec_general_header_name(h)) == Some(h));
        },
        GeneralHeader::Pragma => {
            assert(spec_general_header_from(spec_general_header_name(h)) == Some(h));
        },
        GeneralHeader::Trailer => {
            assert(spec_general_header_from(spec_general_header_name(h)) == Some(h));
        },
        GeneralHeader::TransferEncoding => {
            assert(spec_general_header_from(spec_general_header_name(h)) == Some(h));
        },
        GeneralHeader::Upgrade => {
            assert(spec_general_header_from(spec_general_header_name(h)) == Some(h));
        },
        GeneralHeader::Via => {
            assert(spec_general_header_from(spec_general_header_name(h)) == Some(h));
        },
        GeneralHeader::Warning => {
            assert(spec_general_header_from(spec_general_header_name(h)) == Some(h));
        },
    }
}

/// A header of the entity table. Any wire name no table recognizes classifies
/// to `Extension`, carrying the name verbatim: the universal fallback.
#[derive(Debug)]
pub enum EntityHeader {
    Allow,
    ContentEncoding,
    ContentLanguages,
    ContentLength,
    ContentLocation,
    ContentMD5,
    ContentRange,
    ContentType,
    Expires,
    LastModified,
    Extension(String),
}

/// The mathematical image of an [`EntityHeader`].
pub enum EntityHeaderV {
    Allow,
    ContentEncoding,
    ContentLanguages,
    ContentLength,
    ContentLocation,
    ContentMD5,
    ContentRange,
    ContentType,
    Expires,
    LastModified,
    Extension(Seq<char>),
}

impl View for EntityHeader {
    type V = EntityHeaderV;

    open spec fn view(&self) -> EntityHeaderV {
        match self {
            EntityHeader::Allow => EntityHeaderV::Allow,
            EntityHeader::ContentEncoding => EntityHeaderV::ContentEncoding,
            EntityHeader::ContentLanguages => EntityHeaderV::ContentLanguages,
            EntityHeader::ContentLength => EntityHeaderV::ContentLength,
            EntityHeader::ContentLocation => EntityHeaderV::ContentLocation,
            EntityHeader::ContentMD5 => EntityHeaderV::ContentMD5,
            EntityHeader::ContentRange => EntityHeaderV::ContentRange,
            EntityHeader::ContentType => EntityHeaderV::ContentType,
            EntityHeader::Expires => EntityHeaderV::Expires,
            EntityHeader::LastModified => EntityHeaderV::LastModified,
            EntityHeader::Extension(s) => EntityHeaderV::Extension(s@),
        }
    }
}

/// The canonical wire name of an entity header; an extension keeps the name
/// it arrived under.
pub open spec fn spec_entity_header_name(h: EntityHeaderV) -> Seq<char> {
    match h {
        EntityHeaderV::Allow => "Allow"@,
        EntityHeaderV::ContentEncoding => "Content-Encoding"@,
        EntityHeaderV::ContentLanguages => "Content-Language"@,
        EntityHeaderV::ContentLength => "Content-Length"@,
        EntityHeaderV::ContentLocation => "Content-Location"@,
        EntityHeaderV::ContentMD5 => "Content-MD5"@,
        EntityHeaderV::ContentRange => "Content-Range"@,
        EntityHeaderV::ContentType => "Content-Type"@,
        EntityHeaderV::Expires => "Expires"@,
        EntityHeaderV::LastModified => "Last-Modified"@,
        EntityHeaderV::Extension(s) => s,
    }
}

/// The entity-table variant a wire name classifies to. Classification here is
/// total: an unrecognized name becomes an extension.
pub open spec fn spec_entity_header_from(s: Seq<char>) -> EntityHeaderV {
    if s == "Allow"@ {
        EntityHeaderV::Allow
    } else if s == "Content-Encoding"@ {
        EntityHeaderV::ContentEncoding
    } else if s == "Content-Language"@ {
        EntityHeaderV::ContentLanguages
    } else if s == "Content-Length"@ {
        EntityHeaderV::ContentLength
    } else if s == "Content-Location"@ {
        EntityHeaderV::ContentLocation
    } else if s == "Content-MD5"@ {
        EntityHeaderV::ContentMD5
    } else if s == "Content-Range"@ {
        EntityHeaderV::ContentRange
    } else if s == "Content-Type"@ {
        EntityHeaderV::ContentType
    } else if s == "Expires"@ {
        EntityHeaderV::Expires
    } else if s == "Last-Modified"@ {
        EntityHeaderV::LastModified
    } else {
        EntityHeaderV::Extension(s)
    }
}

impl EntityHeader {
    /// The canonical wire name of this header.
    pub fn value(&self) -> (r: &str)
        ensures
            r@ == spec_entity_header_name(self@),
    {
        match self {
            EntityHeader::Allow => "Allow",
            EntityHeader::ContentEncoding => "Content-Encoding",
            EntityHeader::ContentLanguages => "Content-Language",
            EntityHeader::ContentLength => "Content-Length",
            EntityHeader::ContentLocation => "Content-Location",
            EntityHeader::ContentMD5 => "Content-MD5",
            EntityHeader::ContentRange => "Content-Range",
            EntityHeader::ContentType => "Content-Type",
            EntityHeader::Expires => "Expires",
            EntityHeader::LastModified => "Last-Modified",
            EntityHeader::Extension(s) => s.as_str(),
        }
    }

    /// Classifies a wire name against the entity table. The `Option` never
    /// holds `None`: the extension variant catches every unrecognized name.
    pub fn from(key: &str) -> (r: Option<Self>)
        ensures
            r matches Some(h) && h@ == spec_entity_header_from(key@),
    {
        Some(
            if str_eq(key, "Allow") {
                EntityHeader::Allow
            } else if str_eq(key, "Content-Encoding") {
                EntityHeader::ContentEncoding
            } else if str_eq(key, "Content-Language") {
                EntityHeader::ContentLanguages
            } else if str_eq(key, "Content-Length") {
                EntityHeader::ContentLength
            } else if str_eq(key, "Content-Location") {
                EntityHeader::ContentLocation
            } else if str_eq(key, "Content-MD5") {
                EntityHeader::ContentMD5
            } else if str_eq(key, "Content-Range") {
                EntityHeader::ContentRange
            } else if str_eq(key, "Content-Type") {
                EntityHeader::ContentType
            } else if str_eq(key, "Expires") {
                EntityHeader::Expires
            } else if str_eq(key, "Last-Modified") {
                EntityHeader::LastModified
            } else {
                EntityHeader::Extension(key.to_owned())
            },
        )
    }
}


/// Law: the entity table's two directions agree on its closed variants. The
/// canonical name of each fixed variant classifies back to that variant; an
/// extension is excluded, since a name such as `Allow` classifies to the
/// fixed variant that owns it, never back to an extension.
pub proof fn lemma_entity_table_bidirectional(h: EntityHeaderV)
    requires
        !(h is Extension),
    ensures
        spec_entity_header_from(spec_entity_header_name(h)) == h,
{
    broadcast use vstd::string::group_string_axioms;

    reveal_strlit("Allow");
    reveal_strlit("Content-Encoding");
    reveal_strlit("Content-Language");
    reveal_strlit("Content-Length");
    reveal_strlit("Content-Location");
    reveal_strlit("Content-MD5");
    reveal_strlit("Content-Range");
    reveal_strlit("Content-Type");
    reveal_strlit("Expires");
    reveal_strlit("Last-Modified");
    // Two names can only be confused when they have the same length, and such
    // pairs differ at the asserted character.
    assert(("Allow"@).len() == 5);
    assert(("Content-Encoding"@).len() == 16);
    assert(("Content-Language"@).len() == 16);
    assert(("Content-Length"@).len() == 14);
    assert(("Content-Location"@).len() == 16);
    assert(("Content-MD5"@).len() == 11);
    assert(("Content-Range"@).len() == 13);
    assert(("Content-Type"@).len() == 12);
    assert(("Expires"@).len() == 7);
    assert(("Last-Modified"@).len() == 13);
    assert(("Content-Encoding"@)[8] == 'E');
    assert(("Content-Language"@)[8] == 'L');
    assert(("Content-Location"@)[8] == 'L');
    assert(("Content-Language"@)[9] == 'a');
    assert(("Content-Location"@)[9] == 'o');
    assert(("Content-Range"@)[0] == 'C');
    assert(("Last-Modified"@)[0] == 'L');
    match h {
        EntityHeaderV::Allow => {
            assert(spec_entity_header_from(spec_entity_header_name(h)) == h);
        },
        EntityHeaderV::ContentEncoding => {
            assert(spec_entity_header_from(spec_entity_header_name(h)) == h);
        },
        EntityHeaderV::ContentLanguages => {
            assert(spec_entity_header_from(spec_entity_header_name(h)) == h);
        },
        EntityHeaderV::ContentLength => {
            assert(spec_entity_header_from(spec_entity_header_name(h)) == h);
        },
        EntityHeaderV::ContentLocation => {
            assert(spec_entity_header_from(spec_entity_header_name(h)) == h);
        },
        EntityHeaderV::ContentMD5 => {
            assert(spec_entity_header_from(spec_entity_header_name(h)) == h);
        },
        EntityHeaderV::ContentRange => {
            assert(spec_entity_header_from(spec_entity_header_name(h)) == h);
        },
        EntityHeaderV::ContentType => {
            assert(spec_entity_header_from(spec_entity_header_name(h)) == h);
        },
        EntityHeaderV::Expires => {
            assert(spec_entity_header_from(spec_entity_header_name(h)) == h);
        },
        EntityHeaderV::LastModified => {
            assert(spec_entity_header_from(spec_entity_header_name(h)) == h);
        },
        EntityHeaderV::Extension(_) => {
        },
    }
}

/// A header of the response table. The table is kept for symmetry with a
/// response-serialization path; the request parser never consults it.
#[derive(Debug)]
pub enum ResponseHeader {
    AcceptRanges,
    Age,
    ETag,
    Location,
    ProxyAuthenticate,
    RetryAfter,
    Server,
    Vary,
    WWWAuthenticate,
}

/// The canonical wire name of a response header.
pub open spec fn spec_response_header_name(h: ResponseHeader) -> Seq<char> {
    match h {
        ResponseHeader::AcceptRanges => "Accept-Ranges"@,
        ResponseHeader::Age => "Age"@,
        ResponseHeader::ETag => "ETag"@,
        ResponseHeader::Location => "Location"@,
        ResponseHeader::ProxyAuthenticate => "Proxy-Authenticate"@,
        ResponseHeader::RetryAfter => "Retry-After"@,
        ResponseHeader::Server => "Server"@,
        ResponseHeader::Vary => "Vary"@,
        ResponseHeader::WWWAuthenticate => "WWW-Authenticate"@,
    }
}

/// The response-table variant a wire name classifies to, if any.
pub open spec fn spec_response_header_from(s: Seq<char>) -> Option<ResponseHeader> {
    if s == "Accept-Ranges"@ {
        Some(ResponseHeader::AcceptRanges)
    } else if s == "Age"@ {
        Some(ResponseHeader::Age)
    } else if s == "ETag"@ {
        Some(ResponseHeader::ETag)
    } else if s == "Location"@ {
        Some(ResponseHeader::Location)
    } else if s == "Proxy-Authenticate"@ {
        Some(ResponseHeader::ProxyAuthenticate)
    } else if s == "Retry-After"@ {
        Some(ResponseHeader::RetryAfter)
    } else if s == "Server"@ {
        Some(ResponseHeader::Server)
    } else if s == "Vary"@ {
        Some(ResponseHeader::Vary)
    } else if s == "WWW-Authenticate"@ {
        Some(ResponseHeader::WWWAuthenticate)
    } else {
        None
    }
}

impl ResponseHeader {
    /// The canonical wire name of this header.
    pub fn value(&self) -> (r: &'static str)
        ensures
            r@ == spec_response_header_name(*self),
    {
        match self {
            ResponseHeader::AcceptRanges => "Accept-Ranges",
            ResponseHeader::Age => "Age",
            ResponseHeader::ETag => "ETag",
            ResponseHeader::Location => "Location",
            ResponseHeader::ProxyAuthenticate => "Proxy-Authenticate",
            ResponseHeader::RetryAfter => "Retry-After",
            ResponseHeader::Server => "Server",
            ResponseHeader::Vary => "Vary",
            ResponseHeader::WWWAuthenticate => "WWW-Authenticate",
        }
    }

    /// Classifies a wire name against the response table.
    pub fn from(key: &str) -> (r: Option<Self>)
        ensures
            r == spec_response_header_from(key@),
    {
        if str_eq(key, "Accept-Ranges") {
            Some(ResponseHeader::AcceptRanges)
        } else if str_eq(key, "Age") {
            Some(ResponseHeader::Age)
        } else if str_eq(key, "ETag") {
            Some(ResponseHeader::ETag)
        } else if str_eq(key, "Location") {
            Some(ResponseHeader::Location)
        } else if str_eq(key, "Proxy-Authenticate") {
            Some(ResponseHeader::ProxyAuthenticate)
        } else if str_eq(key, "Retry-After") {
            Some(ResponseHeader::RetryAfter)
        } else if str_eq(key, "Server") {
            Some(ResponseHeader::Server)
        } else if str_eq(key, "Vary") {
            Some(ResponseHeader::Vary)
        } else if str_eq(key, "WWW-Authenticate") {
            Some(ResponseHeader::WWWAuthenticate)
        } else {
            None
        }
    }
}


/// Law: the response table's two directions agree. Every variant's canonical
/// name classifies back to that variant.
pub proof fn lemma_response_table_bidirectional(h: ResponseHeader)
    ensures
        spec_response_header_from(spec_response_header_name(h)) == Some(h),
{
    broadcast use vstd::string::group_string_axioms;

    reveal_strlit("Accept-Ranges");
    reveal_strlit("Age");
    reveal_strlit("ETag");
    reveal_strlit("Location");
    reveal_strlit("Proxy-Authenticate");
    reveal_strlit("Retry-After");
    reveal_strlit("Server");
    reveal_strlit("Vary");
    reveal_strlit("WWW-Authenticate");
    // Two names can only be confused when they have the same length, and such
    // pairs differ at the asserted character.
    assert(("Accept-Ranges"@).len() == 13);
    assert(("Age"@).len() == 3);
    assert(("ETag"@).len() == 4);
    assert(("Location"@).len() == 8);
    assert(("Proxy-Authenticate"@).len() == 18);
    assert(("Retry-After"@).len() == 11);
    assert(("Server"@).len() == 6);
    assert(("Vary"@).len() == 4);
    assert(("WWW-Authenticate"@).len() == 16);
    assert(("ETag"@)[0] == 'E');
    assert(("Vary"@)[0] == 'V');
    match h {
        ResponseHeader::AcceptRanges => {
            assert(spec_response_header_from(spec_response_header_name(h)) == Some(h));
        },
        ResponseHeader::Age => {
            assert(spec_response_header_from(spec_response_header_name(h)) == Some(h));
        },
        ResponseHeader::ETag => {
            assert(spec_response_header_from(spec_response_header_name(h)) == Some(h));
        },
        ResponseHeader::Location => {
            assert(spec_response_header_from(spec_response_header_name(h)) == Some(h));
        },
        ResponseHeader::ProxyAuthenticate => {
            assert(spec_response_header_from(spec_response_header_name(h)) == Some(h));
        },
        ResponseHeader::RetryAfter => {
            assert(spec_response_header_from(spec_response_header_name(h)) == Some(h));
        },
        ResponseHeader::Server => {
            assert(spec_response_header_from(spec_response_header_name(h)) == Some(h));
        },
        ResponseHeader::Vary => {
            assert(spec_response_header_from(spec_response_header_name(h)) == Some(h));
        },
        ResponseHeader::WWWAuthenticate => {
            assert(spec_response_header_from(spec_response_header_name(h)) == Some(h));
        },
    }
}

} // verus!
