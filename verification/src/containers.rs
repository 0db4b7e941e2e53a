//! The header containers: one struct per classification table, each
//! recognized header an optional slot that starts unset and takes the last
//! value written to it. The entity container also owns the extension bucket:
//! a mapping from unrecognized header name to value, keys unique, a repeated
//! name overwriting.

use vstd::prelude::*;

use crate::errors::{ParseError, ParseErrorV};
use crate::headers::{EntityHeader, EntityHeaderV, GeneralHeader, RequestHeader, ResponseHeader};
use crate::host::{parse_host_from_wire, spec_parse_host, Host, HostV};
use crate::opt_view;
use crate::strutil::{parse_usize, spec_parse_usize, str_eq};

verus! {

/// The container of parsed request headers: each recognized header an
/// optional value, unset until its line is seen, overwritten where the name
/// repeats. The `Host` value is parsed further into a [`Host`].
#[derive(Debug)]
pub struct RequestHeaders {
    pub accept: Option<String>,
    pub accept_charset: Option<String>,
    pub accept_encoding: Option<String>,
    pub accept_language: Option<String>,
    pub authorization: Option<String>,
    pub expect: Option<String>,
    pub from: Option<String>,
    pub host: Option<Host>,
    pub if_match: Option<String>,
    pub if_modified_since: Option<String>,
    pub if_none_match: Option<String>,
    pub if_range: Option<String>,
    pub if_unmodified_since: Option<String>,
    pub max_forwards: Option<String>,
    pub proxy_authorization: Option<String>,
    pub range: Option<String>,
    pub referer: Option<String>,
    pub te: Option<String>,
    pub user_agent: Option<String>,
}

/// The mathematical image of a [`RequestHeaders`].
pub struct RequestHeadersV {
    pub accept: Option<Seq<char>>,
    pub accept_charset: Option<Seq<char>>,
    pub accept_encoding: Option<Seq<char>>,
    pub accept_language: Option<Seq<char>>,
    pub authorization: Option<Seq<char>>,
    pub expect: Option<Seq<char>>,
    pub from: Option<Seq<char>>,
    pub host: Option<HostV>,
    pub if_match: Option<Seq<char>>,
    pub if_modified_since: Option<Seq<char>>,
    pub if_none_match: Option<Seq<char>>,
    pub if_range: Option<Seq<char>>,
    pub if_unmodified_since: Option<Seq<char>>,
    pub max_forwards: Option<Seq<char>>,
    pub proxy_authorization: Option<Seq<char>>,
    pub range: Option<Seq<char>>,
    pub referer: Option<Seq<char>>,
    pub te: Option<Seq<char>>,
    pub user_agent: Option<Seq<char>>,
}

impl View for RequestHeaders {
    type V = RequestHeadersV;

    open spec fn view(&self) -> RequestHeadersV {
        RequestHeadersV {
            accept: opt_view(self.accept),
            accept_charset: opt_view(self.accept_charset),
            accept_encoding: opt_view(self.accept_encoding),
            accept_language: opt_view(self.accept_language),
            authorization: opt_view(self.authorization),
            expect: opt_view(self.expect),
            from: opt_view(self.from),
            host: opt_view(self.host),
            if_match: opt_view(self.if_match),
            if_modified_since: opt_view(self.if_modified_since),
            if_none_match: opt_view(self.if_none_match),
            if_range: opt_view(self.if_range),
            if_unmodified_since: opt_view(self.if_unmodified_since),
            max_forwards: opt_view(self.max_forwards),
            proxy_authorization: opt_view(self.proxy_authorization),
            range: opt_view(self.range),
            referer: opt_view(self.referer),
            te: opt_view(self.te),
            user_agent: opt_view(self.user_agent),
        }
    }
}

/// The empty request-header container: every field unset.
pub open spec fn spec_empty_request_headers() -> RequestHeadersV {
    RequestHeadersV {
        accept: None,
        accept_charset: None,
        accept_encoding: None,
        accept_language: None,
        authorization: None,
        expect: None,
        from: None,
        host: None,
        if_match: None,
        if_modified_since: None,
        if_none_match: None,
        if_range: None,
        if_unmodified_since: None,
        max_forwards: None,
        proxy_authorization: None,
        range: None,
        referer: None,
        te: None,
        user_agent: None,
    }
}

/// What inserting a classified request header does: the slot of the variant
/// is set to the value, every other slot kept. A `Host` value must itself
/// parse as a host; its failure is the failure of the insert, and the
/// container is unchanged.
pub open spec fn spec_insert_request_header(
    m: RequestHeadersV,
    key: RequestHeader,
    value: Seq<char>,
) -> Result<RequestHeadersV, ParseErrorV> {
    match key {
        RequestHeader::Accept => Ok(RequestHeadersV { accept: Some(value), ..m }),
        RequestHeader::AcceptCharset => Ok(RequestHeadersV { accept_charset: Some(value), ..m }),
        RequestHeader::AcceptEncoding => Ok(RequestHeadersV { accept_encoding: Some(value), ..m }),
        RequestHeader::AcceptLanguage => Ok(RequestHeadersV { accept_language: Some(value), ..m }),
        RequestHeader::Authorization => Ok(RequestHeadersV { authorization: Some(value), ..m }),
        RequestHeader::Expect => Ok(RequestHeadersV { expect: Some(value), ..m }),
        RequestHeader::From => Ok(RequestHeadersV { from: Some(value), ..m }),
        RequestHeader::Host => match spec_parse_host(value) {
            Ok(h) => Ok(RequestHeadersV { host: Some(h), ..m }),
            Err(e) => Err(e),
        },
        RequestHeader::IfMatch => Ok(RequestHeadersV { if_match: Some(value), ..m }),
        RequestHeader::IfModifiedSince => Ok(RequestHeadersV { if_modified_since: Some(value), ..m }),
        RequestHeader::IfNoneMatch => Ok(RequestHeadersV { if_none_match: Some(value), ..m }),
        RequestHeader::IfRange => Ok(RequestHeadersV { if_range: Some(value), ..m }),
        RequestHeader::IfUnmodifiedSince => Ok(RequestHeadersV { if_unmodified_since: Some(value), ..m }),
        RequestHeader::MaxForwards => Ok(RequestHeadersV { max_forwards: Some(value), ..m }),
        RequestHeader::ProxyAuthorization => Ok(RequestHeadersV { proxy_authorization: Some(value), ..m }),
        RequestHeader::Range => Ok(RequestHeadersV { range: Some(value), ..m }),
        RequestHeader::Referer => Ok(RequestHeadersV { referer: Some(value), ..m }),
        RequestHeader::TE => Ok(RequestHeadersV { te: Some(value), ..m }),
        RequestHeader::UserAgent => Ok(RequestHeadersV { user_agent: Some(value), ..m }),
    }
}

impl RequestHeaders {
    /// A container with every header unset.
    pub fn new() -> (r: Self)
        ensures
            r@ == spec_empty_request_headers(),
    {
        Self {
            accept: None,
            accept_charset: None,
            accept_encoding: None,
            accept_language: None,
            authorization: None,
            expect: None,
            from: None,
            host: None,
            if_match: None,
            if_modified_since: None,
            if_none_match: None,
            if_range: None,
            if_unmodified_since: None,
            max_forwards: None,
            proxy_authorization: None,
            range: None,
            referer: None,
            te: None,
            user_agent: None,
        }
    }

    /// Stores `value` in the slot `key` names, replacing any value already
    /// there; a `Host` value is parsed, and a malformed one fails the insert
    /// and leaves the container unchanged.
    pub fn insert(&mut self, key: RequestHeader, value: &str) -> (r: Result<(), ParseError>)
        ensures
            match r {
                Ok(_) => spec_insert_request_header(old(self)@, key, value@) == Ok::<
                    RequestHeadersV,
                    ParseErrorV,
                >(final(self)@),
                Err(e) => spec_insert_request_header(old(self)@, key, value@) == Err::<
                    RequestHeadersV,
                    ParseErrorV,
                >(e@) && final(self)@ == old(self)@,
            },
    {
        match key {
            RequestHeader::Accept => {
                self.accept = Some(value.to_owned());
                Ok(())
            },
            RequestHeader::AcceptCharset => {
                self.accept_charset = Some(value.to_owned());
                Ok(())
            },
            RequestHeader::AcceptEncoding => {
                self.accept_encoding = Some(value.to_owned());
                Ok(())
            },
            RequestHeader::AcceptLanguage => {
                self.accept_language = Some(value.to_owned());
                Ok(())
            },
            RequestHeader::Authorization => {
                self.authorization = Some(value.to_owned());
                Ok(())
            },
            RequestHeader::Expect => {
                self.expect = Some(value.to_owned());
                Ok(())
            },
            RequestHeader::From => {
                self.from = Some(value.to_owned());
                Ok(())
            },
            RequestHeader::Host => match parse_host_from_wire(value) {
                Ok(h) => {
                    self.host = Some(h);
                    Ok(())
                },
                Err(e) => Err(e),
            },
            RequestHeader::IfMatch => {
                self.if_match = Some(value.to_owned());
                Ok(())
            },
            RequestHeader::IfModifiedSince => {
                self.if_modified_since = Some(value.to_owned());
                Ok(())
            },
            RequestHeader::IfNoneMatch => {
                self.if_none_match = Some(value.to_owned());
                Ok(())
            },
            RequestHeader::IfRange => {
                self.if_range = Some(value.to_owned());
                Ok(())
            },
            RequestHeader::IfUnmodifiedSince => {
                self.if_unmodified_since = Some(value.to_owned());
                Ok(())
            },
            RequestHeader::MaxForwards => {
                self.max_forwards = Some(value.to_owned());
                Ok(())
            },
            RequestHeader::ProxyAuthorization => {
                self.proxy_authorization = Some(value.to_owned());
                Ok(())
            },
            RequestHeader::Range => {
                self.range = Some(value.to_owned());
                Ok(())
            },
            RequestHeader::Referer => {
                self.referer = Some(value.to_owned());
                Ok(())
            },
            RequestHeader::TE => {
                self.te = Some(value.to_owned());
                Ok(())
            },
            RequestHeader::UserAgent => {
                self.user_agent = Some(value.to_owned());
                Ok(())
            },
        }
    }
}

/// Law: a repeated request header keeps only its last value. Where inserting
/// `(key, v1)` succeeded, going on with `(key, v2)` leaves the container
/// exactly as one insert of `(key, v2)` leaves it.
pub proof fn lemma_request_insert_last_wins(
    m: RequestHeadersV,
    m1: RequestHeadersV,
    key: RequestHeader,
    v1: Seq<char>,
    v2: Seq<char>,
)
    requires
        spec_insert_request_header(m, key, v1) == Ok::<RequestHeadersV, ParseErrorV>(m1),
    ensures
        spec_insert_request_header(m1, key, v2) == spec_insert_request_header(m, key, v2),
{
}

/// The container of parsed general headers: each recognized header an optional
/// value, unset until its line is seen, overwritten where the name repeats.
#[derive(Debug)]
pub struct GeneralHeaders {
    pub cache_control: Option<String>,
    pub connection: Option<String>,
    pub date: Option<String>,
    pub pragma: Option<String>,
    pub trailer: Option<String>,
    pub transfer_encoding: Option<String>,
    pub upgrade: Option<String>,
    pub via: Option<String>,
    pub warning: Option<String>,
}

/// The mathematical image of a [`GeneralHeaders`].
pub struct GeneralHeadersV {
    pub cache_control: Option<Seq<char>>,
    pub connection: Option<Seq<char>>,
    pub date: Option<Seq<char>>,
    pub pragma: Option<Seq<char>>,
    pub trailer: Option<Seq<char>>,
    pub transfer_encoding: Option<Seq<char>>,
    pub upgrade: Option<Seq<char>>,
    pub via: Option<Seq<char>>,
    pub warning: Option<Seq<char>>,
}

impl View for GeneralHeaders {
    type V = GeneralHeadersV;

    open spec fn view(&self) -> GeneralHeadersV {
        GeneralHeadersV {
            cache_control: opt_view(self.cache_control),
            connection: opt_view(self.connection),
            date: opt_view(self.date),
            pragma: opt_view(self.pragma),
            trailer: opt_view(self.trailer),
            transfer_encoding: opt_view(self.transfer_encoding),
            upgrade: opt_view(self.upgrade),
            via: opt_view(self.via),
            warning: opt_view(self.warning),
        }
    }
}

/// The empty general-header container: every field unset.
pub open spec fn spec_empty_general_headers() -> GeneralHeadersV {
    GeneralHeadersV {
        cache_control: None,
        connection: None,
        date: None,
        pragma: None,
        trailer: None,
        transfer_encoding: None,
        upgrade: None,
        via: None,
        warning: None,
    }
}

/// What inserting a classified general header does: the slot of the variant is
/// set to the value, every other slot kept.
pub open spec fn spec_insert_general_header(m: GeneralHeadersV, key: GeneralHeader, value: Seq<char>) -> GeneralHeadersV {
    match key {
        GeneralHeader::CacheControl => GeneralHeadersV { cache_control: Some(value), ..m },
        GeneralHeader::Connection => GeneralHeadersV { connection: Some(value), ..m },
        GeneralHeader::Date => GeneralHeadersV { date: Some(value), ..m },
        GeneralHeader::Pragma => GeneralHeadersV { pragma: Some(value), ..m },
        GeneralHeader::Trailer => GeneralHeadersV { trailer: Some(value), ..m },
        GeneralHeader::TransferEncoding => GeneralHeadersV { transfer_encoding: Some(value), ..m },
        GeneralHeader::Upgrade => GeneralHeadersV { upgrade: Some(value), ..m },
        GeneralHeader::Via => GeneralHeadersV { via: Some(value), ..m },
        GeneralHeader::Warning => GeneralHeadersV { warning: Some(value), ..m },
    }
}

impl GeneralHeaders {
    /// A container with every header unset.
    pub fn new() -> (r: Self)
        ensures
            r@ == spec_empty_general_headers(),
    {
        Self {
            cache_control: None,
            connection: None,
            date: None,
            pragma: None,
            trailer: None,
            transfer_encoding: None,
            upgrade: None,
            via: None,
            warning: None,
        }
    }

    /// Stores `value` in the slot `key` names, replacing any value already
    /// there.
    pub fn insert(&mut self, key: GeneralHeader, value: &str) -> (r: Result<(), ParseError>)
        ensures
            r is Ok,
            final(self)@ == spec_insert_general_header(old(self)@, key, value@),
    {
        match key {
            GeneralHeader::CacheControl => {
                self.cache_control = Some(value.to_owned());
                Ok(())
            },
            GeneralHeader::Connection => {
                self.connection = Some(value.to_owned());
                Ok(())
            },
            GeneralHeader::Date => {
                self.date = Some(value.to_owned());
                Ok(())
            },
            GeneralHeader::Pragma => {
                self.pragma = Some(value.to_owned());
                Ok(())
            },
            GeneralHeader::Trailer => {
                self.trailer = Some(value.to_owned());
                Ok(())
            },
            GeneralHeader::TransferEncoding => {
                self.transfer_encoding = Some(value.to_owned());
                Ok(())
            },
            GeneralHeader::Upgrade => {
                self.upgrade = Some(value.to_owned());
                Ok(())
            },
            GeneralHeader::Via => {
                self.via = Some(value.to_owned());
                Ok(())
            },
            GeneralHeader::Warning => {
                self.warning = Some(value.to_owned());
                Ok(())
            },
        }
    }
}

/// Law: a repeated general header keeps only its last value. Inserting a key
/// twice leaves the container exactly as one insert of the last value leaves
/// it.
pub proof fn lemma_general_insert_last_wins(m: GeneralHeadersV, key: GeneralHeader, v1: Seq<char>, v2: Seq<char>)
    ensures
        spec_insert_general_header(spec_insert_general_header(m, key, v1), key, v2) == spec_insert_general_header(m, key, v2),
{
}

/// The container of parsed response headers: each recognized header an optional
/// value, unset until its line is seen, overwritten where the name repeats.
#[derive(Debug)]
pub struct ResponseHeaders {
    pub accept_ranges: Option<String>,
    pub age: Option<String>,
    pub etag: Option<String>,
    pub location: Option<String>,
    pub proxy_authenticate: Option<String>,
    pub retry_after: Option<String>,
    pub server: Option<String>,
    pub vary: Option<String>,
    pub www_authenticate: Option<String>,
}

/// The mathematical image of a [`ResponseHeaders`].
pub struct ResponseHeadersV {
    pub accept_ranges: Option<Seq<char>>,
    pub age: Option<Seq<char>>,
    pub etag: Option<Seq<char>>,
    pub location: Option<Seq<char>>,
    pub proxy_authenticate: Option<Seq<char>>,
    pub retry_after: Option<Seq<char>>,
    pub server: Option<Seq<char>>,
    pub vary: Option<Seq<char>>,
    pub www_authenticate: Option<Seq<char>>,
}

impl View for ResponseHeaders {
    type V = ResponseHeadersV;

    open spec fn view(&self) -> ResponseHeadersV {
        ResponseHeadersV {
            accept_ranges: opt_view(self.accept_ranges),
            age: opt_view(self.age),
            etag: opt_view(self.etag),
            location: opt_view(self.location),
            proxy_authenticate: opt_view(self.proxy_authenticate),
            retry_after: opt_view(self.retry_after),
            server: opt_view(self.server),
            vary: opt_view(self.vary),
            www_authenticate: opt_view(self.www_authenticate),
        }
    }
}

/// The empty response-header container: every field unset.
pub open spec fn spec_empty_response_headers() -> ResponseHeadersV {
    ResponseHeadersV {
        accept_ranges: None,
        age: None,
        etag: None,
        location: None,
        proxy_authenticate: None,
        retry_after: None,
        server: None,
        vary: None,
        www_authenticate: None,
    }
}

/// What inserting a classified response header does: the slot of the variant is
/// set to the value, every other slot kept.
pub open spec fn spec_insert_response_header(m: ResponseHeadersV, key: ResponseHeader, value: Seq<char>) -> ResponseHeadersV {
    match key {
        ResponseHeader::AcceptRanges => ResponseHeadersV { accept_ranges: Some(value), ..m },
        ResponseHeader::Age => ResponseHeadersV { age: Some(value), ..m },
        ResponseHeader::ETag => ResponseHeadersV { etag: Some(value), ..m },
        ResponseHeader::Location => ResponseHeadersV { location: Some(value), ..m },
        ResponseHeader::ProxyAuthenticate => ResponseHeadersV { proxy_authenticate: Some(value), ..m },
        ResponseHeader::RetryAfter => ResponseHeadersV { retry_after: Some(value), ..m },
        ResponseHeader::Server => ResponseHeadersV { server: Some(value), ..m },
        ResponseHeader::Vary => ResponseHeadersV { vary: Some(value), ..m },
        ResponseHeader::WWWAuthenticate => ResponseHeadersV { www_authenticate: Some(value), ..m },
    }
}

impl ResponseHeaders {
    /// A container with every header unset.
    pub fn new() -> (r: Self)
        ensures
            r@ == spec_empty_response_headers(),
    {
        Self {
            accept_ranges: None,
            age: None,
            etag: None,
            location: None,
            proxy_authenticate: None,
            retry_after: None,
            server: None,
            vary: None,
            www_authenticate: None,
        }
    }

    /// Stores `value` in the slot `key` names, replacing any value already
    /// there.
    pub fn insert(&mut self, key: ResponseHeader, value: &str) -> (r: Result<(), ParseError>)
        ensures
            r is Ok,
            final(self)@ == spec_insert_response_header(old(self)@, key, value@),
    {
        match key {
            ResponseHeader::AcceptRanges => {
                self.accept_ranges = Some(value.to_owned());
                Ok(())
            },
            ResponseHeader::Age => {
                self.age = Some(value.to_owned());
                Ok(())
            },
            ResponseHeader::ETag => {
                self.etag = Some(value.to_owned());
                Ok(())
            },
            ResponseHeader::Location => {
                self.location = Some(value.to_owned());
                Ok(())
            },
            ResponseHeader::ProxyAuthenticate => {
                self.proxy_authenticate = Some(value.to_owned());
                Ok(())
            },
            ResponseHeader::RetryAfter => {
                self.retry_after = Some(value.to_owned());
                Ok(())
            },
            ResponseHeader::Server => {
                self.server = Some(value.to_owned());
                Ok(())
            },
            ResponseHeader::Vary => {
                self.vary = Some(value.to_owned());
                Ok(())
            },
            ResponseHeader::WWWAuthenticate => {
                self.www_authenticate = Some(value.to_owned());
                Ok(())
            },
        }
    }
}

/// Law: a repeated response header keeps only its last value. Inserting a key
/// twice leaves the container exactly as one insert of the last value leaves
/// it.
pub proof fn lemma_response_insert_last_wins(m: ResponseHeadersV, key: ResponseHeader, v1: Seq<char>, v2: Seq<char>)
    ensures
        spec_insert_response_header(spec_insert_response_header(m, key, v1), key, v2) == spec_insert_response_header(m, key, v2),
{
}

/// The container of parsed entity headers: each recognized header an optional
/// slot, `Content-Length` parsed into a number, and the extension bucket
/// holding every header no table recognizes, keyed by its verbatim name.
#[derive(Debug)]
pub struct EntityHeaders {
    pub allow: Option<String>,
    pub content_encoding: Option<String>,
    pub content_languages: Option<String>,
    pub content_length: Option<usize>,
    pub content_location: Option<String>,
    pub content_md5: Option<String>,
    pub content_range: Option<String>,
    pub content_type: Option<String>,
    pub expires: Option<String>,
    pub last_modified: Option<String>,
    pub extensions: Vec<(String, String)>,
}

/// The mathematical image of an [`EntityHeaders`]: the extension bucket as a
/// mapping from name to value.
pub struct EntityHeadersV {
    pub allow: Option<Seq<char>>,
    pub content_encoding: Option<Seq<char>>,
    pub content_languages: Option<Seq<char>>,
    pub content_length: Option<usize>,
    pub content_location: Option<Seq<char>>,
    pub content_md5: Option<Seq<char>>,
    pub content_range: Option<Seq<char>>,
    pub content_type: Option<Seq<char>>,
    pub expires: Option<Seq<char>>,
    pub last_modified: Option<Seq<char>>,
    pub extensions: Map<Seq<char>, Seq<char>>,
}

/// The mapping a sequence of name-value pairs holds, later pairs overriding
/// earlier ones of the same name.
pub open spec fn pairs_map(s: Seq<(String, String)>) -> Map<Seq<char>, Seq<char>>
    decreases s.len(),
{
    if s.len() == 0 {
        Map::empty()
    } else {
        pairs_map(s.drop_last()).insert(s.last().0@, s.last().1@)
    }
}

/// The names of a pair sequence are pairwise distinct.
pub open spec fn ext_keys_unique(s: Seq<(String, String)>) -> bool {
    forall|i: int, j: int| 0 <= i < j < s.len() ==> (#[trigger] s[i]).0@ != (#[trigger] s[j]).0@
}

impl View for EntityHeaders {
    type V = EntityHeadersV;

    open spec fn view(&self) -> EntityHeadersV {
        EntityHeadersV {
            allow: opt_view(self.allow),
            content_encoding: opt_view(self.content_encoding),
            content_languages: opt_view(self.content_languages),
            content_length: self.content_length,
            content_location: opt_view(self.content_location),
            content_md5: opt_view(self.content_md5),
            content_range: opt_view(self.content_range),
            content_type: opt_view(self.content_type),
            expires: opt_view(self.expires),
            last_modified: opt_view(self.last_modified),
            extensions: pairs_map(self.extensions@),
        }
    }
}

impl EntityHeaders {
    /// The container is well formed: no name repeats in the extension bucket.
    /// Construction establishes this and every insert keeps it.
    pub open spec fn wf(&self) -> bool {
        ext_keys_unique(self.extensions@)
    }
}

/// The empty entity-header container: every slot unset, the bucket empty.
pub open spec fn spec_empty_entity_headers() -> EntityHeadersV {
    EntityHeadersV {
        allow: None,
        content_encoding: None,
        content_languages: None,
        content_length: None,
        content_location: None,
        content_md5: None,
        content_range: None,
        content_type: None,
        expires: None,
        last_modified: None,
        extensions: Map::empty(),
    }
}

/// What inserting a classified entity header does: the slot of the variant is
/// set, every other slot kept. A `Content-Length` value must read as a
/// `usize`; its failure is the failure of the insert, and the container is
/// unchanged. An extension is written into the bucket under its name,
/// overwriting any value the name held.
pub open spec fn spec_insert_entity_header(
    m: EntityHeadersV,
    key: EntityHeaderV,
    value: Seq<char>,
) -> Result<EntityHeadersV, ParseErrorV> {
    match key {
        EntityHeaderV::Allow => Ok(EntityHeadersV { allow: Some(value), ..m }),
        EntityHeaderV::ContentEncoding => Ok(EntityHeadersV { content_encoding: Some(value), ..m }),
        EntityHeaderV::ContentLanguages => Ok(EntityHeadersV { content_languages: Some(value), ..m }),
        EntityHeaderV::ContentLength => match spec_parse_usize(value) {
            Some(n) => Ok(EntityHeadersV { content_length: Some(n), ..m }),
            None => Err(ParseErrorV::InvalidContentLength(value)),
        },
        EntityHeaderV::ContentLocation => Ok(EntityHeadersV { content_location: Some(value), ..m }),
        EntityHeaderV::ContentMD5 => Ok(EntityHeadersV { content_md5: Some(value), ..m }),
        EntityHeaderV::ContentRange => Ok(EntityHeadersV { content_range: Some(value), ..m }),
        EntityHeaderV::ContentType => Ok(EntityHeadersV { content_type: Some(value), ..m }),
        EntityHeaderV::Expires => Ok(EntityHeadersV { expires: Some(value), ..m }),
        EntityHeaderV::LastModified => Ok(EntityHeadersV { last_modified: Some(value), ..m }),
        EntityHeaderV::Extension(name) => Ok(
            EntityHeadersV { extensions: m.extensions.insert(name, value), ..m },
        ),
    }
}

impl EntityHeaders {
    /// A container with every header unset and the bucket empty.
    pub fn new() -> (r: Self)
        ensures
            r@ == spec_empty_entity_headers(),
            r.wf(),
    {
        Self {
            allow: None,
            content_encoding: None,
            content_languages: None,
            content_length: None,
            content_location: None,
            content_md5: None,
            content_range: None,
            content_type: None,
            expires: None,
            last_modified: None,
            extensions: Vec::new(),
        }
    }

    /// Stores `value` in the slot `key` names, replacing any value already
    /// there; a `Content-Length` value is parsed, and a malformed one fails
    /// the insert and leaves the container unchanged; an extension lands in
    /// the bucket under its name.
    pub fn insert(&mut self, key: EntityHeader, value: &str) -> (r: Result<(), ParseError>)
        requires
            old(self).wf(),
        ensures
            final(self).wf(),
            match r {
                Ok(_) => spec_insert_entity_header(old(self)@, key@, value@) == Ok::<
                    EntityHeadersV,
                    ParseErrorV,
                >(final(self)@),
                Err(e) => spec_insert_entity_header(old(self)@, key@, value@) == Err::<
                    EntityHeadersV,
                    ParseErrorV,
                >(e@) && final(self)@ == old(self)@,
            },
    {
        match key {
            EntityHeader::Allow => {
                self.allow = Some(value.to_owned());
                Ok(())
            },
            EntityHeader::ContentEncoding => {
                self.content_encoding = Some(value.to_owned());
                Ok(())
            },
            EntityHeader::ContentLanguages => {
                self.content_languages = Some(value.to_owned());
                Ok(())
            },
            EntityHeader::ContentLength => match parse_usize(value) {
                Some(n) => {
                    self.content_length = Some(n);
                    Ok(())
                },
                None => Err(ParseError::InvalidContentLength(value.to_owned())),
            },
            EntityHeader::ContentLocation => {
                self.content_location = Some(value.to_owned());
                Ok(())
            },
            EntityHeader::ContentMD5 => {
                self.content_md5 = Some(value.to_owned());
                Ok(())
            },
            EntityHeader::ContentRange => {
                self.content_range = Some(value.to_owned());
                Ok(())
            },
            EntityHeader::ContentType => {
                self.content_type = Some(value.to_owned());
                Ok(())
            },
            EntityHeader::Expires => {
                self.expires = Some(value.to_owned());
                Ok(())
            },
            EntityHeader::LastModified => {
                self.last_modified = Some(value.to_owned());
                Ok(())
            },
            EntityHeader::Extension(name) => {
                self.put_extension(name, value);
                Ok(())
            },
        }
    }

    /// Writes `(name, value)` into the extension bucket: in place where the
    /// name is already present, appended where it is new.
    fn put_extension(&mut self, name: String, value: &str)
        requires
            old(self).wf(),
        ensures
            final(self).wf(),
            final(self)@ == (EntityHeadersV {
                extensions: old(self)@.extensions.insert(name@, value@),
                ..old(self)@
            }),
    {
        let n = self.extensions.len();
        let mut i: usize = 0;
        while i < n
            invariant
                n == self.extensions@.len(),
                i <= n,
                forall|k: int| 0 <= k < i ==> (#[trigger] self.extensions@[k]).0@ != name@,
                self == old(self),
                ext_keys_unique(self.extensions@),
            decreases n - i,
        {
            if str_eq(self.extensions[i].0.as_str(), name.as_str()) {
                let ghost s = self.extensions@;
                let pair = (name, value.to_owned());
                proof {
                    lemma_pairs_map_update(s, i as int, pair);
                }
                self.extensions[i] = pair;
                proof {
                    assert(ext_keys_unique(self.extensions@));
                }
                return ;
            }
            i += 1;
        }
        let ghost s = self.extensions@;
        self.extensions.push((name, value.to_owned()));
        proof {
            assert(self.extensions@.drop_last() =~= s);
            assert(pairs_map(self.extensions@) == pairs_map(s).insert(name@, value@));
            assert(ext_keys_unique(self.extensions@));
        }
    }
}

/// Overwriting the pair at `i` with a pair of the same name writes exactly
/// that name's entry in the mapping.
proof fn lemma_pairs_map_update(s: Seq<(String, String)>, i: int, p: (String, String))
    requires
        ext_keys_unique(s),
        0 <= i < s.len(),
        p.0@ == s[i].0@,
    ensures
        pairs_map(s.update(i, p)) == pairs_map(s).insert(p.0@, p.1@),
        ext_keys_unique(s.update(i, p)),
    decreases s.len(),
{
    let t = s.update(i, p);
    if i == s.len() - 1 {
        assert(t.drop_last() =~= s.drop_last());
        assert(t.last() == p);
        assert(pairs_map(t) == pairs_map(s.drop_last()).insert(p.0@, p.1@));
        assert(pairs_map(s.drop_last()).insert(p.0@, p.1@) =~= pairs_map(s.drop_last()).insert(
            s.last().0@,
            s.last().1@,
        ).insert(p.0@, p.1@));
    } else {
        let d = s.drop_last();
        assert(ext_keys_unique(d));
        lemma_pairs_map_update(d, i, p);
        assert(t.drop_last() =~= d.update(i, p));
        assert(t.last() == s.last());
        assert(pairs_map(t) == pairs_map(d).insert(p.0@, p.1@).insert(s.last().0@, s.last().1@));
        assert(p.0@ != s.last().0@);
        assert(pairs_map(d).insert(p.0@, p.1@).insert(s.last().0@, s.last().1@) =~= pairs_map(
            d,
        ).insert(s.last().0@, s.last().1@).insert(p.0@, p.1@));
    }
}

/// Law: a repeated entity header keeps only its last value. Where inserting
/// `(key, v1)` succeeded, going on with `(key, v2)` leaves the container
/// exactly as one insert of `(key, v2)` leaves it; in particular a repeated
/// extension name keeps one entry, holding the last value.
pub proof fn lemma_entity_insert_last_wins(
    m: EntityHeadersV,
    m1: EntityHeadersV,
    key: EntityHeaderV,
    v1: Seq<char>,
    v2: Seq<char>,
)
    requires
        spec_insert_entity_header(m, key, v1) == Ok::<EntityHeadersV, ParseErrorV>(m1),
    ensures
        spec_insert_entity_header(m1, key, v2) == spec_insert_entity_header(m, key, v2),
{
    match key {
        EntityHeaderV::Extension(name) => {
            assert(m1.extensions.insert(name, v2) =~= m.extensions.insert(name, v2));
        },
        _ => {},
    }
}

} // verus!
