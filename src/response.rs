use vstd::prelude::*;
use http::header::{HeaderMap, HeaderValue};
use http::response::Builder;
use url::Url;
use crate::headers::{header_entries, merged, name_count, replace_headers, HEADER_NAME_LIMIT};

verus! {

#[verifier::external_type_specification]
#[verifier::external_body]
pub struct ExBuilder(Builder);

#[verifier::external_type_specification]
#[verifier::external_body]
pub struct ExUrl(Url);

/// Relies on `Url`'s derived `Clone`, which the marker's own `Clone` calls;
/// nothing is claimed of the copy.
pub assume_specification[ <Url as Clone>::clone ](u: &Url) -> Url;

/// The marker under which a response's origin URL sits in its extensions.
#[derive(Debug, Clone, PartialEq)]
pub struct ResponseUrl(pub Url);

/// The headers a builder has gathered so far, as `header_entries` gives
/// them; `None` once the builder has recorded an error.
pub uninterp spec fn builder_headers(b: Builder) -> Option<Map<Seq<char>, Seq<HeaderValue>>>;

/// The URL in the `ResponseUrl` marker among a healthy builder's extensions,
/// if one was stored.
pub uninterp spec fn builder_origin(b: Builder) -> Option<Url>;

/// The status code a builder holds; `None` once the builder has recorded an
/// error.
pub uninterp spec fn builder_status(b: Builder) -> Option<u16>;

/// Relies on `Builder::headers_ref`: a healthy builder shows its header map,
/// and one that has recorded an error shows nothing.
pub assume_specification[ Builder::headers_ref ](b: &Builder) -> (r: Option<&HeaderMap>)
    ensures
        match r {
            Some(h) => builder_headers(*b) == Some(header_entries(*h)),
            None => builder_headers(*b) is None,
        },
;

/// Relies on `Builder::headers_mut`: a healthy builder lends out its header
/// map, and whatever is done through the loan is what the builder then holds;
/// a builder that has recorded an error lends nothing and stays as it was.
pub assume_specification[ Builder::headers_mut ](b: &mut Builder) -> (r: Option<&mut HeaderMap>)
    ensures
        builder_headers(*old(b)) is None <==> r is None,
        r is None ==> *final(b) == *old(b),
        match r {
            Some(h) => {
                &&& builder_headers(*old(b)) == Some(header_entries(*h))
                &&& builder_headers(*final(b)) == Some(header_entries(*final(h)))
                &&& builder_origin(*final(b)) == builder_origin(*old(b))
                &&& builder_status(*final(b)) == builder_status(*old(b))
            },
            None => true,
        },
;

/// Relies on `Builder::extension`: a healthy builder stores the marker in its
/// extensions, in place of any marker of the same type, and keeps its
/// headers and status; a builder that has recorded an error is handed back
/// as it was.
#[verifier::external_body]
fn attach_origin(b: Builder, url: Url) -> (r: Builder)
    ensures
        builder_headers(r) == builder_headers(b),
        builder_status(r) == builder_status(b),
        builder_headers(b) is None ==> r == b,
        builder_headers(b) is Some ==> builder_origin(r) == Some(url),
{
    b.extension(ResponseUrl(url))
}

/// Extra fluent steps for a response builder.
pub trait ResponseBuilderExt: Sized {
    /// The headers gathered so far; `None` once the builder has failed.
    spec fn header_view(&self) -> Option<Map<Seq<char>, Seq<HeaderValue>>>;

    /// The origin URL stored so far, if any.
    spec fn origin_view(&self) -> Option<Url>;

    /// The status code set so far; `None` once the builder has failed.
    spec fn status_view(&self) -> Option<u16>;

    /// Records `url` as the origin of the response being built. The last
    /// call wins; the headers and the status are left as they were, and a
    /// failed builder is returned as it was.
    fn url(self, url: Url) -> (r: Self)
        ensures
            r.header_view() == self.header_view(),
            r.status_view() == self.status_view(),
            self.header_view() is None ==> r == self,
            self.header_view() is Some ==> r.origin_view() == Some(url),
    ;

    /// Merges `headers` into the headers already on the builder: each name
    /// in `headers` ends up with exactly the values it has there, in order,
    /// and the other names keep theirs. The status and the origin are kept,
    /// and a failed builder is returned as it was. The merged headers must
    /// fit under `HEADER_NAME_LIMIT` names; `try_headers` checks that first.
    fn headers(self, headers: HeaderMap) -> (r: Self)
        requires
            self.header_view() matches Some(h) ==> {
                &&& h.dom().finite()
                &&& merged(h, header_entries(headers)).dom().len() <= HEADER_NAME_LIMIT
            },
        ensures
            r.header_view() == match self.header_view() {
                Some(h) => Some(merged(h, header_entries(headers))),
                None => None,
            },
            r.origin_view() == self.origin_view(),
            r.status_view() == self.status_view(),
            self.header_view() is None ==> r == self,
    ;
}

impl ResponseBuilderExt for Builder {
    open spec fn header_view(&self) -> Option<Map<Seq<char>, Seq<HeaderValue>>> {
        builder_headers(*self)
    }

    open spec fn origin_view(&self) -> Option<Url> {
        builder_origin(*self)
    }

    open spec fn status_view(&self) -> Option<u16> {
        builder_status(*self)
    }

    fn url(self, url: Url) -> (r: Self) {
        attach_origin(self, url)
    }

    fn headers(self, headers: HeaderMap) -> (r: Self) {
        let mut builder = self;
        if let Some(target) = builder.headers_mut() {
            replace_headers(target, headers);
        }
        builder
    }
}

/// Merges `headers` into the builder as `ResponseBuilderExt::headers` does,
/// when the names already on the builder and the names of `headers` together
/// number at most `HEADER_NAME_LIMIT`, which keeps the merge within what a
/// header map can hold. Otherwise both are handed back untouched in `Err`. A
/// failed builder is always returned in `Ok`, as it was.
pub fn try_headers(b: Builder, headers: HeaderMap) -> (r: Result<Builder, (Builder, HeaderMap)>)
    ensures
        r is Err <==> (builder_headers(b) matches Some(h) && h.dom().len() + header_entries(
            headers,
        ).dom().len() > HEADER_NAME_LIMIT),
        r is Err ==> r == Err::<Builder, (Builder, HeaderMap)>((b, headers)),
        r matches Ok(rb) ==> {
            &&& builder_headers(rb) == match builder_headers(b) {
                Some(h) => Some(merged(h, header_entries(headers))),
                None => None,
            }
            &&& builder_origin(rb) == builder_origin(b)
            &&& builder_status(rb) == builder_status(b)
            &&& builder_headers(b) is None ==> rb == b
        },
{
    let fits = match b.headers_ref() {
        Some(current) => {
            let have = name_count(current);
            let add = name_count(&headers);
            proof {
                let h = header_entries(*current);
                let s = header_entries(headers);
                assert(merged(h, s).dom() == h.dom().union(s.dom()));
                vstd::set_lib::lemma_len_union(h.dom(), s.dom());
            }
            have <= HEADER_NAME_LIMIT && add <= HEADER_NAME_LIMIT - have
        },
        None => true,
    };
    if fits {
        Ok(b.headers(headers))
    } else {
        Err((b, headers))
    }
}

} // verus!
