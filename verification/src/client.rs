use vstd::prelude::*;

use crate::body::fetched_view;
use crate::error::{ErrorView, SkillfileError};
use crate::search::{SearchOptions, SearchResponse};

verus! {

/// The HTTP requests the registries need. Production code supplies a client
/// that talks to the network; tests supply a scripted one.
///
/// Each client describes its requests through [`HttpClient::gets`] and
/// [`HttpClient::posts`]: what a request of a given URL (and body, and bearer
/// token) may do to the client and hand back. A network client claims nothing
/// of its replies, which the network decides (the defaults); the scripted one
/// says exactly what it hands back. The searches state their outcome over
/// these relations, so the request they make and the reply they use are
/// pinned for every client.
pub trait HttpClient: Sized {
    /// A GET of `url` may take the client from `before` to `after` and hand
    /// back `reply`.
    open spec fn gets(before: Self, after: Self, url: Seq<char>, reply: Result<Seq<u8>, ErrorView>) -> bool {
        true
    }

    /// A POST of `body` as JSON to `url`, with `bearer` as bearer token when
    /// there is one, may take the client from `before` to `after` and hand
    /// back `reply`.
    open spec fn posts(
        before: Self,
        after: Self,
        url: Seq<char>,
        body: Seq<char>,
        bearer: Option<Seq<char>>,
        reply: Result<Seq<u8>, ErrorView>,
    ) -> bool {
        true
    }

    /// GET `url` and return the response body.
    fn get_bytes(&mut self, url: &str) -> (r: Result<Vec<u8>, SkillfileError>)
        ensures
            Self::gets(*old(self), *final(self), url@, fetched_view(r)),
    ;

    /// POST `body` as JSON to `url` and return the response body.
    fn post_json(&mut self, url: &str, body: &str) -> (r: Result<Vec<u8>, SkillfileError>)
        ensures
            Self::posts(*old(self), *final(self), url@, body@, None, fetched_view(r)),
    ;

    /// POST `body` as JSON to `url` with `token` as bearer token
    /// (`Authorization: Bearer <token>`).
    fn post_json_with_bearer(&mut self, url: &str, body: &str, token: &str) -> (r: Result<Vec<u8>, SkillfileError>)
        ensures
            Self::posts(*old(self), *final(self), url@, body@, Some(token@), fetched_view(r)),
    ;
}

/// A searchable registry backend.
pub trait Registry {
    /// Human-readable name shown in output (e.g. "agentskill.sh").
    fn name(&self) -> &'static str;

    /// Search this registry. Returns a unified [`SearchResponse`].
    fn search<C: HttpClient>(&self, client: &mut C, query: &str, opts: &SearchOptions) -> Result<SearchResponse, SkillfileError>;
}

} // verus!
