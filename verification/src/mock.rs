use std::collections::VecDeque;

use vstd::prelude::*;
use vstd::string::StringSliceAdditionalSpecFns;

use crate::body::fetched_view;
use crate::client::HttpClient;
use crate::error::{ErrorView, SkillfileError};

verus! {

/// Sequential scripted client: returns responses in FIFO order.
///
/// Each GET takes the next response of the first queue, each POST the next of
/// the second. An `Err` entry simulates a network failure with that message.
pub struct MockClient {
    responses: VecDeque<Result<String, String>>,
    post_responses: VecDeque<Result<String, String>>,
}

/// A scripted reply as plain values: the body text, or the failure message.
pub open spec fn reply_view(r: Result<String, String>) -> Result<Seq<char>, Seq<char>> {
    match r {
        Ok(b) => Ok(b@),
        Err(m) => Err(m@),
    }
}

/// Scripted replies as plain values.
pub open spec fn replies_view(q: Seq<Result<String, String>>) -> Seq<Result<Seq<char>, Seq<char>>> {
    q.map_values(|r: Result<String, String>| reply_view(r))
}

/// What the client hands back for a scripted reply: the body's UTF-8 bytes, or
/// a network error with the scripted message.
pub open spec fn delivered(r: Result<Seq<char>, Seq<char>>) -> Result<Seq<u8>, ErrorView> {
    match r {
        Ok(b) => Ok(vstd::utf8::encode_utf8(b)),
        Err(m) => Err(ErrorView::Network(m)),
    }
}

/// What the client hands back for a GET once its replies are used up.
pub open spec fn exhausted_get_error() -> ErrorView {
    ErrorView::Network("MockClient: no more responses"@)
}

/// What the client hands back for a POST once its replies are used up.
pub open spec fn exhausted_post_error() -> ErrorView {
    ErrorView::Network("MockClient: no more post responses"@)
}

impl MockClient {
    /// Replies still waiting for GET requests, first one first.
    pub closed spec fn pending_gets(&self) -> Seq<Result<Seq<char>, Seq<char>>> {
        replies_view(self.responses@)
    }

    /// Replies still waiting for POST requests, first one first.
    pub closed spec fn pending_posts(&self) -> Seq<Result<Seq<char>, Seq<char>>> {
        replies_view(self.post_responses@)
    }

    /// A client that answers GET requests with `responses`, in order, and has
    /// no POST replies.
    pub fn new(responses: Vec<Result<String, String>>) -> (c: Self)
        ensures
            c.pending_gets() == replies_view(responses@),
            c.pending_posts() == Seq::<Result<Seq<char>, Seq<char>>>::empty(),
    {
        let c = MockClient { responses: queue_of(responses), post_responses: VecDeque::new() };
        assert(c.pending_posts() =~= Seq::<Result<Seq<char>, Seq<char>>>::empty());
        c
    }

    /// The same client, answering POST requests with `post_responses`, in order.
    pub fn with_post_responses(self, post_responses: Vec<Result<String, String>>) -> (c: Self)
        ensures
            c.pending_gets() == self.pending_gets(),
            c.pending_posts() == replies_view(post_responses@),
    {
        MockClient { responses: self.responses, post_responses: queue_of(post_responses) }
    }
}

/// The elements of a vector as a queue, first element at the front.
fn queue_of(v: Vec<Result<String, String>>) -> (q: VecDeque<Result<String, String>>)
    ensures
        q@ == v@,
{
    let mut q: VecDeque<Result<String, String>> = VecDeque::new();
    let mut rest = v;
    let ghost all = rest@;
    assert(all.skip(0) =~= all);
    assert(all.take(0) =~= q@);
    while rest.len() > 0
        invariant
            rest@.len() <= all.len(),
            rest@ == all.skip(all.len() - rest@.len()),
            q@ == all.take(all.len() - rest@.len()),
        decreases rest@.len(),
    {
        let ghost m = all.len() - rest@.len();
        let x = rest.remove(0);
        assert(all.skip(m)[0] == x);
        assert(rest@ =~= all.skip(m + 1));
        q.push_back(x);
        assert(q@ =~= all.take(m + 1));
    }
    assert(all.take(all.len() as int) =~= all);
    q
}

/// What the client hands back for the reply at the front of a queue, and
/// `when_empty` as a network error when there is none.
fn deliver(reply: Option<Result<String, String>>, when_empty: &str) -> (r: Result<Vec<u8>, SkillfileError>)
    ensures
        match reply {
            Some(x) => fetched_view(r) == delivered(reply_view(x)),
            None => fetched_view(r) == Err::<Seq<u8>, ErrorView>(ErrorView::Network(when_empty@)),
        },
{
    match reply {
        Some(Ok(body)) => Ok(body.as_str().as_bytes_vec()),
        Some(Err(msg)) => Err(SkillfileError::Network(msg)),
        None => Err(SkillfileError::Network(String::from_str(when_empty))),
    }
}

impl HttpClient for MockClient {
    /// A GET takes the next scripted GET reply and leaves the POST replies
    /// alone; once the GET replies are used up it hands back a network error
    /// and changes nothing. The URL does not matter.
    open spec fn gets(before: Self, after: Self, url: Seq<char>, reply: Result<Seq<u8>, ErrorView>) -> bool {
        &&& after.pending_posts() == before.pending_posts()
        &&& if before.pending_gets().len() > 0 {
            &&& reply == delivered(before.pending_gets()[0])
            &&& after.pending_gets() == before.pending_gets().drop_first()
        } else {
            &&& reply == Err::<Seq<u8>, ErrorView>(exhausted_get_error())
            &&& after.pending_gets() == before.pending_gets()
        }
    }

    /// A POST takes the next scripted POST reply and leaves the GET replies
    /// alone; once the POST replies are used up it hands back a network error
    /// and changes nothing. The URL, body and token do not matter.
    open spec fn posts(
        before: Self,
        after: Self,
        url: Seq<char>,
        body: Seq<char>,
        bearer: Option<Seq<char>>,
        reply: Result<Seq<u8>, ErrorView>,
    ) -> bool {
        &&& after.pending_gets() == before.pending_gets()
        &&& if before.pending_posts().len() > 0 {
            &&& reply == delivered(before.pending_posts()[0])
            &&& after.pending_posts() == before.pending_posts().drop_first()
        } else {
            &&& reply == Err::<Seq<u8>, ErrorView>(exhausted_post_error())
            &&& after.pending_posts() == before.pending_posts()
        }
    }

    /// Hands back the next scripted GET reply; once they are used up, a
    /// network error.
    fn get_bytes(&mut self, url: &str) -> (r: Result<Vec<u8>, SkillfileError>)
        ensures
            old(self).pending_gets().len() > 0 ==> {
                &&& fetched_view(r) == delivered(old(self).pending_gets()[0])
                &&& final(self).pending_gets() == old(self).pending_gets().drop_first()
            },
            old(self).pending_gets().len() == 0 ==> fetched_view(r) == Err::<Seq<u8>, ErrorView>(exhausted_get_error()),
            final(self).pending_posts() == old(self).pending_posts(),
    {
        let reply = self.responses.pop_front();
        proof {
            if old(self).responses@.len() > 0 {
                assert(replies_view(self.responses@) =~= replies_view(old(self).responses@).drop_first());
            }
        }
        deliver(reply, "MockClient: no more responses")
    }

    /// Hands back the next scripted POST reply, as [`HttpClient::post_json`]
    /// does: the scripted client takes no notice of the token.
    fn post_json_with_bearer(&mut self, url: &str, body: &str, token: &str) -> (r: Result<Vec<u8>, SkillfileError>) {
        self.post_json(url, body)
    }

    /// Hands back the next scripted POST reply; once they are used up, a
    /// network error.
    fn post_json(&mut self, url: &str, body: &str) -> (r: Result<Vec<u8>, SkillfileError>)
        ensures
            old(self).pending_posts().len() > 0 ==> {
                &&& fetched_view(r) == delivered(old(self).pending_posts()[0])
                &&& final(self).pending_posts() == old(self).pending_posts().drop_first()
            },
            old(self).pending_posts().len() == 0 ==> fetched_view(r) == Err::<Seq<u8>, ErrorView>(exhausted_post_error()),
            final(self).pending_gets() == old(self).pending_gets(),
    {
        let reply = self.post_responses.pop_front();
        proof {
            if old(self).post_responses@.len() > 0 {
                assert(replies_view(self.post_responses@) =~= replies_view(old(self).post_responses@).drop_first());
            }
        }
        deliver(reply, "MockClient: no more post responses")
    }
}

} // verus!
