use vstd::prelude::*;

use super::response::RecordedResponse;
use crate::text::{owned, str_eq};

verus! {

struct Route {
    path: String,
    response: RecordedResponse,
}

/// The responses queued for path `p` in `routes`, oldest first.
pub open spec fn queue(routes: Seq<(Seq<char>, RecordedResponse)>, p: Seq<char>) -> Seq<
    RecordedResponse,
>
    decreases routes.len(),
{
    if routes.len() == 0 {
        Seq::empty()
    } else {
        let head: Seq<RecordedResponse> = if routes[0].0 == p {
            seq![routes[0].1]
        } else {
            Seq::empty()
        };
        head + queue(routes.drop_first(), p)
    }
}

/// Adding a route appends its response to the queue of its path only.
pub proof fn lemma_queue_push(
    s: Seq<(Seq<char>, RecordedResponse)>,
    x: (Seq<char>, RecordedResponse),
    p: Seq<char>,
)
    ensures
        queue(s.push(x), p) == if x.0 == p {
            queue(s, p).push(x.1)
        } else {
            queue(s, p)
        },
    decreases s.len(),
{
    if s.len() == 0 {
        assert(s.push(x).drop_first() =~= Seq::<(Seq<char>, RecordedResponse)>::empty());
        assert(s.push(x)[0] == x);
        assert(queue(Seq::<(Seq<char>, RecordedResponse)>::empty(), p) =~= Seq::<RecordedResponse>::empty());
        assert(queue(s.push(x), p) =~= (if x.0 == p {
            seq![x.1]
        } else {
            Seq::<RecordedResponse>::empty()
        }) + Seq::<RecordedResponse>::empty());
        assert(queue(s, p) =~= Seq::<RecordedResponse>::empty());
        assert(queue(s, p).push(x.1) =~= seq![x.1]);
    } else {
        assert(s.push(x).drop_first() =~= s.drop_first().push(x));
        lemma_queue_push(s.drop_first(), x, p);
        assert(s.push(x)[0] == s[0]);
        let head: Seq<RecordedResponse> = if s[0].0 == p {
            seq![s[0].1]
        } else {
            Seq::empty()
        };
        if x.0 == p {
            assert(head + queue(s.drop_first(), p).push(x.1) =~= (head + queue(s.drop_first(), p)).push(
                x.1,
            ));
        }
    }
}

/// Removing the first route for `p` takes the head off `p`'s queue and leaves
/// the other queues as they are.
pub proof fn lemma_queue_remove_first(s: Seq<(Seq<char>, RecordedResponse)>, i: int, p: Seq<char>)
    requires
        0 <= i < s.len(),
        s[i].0 == p,
        forall|k: int| 0 <= k < i ==> s[k].0 != p,
    ensures
        queue(s, p).len() > 0,
        queue(s, p)[0] == s[i].1,
        queue(s.remove(i), p) == queue(s, p).drop_first(),
        forall|q: Seq<char>| q != p ==> #[trigger] queue(s.remove(i), q) == queue(s, q),
    decreases i,
{
    if i == 0 {
        assert(s.remove(0) =~= s.drop_first());
        assert(queue(s, p) =~= seq![s[0].1] + queue(s.drop_first(), p));
        assert forall|q: Seq<char>| q != p implies #[trigger] queue(s.remove(i), q) == queue(s, q) by {
            assert(queue(s, q) =~= Seq::<RecordedResponse>::empty() + queue(s.drop_first(), q));
        }
    } else {
        lemma_queue_remove_first(s.drop_first(), i - 1, p);
        assert(s.remove(i).drop_first() =~= s.drop_first().remove(i - 1));
        assert(s.remove(i)[0] == s[0]);
        assert(queue(s, p) =~= queue(s.drop_first(), p));
        assert(queue(s.remove(i), p) =~= queue(s.drop_first().remove(i - 1), p));
        assert forall|q: Seq<char>| q != p implies #[trigger] queue(s.remove(i), q) == queue(s, q) by {
            assert(queue(s.drop_first().remove(i - 1), q) == queue(s.drop_first(), q));
        }
    }
}

/// Routes requests to recorded responses by path. Each path has a queue:
/// responses are served oldest first, each once.
pub struct Router {
    routes: Vec<Route>,
}

impl Router {
    /// The routes, as `(path, response)`, in the order they were added.
    pub closed spec fn routes(&self) -> Seq<(Seq<char>, RecordedResponse)> {
        self.routes@.map_values(|r: Route| (r.path@, r.response))
    }

    /// A router with no routes.
    pub fn new() -> (r: Self)
        ensures
            r.routes() == Seq::<(Seq<char>, RecordedResponse)>::empty(),
    {
        let r = Router { routes: Vec::new() };
        assert(r.routes() =~= Seq::<(Seq<char>, RecordedResponse)>::empty());
        r
    }

    /// Queues `response` for `path`, after the responses already queued.
    pub fn add_route(&mut self, path: &str, response: RecordedResponse)
        ensures
            final(self).routes() == old(self).routes().push((path@, response)),
            forall|p: Seq<char>|
                #[trigger] queue(final(self).routes(), p) == if p == path@ {
                    queue(old(self).routes(), p).push(response)
                } else {
                    queue(old(self).routes(), p)
                },
    {
        let ghost x = (path@, response);
        self.routes.push(Route { path: owned(path), response });
        assert(self.routes() =~= old(self).routes().push(x));
        assert forall|p: Seq<char>|
            #[trigger] queue(self.routes(), p) == if p == path@ {
                queue(old(self).routes(), p).push(x.1)
            } else {
                queue(old(self).routes(), p)
            } by {
            lemma_queue_push(old(self).routes(), x, p);
        }
    }

    fn position(&self, path: &str) -> (r: Option<usize>)
        ensures
            match r {
                Some(i) => i < self.routes().len() && self.routes()[i as int].0 == path@ && forall|
                    k: int,
                | 0 <= k < i ==> self.routes()[k].0 != path@,
                None => forall|k: int| 0 <= k < self.routes().len() ==> self.routes()[k].0 != path@,
            },
    {
        let mut i: usize = 0;
        while i < self.routes.len()
            invariant
                i <= self.routes@.len(),
                forall|k: int| 0 <= k < i ==> self.routes()[k].0 != path@,
            decreases self.routes.len() - i,
        {
            if str_eq(self.routes[i].path.as_str(), path) {
                return Some(i);
            }
            i = i + 1;
        }
        None
    }

    /// The oldest response queued for `path`, without removing it.
    pub fn find(&self, path: &str) -> (r: Option<&RecordedResponse>)
        ensures
            match r {
                Some(x) => queue(self.routes(), path@).len() > 0 && *x == queue(
                    self.routes(),
                    path@,
                )[0],
                None => queue(self.routes(), path@).len() == 0,
            },
    {
        match self.position(path) {
            Some(i) => {
                proof {
                    lemma_queue_remove_first(self.routes(), i as int, path@);
                }
                Some(&self.routes[i].response)
            },
            None => {
                proof {
                    lemma_queue_none(self.routes(), path@);
                }
                None
            },
        }
    }

    /// Removes and returns the oldest response queued for `path`; the
    /// queues of other paths are unchanged.
    pub fn take(&mut self, path: &str) -> (r: Option<RecordedResponse>)
        ensures
            match r {
                Some(x) => queue(old(self).routes(), path@).len() > 0 && x == queue(
                    old(self).routes(),
                    path@,
                )[0] && queue(final(self).routes(), path@) == queue(
                    old(self).routes(),
                    path@,
                ).drop_first(),
                None => queue(old(self).routes(), path@).len() == 0 && final(self).routes()
                    == old(self).routes(),
            },
            forall|q: Seq<char>|
                q != path@ ==> #[trigger] queue(final(self).routes(), q) == queue(
                    old(self).routes(),
                    q,
                ),
    {
        match self.position(path) {
            Some(i) => {
                proof {
                    lemma_queue_remove_first(self.routes(), i as int, path@);
                }
                let route = self.routes.remove(i);
                assert(self.routes() =~= old(self).routes().remove(i as int));
                Some(route.response)
            },
            None => {
                proof {
                    lemma_queue_none(self.routes(), path@);
                }
                None
            },
        }
    }
}

proof fn lemma_queue_none(s: Seq<(Seq<char>, RecordedResponse)>, p: Seq<char>)
    requires
        forall|k: int| 0 <= k < s.len() ==> s[k].0 != p,
    ensures
        queue(s, p).len() == 0,
    decreases s.len(),
{
    if s.len() > 0 {
        assert forall|k: int| 0 <= k < s.drop_first().len() implies s.drop_first()[k].0 != p by {
            assert(s.drop_first()[k] == s[k + 1]);
        }
        lemma_queue_none(s.drop_first(), p);
    }
}

impl Default for Router {
    /// A router with no routes.
    fn default() -> (r: Self)
        ensures
            r.routes() == Seq::<(Seq<char>, RecordedResponse)>::empty(),
    {
        Router::new()
    }
}

}
