use vstd::prelude::*;

use super::error::ToolDispatchError;
use crate::text::{owned, str_eq};

verus! {

/// Calls the handler closure `f` on `args_json`. The contract claims what
/// a call of a closure within its precondition gives: then the result is
/// one that the closure's own postcondition allows. Outside its
/// precondition nothing is claimed, and which result comes back is left
/// unsaid; it is the caller's code.
#[verifier::external_body]
fn call_closure<F: Fn(&str) -> Result<String, String>>(f: &F, args_json: &str) -> (r: Result<
    String,
    String,
>)
    ensures
        handler_allows(*f, args_json, r),
{
    f(args_json)
}

/// Whether `r` is a result that handler `f` may return for `args_json`:
/// for arguments within its precondition, what its postcondition allows.
pub open spec fn handler_allows<F: Fn(&str) -> Result<String, String>>(
    f: F,
    args_json: &str,
    r: Result<String, String>,
) -> bool {
    call_requires(f, (args_json,)) ==> call_ensures(f, (args_json,), r)
}

/// Maps tool names to handlers, so a model's tool call can be routed to the
/// right function by name. Handlers of different closure types are kept
/// as boxed closures (`H = Box<dyn Fn(&str) -> Result<String, String>>`).
pub struct ToolRegistry<H> {
    handlers: Vec<Registered<H>>,
}

/// A handler and the name it is registered under.
struct Registered<H> {
    name: String,
    handler: H,
}

/// What a dispatch returns for what the handler returned.
pub open spec fn handler_outcome(
    hr: Result<String, String>,
    r: Result<String, ToolDispatchError>,
) -> bool {
    match hr {
        Ok(v) => r matches Ok(w) && w@ == v@,
        Err(m) => r matches Err(ToolDispatchError::Handler(w)) && w@ == m@,
    }
}

impl<H: Fn(&str) -> Result<String, String>> ToolRegistry<H> {
    /// The registered names, in order of first registration.
    pub closed spec fn names(&self) -> Seq<Seq<char>> {
        self.handlers@.map_values(|p: Registered<H>| p.name@)
    }

    /// The handler registered under `name`.
    pub closed spec fn handler(&self, name: Seq<char>) -> H {
        self.handlers@[self.index_of(name)].handler
    }

    /// The position of the handler registered under `n`.
    closed spec fn index_of(&self, n: Seq<char>) -> int {
        choose|i: int| 0 <= i < self.handlers@.len() && self.handlers@[i].name@ == n
    }

    proof fn lemma_index_of(&self, i: int)
        requires
            self.wf(),
            0 <= i < self.handlers@.len(),
        ensures
            self.index_of(self.handlers@[i].name@) == i,
    {
        let n = self.handlers@[i].name@;
        assert(self.handlers@[i].name@ == n);
        let k = self.index_of(n);
        if k != i {
            if k < i {
                assert(self.handlers@[k].name@ != self.handlers@[i].name@);
            } else {
                assert(self.handlers@[i].name@ != self.handlers@[k].name@);
            }
        }
    }

    /// No name is registered twice.
    pub closed spec fn wf(&self) -> bool {
        forall|i: int, j: int|
            0 <= i < j < self.handlers@.len() ==> self.handlers@[i].name@ != self.handlers@[j].name@
    }

    /// An empty registry.
    pub fn new() -> (r: Self)
        ensures
            r.wf(),
            r.names() == Seq::<Seq<char>>::empty(),
    {
        let r = ToolRegistry { handlers: Vec::new() };
        assert(r.names() =~= Seq::<Seq<char>>::empty());
        r
    }

    /// Index of the handler registered under `name`.
    fn find(&self, name: &str) -> (r: Option<usize>)
        requires
            self.wf(),
        ensures
            match r {
                Some(i) => i < self.handlers@.len() && self.handlers@[i as int].name@ == name@
                    && self.names().contains(name@),
                None => !self.names().contains(name@),
            },
    {
        let mut i: usize = 0;
        while i < self.handlers.len()
            invariant
                i <= self.handlers@.len(),
                forall|j: int| 0 <= j < i ==> self.handlers@[j].name@ != name@,
            decreases self.handlers.len() - i,
        {
            if str_eq(self.handlers[i].name.as_str(), name) {
                assert(self.names()[i as int] == name@);
                return Some(i);
            }
            i = i + 1;
        }
        proof {
            if self.names().contains(name@) {
                let k = choose|k: int| 0 <= k < self.names().len() && self.names()[k] == name@;
                assert(self.handlers@[k].name@ == name@);
            }
        }
        None
    }

    /// Registers `handler` under `name`; a second registration for the same
    /// name replaces the first.
    pub fn register(&mut self, name: &str, handler: H) -> (r: &mut Self)
        requires
            old(self).wf(),
        ensures
            r.wf(),
            if old(self).names().contains(name@) {
                r.names() == old(self).names()
            } else {
                r.names() == old(self).names().push(name@)
            },
            r.handler(name@) == handler,
            forall|m: Seq<char>|
                #![trigger r.handler(m)]
                m != name@ && old(self).names().contains(m) ==> r.handler(m) == old(self).handler(m),
            *final(self) == *final(r),
    {
        let ghost before = self.handlers@;
        let ghost mut changed: int = 0;
        let n = owned(name);
        match self.find(name) {
            Some(i) => {
                proof {
                    changed = i as int;
                }
                self.handlers.set(i, Registered { name: n, handler });
                assert forall|k: int| 0 <= k < self.handlers@.len() implies #[trigger] self.handlers@[k].name@
                    == before[k].name@ by {
                    if k == i {
                    }
                }
                assert(self.names() =~= old(self).names());
            },
            None => {
                proof {
                    changed = before.len() as int;
                }
                self.handlers.push(Registered { name: n, handler });
                assert forall|k: int| 0 <= k < before.len() implies #[trigger] self.handlers@[k].name@
                    == before[k].name@ by {
                }
                assert(self.handlers@[before.len() as int].name@ == name@);
                assert(self.names() =~= old(self).names().push(name@));
                assert forall|a: int, b: int| 0 <= a < b < self.handlers@.len() implies self.handlers@[a].name@
                    != self.handlers@[b].name@ by {
                    if b == before.len() {
                        assert(old(self).names()[a] == before[a].name@);
                    }
                }
            },
        }
        assert(self.handlers@[changed].name@ == name@);
        assert(self.handlers@[changed].handler == handler);
        proof {
            self.lemma_index_of(changed);
        }
        assert(forall|k: int| 0 <= k < before.len() && k != changed ==> self.handlers@[k] == before[k]);
        assert forall|m: Seq<char>| m != name@ && old(self).names().contains(m) implies #[trigger] self.handler(m)
            == old(self).handler(m) by {
            let k = choose|k: int| 0 <= k < old(self).names().len() && old(self).names()[k] == m;
            assert(old(self).handlers@[k].name@ == m);
            old(self).lemma_index_of(k);
            assert(k != changed);
            assert(self.handlers@[k] == before[k]);
            self.lemma_index_of(k);
        }
        self
    }

    /// Whether a handler is registered under `name`.
    pub fn contains(&self, name: &str) -> (r: bool)
        requires
            self.wf(),
        ensures
            r == self.names().contains(name@),
    {
        self.find(name).is_some()
    }

    /// Invokes the handler registered under `name` with `args_json`. Fails
    /// with `UnknownTool(name)` when there is none; otherwise returns the
    /// handler's result, with its error wrapped in `Handler`.
    pub fn dispatch(&self, name: &str, args_json: &str) -> (r: Result<String, ToolDispatchError>)
        requires
            self.wf(),
        ensures
            !self.names().contains(name@) ==> (r matches Err(ToolDispatchError::UnknownTool(n))
                && n@ == name@),
            self.names().contains(name@) ==> exists|hr: Result<String, String>|
                handler_allows(self.handler(name@), args_json, hr) && handler_outcome(hr, r),
    {
        match self.find(name) {
            None => Err(ToolDispatchError::UnknownTool(owned(name))),
            Some(i) => {
                proof {
                    self.lemma_index_of(i as int);
                }
                let hr = call_closure(&self.handlers[i].handler, args_json);
                let r = Self::wrap(hr);
                r
            },
        }
    }

    /// Wraps a handler's result as a dispatch result.
    pub fn wrap(hr: Result<String, String>) -> (r: Result<String, ToolDispatchError>)
        ensures
            handler_outcome(hr, r),
    {
        match hr {
            Ok(v) => Ok(v),
            Err(m) => Err(ToolDispatchError::Handler(m)),
        }
    }
}

impl<H: Fn(&str) -> Result<String, String>> Default for ToolRegistry<H> {
    /// A registry with no tool.
    fn default() -> (r: Self)
        ensures
            r.wf(),
            r.names() == Seq::<Seq<char>>::empty(),
    {
        ToolRegistry::new()
    }
}

}
