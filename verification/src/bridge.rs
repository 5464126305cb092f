//! The bridge context and its protocols: the callback registries, trampoline
//! dispatch, and the correlation of asynchronous requests with their
//! completions.
//!
//! One `Document` owns the state of one bridge session: how many event
//! closures and ajax closures have been registered (the closures themselves
//! live with the runner that drives the host, addressed by the indices this
//! layer hands out), and the pending-request map. A request handle present as
//! a key means "sent, not yet completed"; absence means "already completed".
//! Each pending entry remembers the ajax closure registered for it, so a
//! completion is always routed to the closure its send registered.
//!
//! The host names closures by the indices this layer returned, and delivers
//! events and completions by calling the dispatch functions below, which
//! reconstruct the typed value the registered closure expects.

use crate::marshal::decode_text;
use crate::marshal::marshalled_bytes;
use crate::marshal::MarshalArena;
use crate::marshal::MarshalError;
use crate::marshal::Utf8Error;
use crate::status::spec_classify;
use crate::status::XmlHttpRequestErr;
use crate::status::XmlHttpRequestOk;
use std::collections::HashMap;
use vstd::prelude::*;
use vstd::utf8::decode_utf8;
use vstd::utf8::encode_utf8;
use vstd::utf8::valid_utf8;

verus! {

broadcast use vstd::std_specs::hash::group_hash_axioms;

/// The status value the error path of a request delivers, together with the
/// literal body `error`.
pub const AJAX_ERROR_STATUS: u16 = 65535;

/// A violation of the bridge protocol. These indicate a broken handle-table
/// invariant on the caller's side, never a host-environment condition.
#[derive(Debug, Clone, Copy, PartialEq, Eq, Structural)]
pub enum BridgeError {
    /// The host named a closure index that was never handed out.
    UnknownClosure(usize),
    /// The host completed a request handle that is unknown or was already
    /// completed.
    UnknownRequest(i32),
}

/// A reference to a host-owned node: the host-side handle and the identifier
/// of the owning bridge session.
#[derive(Debug, Clone, Copy, PartialEq, Eq, Structural)]
pub struct HtmlNode {
    pub id: i32,
    pub ctx: u64,
}

/// A non-owning view of a node, used to carry a node reference out of a
/// borrow without querying the host again.
#[derive(Debug, Clone, Copy, PartialEq, Eq, Structural)]
pub struct JSRef {
    pub id: i32,
    pub ctx: u64,
}

impl HtmlNode {
    /// A non-owning view of this node.
    pub fn root_ref(&self) -> (r: JSRef)
        ensures
            r.id == self.id,
            r.ctx == self.ctx,
    {
        JSRef { id: self.id, ctx: self.ctx }
    }
}

impl JSRef {
    /// The node this view refers to.
    pub fn node(&self) -> (n: HtmlNode)
        ensures
            n.id == self.id,
            n.ctx == self.ctx,
    {
        HtmlNode { id: self.id, ctx: self.ctx }
    }
}

/// A delivered event: the host-side event handle, and the target node when
/// the host reported one (the sentinel -1 means the event has no target).
#[derive(Debug, Clone, Copy, PartialEq, Eq)]
pub struct Event {
    pub target: Option<HtmlNode>,
    pub event: i32,
}

/// One asynchronous request: its host handle, the accumulated response
/// bytes, and the numeric completion status. A record is created empty with
/// status 0 when the request is sent, and filled exactly once on completion.
#[derive(Debug, Clone, PartialEq, Eq)]
pub struct XmlHttpRequest {
    pub id: i32,
    pub response: Vec<u8>,
    pub status: u16,
}

impl XmlHttpRequest {
    /// The response body as text. Fails exactly when the body is not valid
    /// UTF-8; the raw bytes stay available either way.
    pub fn response_text(&self) -> (r: Result<String, Utf8Error>)
        ensures
            match r {
                Ok(s) => valid_utf8(self.response@) && s@ == decode_utf8(self.response@),
                Err(_) => !valid_utf8(self.response@),
            },
    {
        decode_text(self.response.as_slice())
    }

    /// Classifies this request's completion status. `url` is the redirect
    /// location the host reported for the response, `None` when the host
    /// reported none.
    pub fn as_result(&self, url: Option<String>) -> (r: Result<XmlHttpRequestOk, XmlHttpRequestErr>)
        ensures
            r == spec_classify(self.status, url),
    {
        crate::status::classify(self.status, url)
    }
}

/// The state of one bridge session, as contracts see it.
#[verifier::ext_equal]
pub struct BridgeView {
    /// The session identifier nodes are bound to.
    pub ctx: u64,
    /// How many event closures have been registered.
    pub event_closures: usize,
    /// How many ajax closures have been registered.
    pub ajax_closures: usize,
    /// The pending requests: each in-flight handle, mapped to the ajax
    /// closure its completion is owed to.
    pub pending: Map<i32, usize>,
}

/// Every pending request is owed to a closure that was actually registered.
pub open spec fn bridge_wf(v: BridgeView) -> bool {
    forall|h: i32| #[trigger] v.pending.contains_key(h) ==> v.pending[h] < v.ajax_closures
}

/// The state of a fresh session.
pub open spec fn spec_init(ctx: u64) -> BridgeView {
    BridgeView { ctx, event_closures: 0, ajax_closures: 0, pending: Map::empty() }
}

/// Registering an event closure: the registry grows by one slot.
pub open spec fn spec_register_event(v: BridgeView) -> BridgeView {
    BridgeView { event_closures: (v.event_closures + 1) as usize, ..v }
}

/// Sending a request with host handle `handle`: one new ajax closure slot,
/// and a pending entry owing the completion to that slot.
pub open spec fn spec_ajax_send(v: BridgeView, handle: i32) -> BridgeView {
    BridgeView {
        ajax_closures: (v.ajax_closures + 1) as usize,
        pending: v.pending.insert(handle, v.ajax_closures),
        ..v
    }
}

/// Completing the request with handle `handle`: its pending entry is gone.
pub open spec fn spec_complete_request(v: BridgeView, handle: i32) -> BridgeView {
    BridgeView { pending: v.pending.remove(handle), ..v }
}

/// The node a host-returned handle denotes in session `v`: none for the
/// negative sentinel, otherwise a node bound to the session.
pub open spec fn spec_node_from_handle(v: BridgeView, id: i32) -> Option<HtmlNode> {
    if id < 0 {
        None
    } else {
        Some(HtmlNode { id, ctx: v.ctx })
    }
}

/// What the event trampoline does with the host's arguments: an unknown
/// closure index is a protocol violation; otherwise the typed event is
/// built, with no target for the sentinel -1 and a target bound to the
/// session for any other handle.
pub open spec fn spec_dispatch_event(v: BridgeView, closure: usize, node: i32, event: i32) -> Result<
    EventDispatch,
    BridgeError,
> {
    if closure >= v.event_closures {
        Err(BridgeError::UnknownClosure(closure))
    } else {
        Ok(
            EventDispatch {
                closure,
                event: Event {
                    target: if node == -1 {
                        None
                    } else {
                        Some(HtmlNode { id: node, ctx: v.ctx })
                    },
                    event,
                },
            },
        )
    }
}

/// An event delivery: which registered event closure to invoke, and the
/// typed event to invoke it with.
#[derive(Debug, Clone, Copy, PartialEq, Eq)]
pub struct EventDispatch {
    pub closure: usize,
    pub event: Event,
}

/// A completed request delivery: which registered ajax closure to invoke,
/// and the completed record to hand it by value.
#[derive(Debug, Clone, PartialEq, Eq)]
pub struct AjaxCompletion {
    pub closure: usize,
    pub request: XmlHttpRequest,
}

/// What a send hands the runner: the index of the ajax closure that was
/// registered, and the arena owning the marshalled url, method and body
/// buffers (in that order) for the duration of the invocation.
pub struct AjaxSend {
    pub closure: usize,
    pub args: MarshalArena,
}

/// The root object of one bridge session. Owns the closure registries (as
/// index allocators; the boxed closures live with the runner) and the
/// pending-request map.
pub struct Document {
    ctx: u64,
    refs: usize,
    ajax: usize,
    requests: HashMap<i32, usize>,
}

impl View for Document {
    type V = BridgeView;

    closed spec fn view(&self) -> BridgeView {
        BridgeView {
            ctx: self.ctx,
            event_closures: self.refs,
            ajax_closures: self.ajax,
            pending: self.requests@,
        }
    }
}

/// A fresh bridge session with identifier `ctx`: empty registries, nothing
/// pending.
pub fn init(ctx: u64) -> (doc: Document)
    ensures
        doc@ == spec_init(ctx),
        bridge_wf(doc@),
{
    let doc = Document { ctx, refs: 0, ajax: 0, requests: HashMap::new() };
    proof {
        assert(doc@ =~= spec_init(ctx));
    }
    doc
}

impl Document {
    /// The session identifier.
    pub fn ctx(&self) -> (c: u64)
        ensures
            c == self@.ctx,
    {
        self.ctx
    }

    /// How many event closures have been registered.
    pub fn event_closure_count(&self) -> (n: usize)
        ensures
            n == self@.event_closures,
    {
        self.refs
    }

    /// How many ajax closures have been registered.
    pub fn ajax_closure_count(&self) -> (n: usize)
        ensures
            n == self@.ajax_closures,
    {
        self.ajax
    }

    /// Whether the request with this handle is pending: sent, not yet
    /// completed.
    pub fn is_pending(&self, handle: i32) -> (b: bool)
        ensures
            b == self@.pending.contains_key(handle),
    {
        self.requests.contains_key(&handle)
    }

    /// How many requests are pending.
    pub fn pending_count(&self) -> (n: usize)
        ensures
            n == self@.pending.len(),
    {
        self.requests.len()
    }

    /// Registers one event closure: allocates the next slot in the event
    /// registry and hands back its index, which is what the host is given to
    /// name the closure by. The slot is never reclaimed before the session
    /// ends.
    pub fn register_event_closure(&mut self) -> (idx: usize)
        requires
            old(self)@.event_closures < usize::MAX,
        ensures
            idx == old(self)@.event_closures,
            final(self)@ == spec_register_event(old(self)@),
    {
        let idx = self.refs;
        self.refs = self.refs + 1;
        proof {
            assert(self@ =~= spec_register_event(old(self)@));
        }
        idx
    }

    /// The event trampoline's reconstruction step: given the closure index,
    /// node handle and event handle the host called back with, builds the
    /// typed event for the runner to invoke that closure with. A node handle
    /// of -1 yields an event with no target; any other handle yields a
    /// target bound to this session. An unregistered closure index is a
    /// protocol violation.
    pub fn dispatch_event(&self, closure: usize, node: i32, event: i32) -> (r: Result<
        EventDispatch,
        BridgeError,
    >)
        ensures
            r == spec_dispatch_event(self@, closure, node, event),
    {
        if closure >= self.refs {
            Err(BridgeError::UnknownClosure(closure))
        } else {
            Ok(
                EventDispatch {
                    closure,
                    event: Event {
                        target: if node == -1 {
                            None
                        } else {
                            Some(HtmlNode { id: node, ctx: self.ctx })
                        },
                        event,
                    },
                },
            )
        }
    }

    /// The native half of sending a request whose host handle is `handle`:
    /// marshals url, method and body (an absent body travels as the empty
    /// string) into a fresh per-invocation arena, registers the completion
    /// closure's slot, and records the request as pending, owed to that
    /// slot. Fails exactly when one of the three texts cannot be marshalled;
    /// the session is unchanged then. The handle must be fresh: the host
    /// never reuses a handle while its request is pending.
    pub fn ajax_send(&mut self, handle: i32, url: &str, method: &str, data: Option<&str>) -> (r:
        Result<AjaxSend, MarshalError>)
        requires
            !old(self)@.pending.contains_key(handle),
            old(self)@.ajax_closures < usize::MAX,
        ensures
            match r {
                Ok(snd) => {
                    &&& snd.closure == old(self)@.ajax_closures
                    &&& snd.args@ =~= seq![
                        marshalled_bytes(url@),
                        marshalled_bytes(method@),
                        marshalled_bytes(spec_body_text(data)),
                    ]
                    &&& snd.args.wf()
                    &&& final(self)@ == spec_ajax_send(old(self)@, handle)
                },
                Err(e) => {
                    &&& e == MarshalError::InteriorNul
                    &&& {
                        ||| encode_utf8(url@).contains(0u8)
                        ||| encode_utf8(method@).contains(0u8)
                        ||| encode_utf8(spec_body_text(data)).contains(0u8)
                    }
                    &&& final(self)@ == old(self)@
                },
            },
            bridge_wf(old(self)@) ==> bridge_wf(final(self)@),
    {
        let mut args = MarshalArena::new();
        let r_url = args.push_str(url);
        if r_url.is_err() {
            return Err(MarshalError::InteriorNul);
        }
        let r_method = args.push_str(method);
        if r_method.is_err() {
            return Err(MarshalError::InteriorNul);
        }
        let body: &str = match data {
            Some(d) => d,
            None => "",
        };
        proof {
            reveal_strlit("");
            assert(body@ == spec_body_text(data));
        }
        let r_body = args.push_str(body);
        if r_body.is_err() {
            return Err(MarshalError::InteriorNul);
        }
        let closure = self.ajax;
        self.ajax = self.ajax + 1;
        self.requests.insert(handle, closure);
        proof {
            assert(self@ =~= spec_ajax_send(old(self)@, handle));
            assert(args@ =~= seq![
                marshalled_bytes(url@),
                marshalled_bytes(method@),
                marshalled_bytes(spec_body_text(data)),
            ]);
        }
        Ok(AjaxSend { closure, args })
    }

    /// Sends a GET request: `ajax_send` with method `GET` and no body.
    pub fn ajax_get(&mut self, handle: i32, url: &str) -> (r: Result<AjaxSend, MarshalError>)
        requires
            !old(self)@.pending.contains_key(handle),
            old(self)@.ajax_closures < usize::MAX,
        ensures
            match r {
                Ok(snd) => {
                    &&& snd.closure == old(self)@.ajax_closures
                    &&& snd.args@ =~= seq![
                        marshalled_bytes(url@),
                        marshalled_bytes("GET"@),
                        marshalled_bytes(Seq::<char>::empty()),
                    ]
                    &&& snd.args.wf()
                    &&& final(self)@ == spec_ajax_send(old(self)@, handle)
                },
                Err(e) => {
                    &&& e == MarshalError::InteriorNul
                    &&& encode_utf8(url@).contains(0u8)
                    &&& final(self)@ == old(self)@
                },
            },
            bridge_wf(old(self)@) ==> bridge_wf(final(self)@),
    {
        proof {
            reveal_strlit("GET");
            lemma_short_ascii_nul_free("GET"@);
            lemma_short_ascii_nul_free(Seq::<char>::empty());
        }
        self.ajax_send(handle, url, "GET", None)
    }

    /// Sends a POST request: `ajax_send` with method `POST` and the given
    /// body (an absent body travels as the empty string).
    pub fn ajax_post(&mut self, handle: i32, url: &str, data: Option<&str>) -> (r: Result<
        AjaxSend,
        MarshalError,
    >)
        requires
            !old(self)@.pending.contains_key(handle),
            old(self)@.ajax_closures < usize::MAX,
        ensures
            match r {
                Ok(snd) => {
                    &&& snd.closure == old(self)@.ajax_closures
                    &&& snd.args@ =~= seq![
                        marshalled_bytes(url@),
                        marshalled_bytes("POST"@),
                        marshalled_bytes(spec_body_text(data)),
                    ]
                    &&& snd.args.wf()
                    &&& final(self)@ == spec_ajax_send(old(self)@, handle)
                },
                Err(e) => {
                    &&& e == MarshalError::InteriorNul
                    &&& (encode_utf8(url@).contains(0u8) || encode_utf8(
                        spec_body_text(data),
                    ).contains(0u8))
                    &&& final(self)@ == old(self)@
                },
            },
            bridge_wf(old(self)@) ==> bridge_wf(final(self)@),
    {
        proof {
            reveal_strlit("POST");
            lemma_short_ascii_nul_free("POST"@);
        }
        self.ajax_send(handle, url, "POST", data)
    }

    /// The ajax trampoline's correlation step: given the handle, response
    /// bytes and status the host called back with, removes the matching
    /// pending record, fills in its status and response, and hands back the
    /// completed record together with the closure its send registered. A
    /// handle that is unknown or was already completed is a protocol
    /// violation; nothing changes then.
    pub fn dispatch_ajax(&mut self, handle: i32, response: Vec<u8>, status: u16) -> (r: Result<
        AjaxCompletion,
        BridgeError,
    >)
        requires
            bridge_wf(old(self)@),
        ensures
            bridge_wf(final(self)@),
            match r {
                Ok(c) => {
                    &&& old(self)@.pending.contains_key(handle)
                    &&& c.closure == old(self)@.pending[handle]
                    &&& c.closure < old(self)@.ajax_closures
                    &&& c.request.id == handle
                    &&& c.request.status == status
                    &&& c.request.response == response
                    &&& final(self)@ == spec_complete_request(old(self)@, handle)
                },
                Err(e) => {
                    &&& e == BridgeError::UnknownRequest(handle)
                    &&& !old(self)@.pending.contains_key(handle)
                    &&& final(self)@ == old(self)@
                },
            },
    {
        match self.requests.remove(&handle) {
            Some(closure) => {
                proof {
                    assert(self@ =~= spec_complete_request(old(self)@, handle));
                }
                Ok(AjaxCompletion { closure, request: XmlHttpRequest { id: handle, response, status } })
            },
            None => {
                proof {
                    assert(self@ =~= old(self)@);
                }
                Err(BridgeError::UnknownRequest(handle))
            },
        }
    }

    /// The node a host-returned handle denotes: none for a negative
    /// sentinel, otherwise a node bound to this session.
    pub fn node_from_handle(&self, id: i32) -> (r: Option<HtmlNode>)
        ensures
            r == spec_node_from_handle(self@, id),
    {
        if id < 0 {
            None
        } else {
            Some(HtmlNode { id, ctx: self.ctx })
        }
    }
}

/// The body text a send carries: the given body, or the empty string when
/// none was given.
pub open spec fn spec_body_text(data: Option<&str>) -> Seq<char> {
    match data {
        Some(d) => d@,
        None => Seq::empty(),
    }
}

/// The encodings of the fixed ASCII texts the bridge marshals are free of
/// zero bytes.
proof fn lemma_short_ascii_nul_free(s: Seq<char>)
    requires
        forall|i: int| 0 <= i < s.len() ==> ' ' <= #[trigger] s[i] <= '~',
    ensures
        !encode_utf8(s).contains(0u8),
{
    assert(vstd::utf8::is_ascii_chars(s));
    vstd::utf8::is_ascii_chars_encode_utf8(s);
    assert forall|i: int| 0 <= i < encode_utf8(s).len() implies encode_utf8(s)[i] != 0u8 by {
        assert(s[i] as u8 == encode_utf8(s)[i]);
        assert(' ' <= s[i] <= '~');
        assert(32 <= s[i] as u32 <= 126);
    }
    assert(!encode_utf8(s).contains(0u8));
}

/// Law: a freshly registered event closure is dispatchable, and dispatch
/// builds the promised event: the sentinel -1 yields an event with no
/// target, and any other node handle yields a target node bound to the
/// dispatching session.
pub proof fn lemma_register_then_dispatch_event(v: BridgeView, node: i32, event: i32)
    requires
        v.event_closures < usize::MAX,
    ensures
        ({
            let idx = v.event_closures;
            let r = spec_dispatch_event(spec_register_event(v), idx, node, event);
            &&& r matches Ok(d)
            &&& d.closure == idx
            &&& d.event.event == event
            &&& node == -1 ==> d.event.target is None
            &&& node != -1 ==> d.event.target == Some(HtmlNode { id: node, ctx: v.ctx })
        }),
{
}

/// Law: two requests sent while both stay pending get distinct closure
/// slots, and each completion is routed to the closure its own send
/// registered, whichever order the completions fire in.
pub proof fn lemma_sends_route_independently(v: BridgeView, h1: i32, h2: i32)
    requires
        h1 != h2,
        !v.pending.contains_key(h1),
        !v.pending.contains_key(h2),
        v.ajax_closures < usize::MAX - 1,
    ensures
        ({
            let v2 = spec_ajax_send(spec_ajax_send(v, h1), h2);
            &&& v2.pending[h1] == v.ajax_closures
            &&& v2.pending[h2] == v.ajax_closures + 1
            &&& v2.pending[h1] != v2.pending[h2]
            &&& spec_complete_request(v2, h1).pending[h2] == v2.pending[h2]
            &&& spec_complete_request(v2, h2).pending[h1] == v2.pending[h1]
            &&& !spec_complete_request(v2, h1).pending.contains_key(h1)
            &&& !spec_complete_request(v2, h2).pending.contains_key(h2)
        }),
{
}

/// Law: completing one pending request leaves every other pending request
/// untouched, and leaves the completed handle no longer pending, so a second
/// completion of the same handle is a protocol violation.
pub proof fn lemma_completion_independent(v: BridgeView, h1: i32, h2: i32)
    requires
        h1 != h2,
        v.pending.contains_key(h1),
        v.pending.contains_key(h2),
    ensures
        ({
            let v1 = spec_complete_request(v, h1);
            &&& !v1.pending.contains_key(h1)
            &&& v1.pending.contains_key(h2)
            &&& v1.pending[h2] == v.pending[h2]
            &&& v1.event_closures == v.event_closures
            &&& v1.ajax_closures == v.ajax_closures
            &&& v1.ctx == v.ctx
        }),
{
}

} // verus!
