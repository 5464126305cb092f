//! A verified model of a native-to-host bridge: status classification for
//! asynchronous HTTP completions, an argument-marshalling arena for string
//! data crossing the boundary, a callback registry with trampoline dispatch,
//! and a request-correlation protocol that completes each pending request
//! exactly once.

use vstd::prelude::*;

pub mod bridge;
pub mod classes;
pub mod marshal;
pub mod status;
pub mod storage;

pub use bridge::AjaxCompletion;
pub use bridge::AjaxSend;
pub use bridge::BridgeError;
pub use bridge::Document;
pub use bridge::Event;
pub use bridge::EventDispatch;
pub use bridge::HtmlNode;
pub use bridge::JSRef;
pub use bridge::XmlHttpRequest;
pub use bridge::init;
pub use bridge::AJAX_ERROR_STATUS;
pub use classes::parse_class_list;
pub use marshal::MarshalArena;
pub use marshal::MarshalError;
pub use marshal::MarshalledArg;
pub use marshal::SnippetArg;
pub use marshal::Utf8Error;
pub use status::XmlHttpRequestClientErrorStatus;
pub use status::XmlHttpRequestErr;
pub use status::XmlHttpRequestOk;
pub use status::XmlHttpRequestRedirectStatus;
pub use status::XmlHttpRequestServerErrorStatus;
pub use status::XmlHttpRequestSuccessStatus;
pub use status::classify;
pub use storage::LocalStorageInterface;
pub use storage::LocalStorageIterator;

verus! {

/// A fixed numeric probe: one recognized code answers with its reply,
/// every other code answers with the absent sentinel.
pub fn syscall(a: i32) -> (r: i32)
    ensures
        r == if a == 355 { 55i32 } else { -1i32 },
{
    if a == 355 {
        return 55;
    }
    return -1;
}

} // verus!
