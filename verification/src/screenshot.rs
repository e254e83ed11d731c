//! The screenshot relay: a request id for each capture the server asks of the
//! canvas, and what the waiting request answers once the frontend replied, the
//! channel closed, or the wait timed out.
use vstd::prelude::*;
use vstd::string::*;
use crate::model::{is_random_uuid, new_random_id};
use crate::protocol::{uuid_string, uuid_text};

verus! {

/// A fresh id for a screenshot request: `ss-` and a random UUID.
pub fn screenshot_request_id() -> (r: String)
    ensures
        exists|u: u128| is_random_uuid(u) && r@ == "ss-"@ + uuid_text(u),
{
    let u = new_random_id();
    let mut r = String::from_str("ss-");
    r.append(uuid_string(u).as_str());
    r
}

/// How the wait for a screenshot ended.
#[derive(Debug, Clone)]
pub enum ScreenshotWait {
    /// The frontend delivered the image, base64-encoded.
    Delivered(String),
    /// The channel closed before a delivery.
    Closed,
    /// No delivery within the time limit.
    TimedOut,
}

/// What a screenshot request answers: the image data, or why there is none.
pub open spec fn screenshot_answer(w: ScreenshotWait) -> Result<Seq<char>, Seq<char>> {
    match w {
        ScreenshotWait::Delivered(d) => Ok(d@),
        ScreenshotWait::Closed => Err("Screenshot channel closed"@),
        ScreenshotWait::TimedOut => Err("Screenshot timed out (10s)"@),
    }
}

/// The answer once the wait has ended. After a timeout the caller also drops the
/// pending request.
pub fn screenshot_result(w: ScreenshotWait) -> (r: Result<String, String>)
    ensures
        match r {
            Ok(d) => screenshot_answer(w) == Ok::<Seq<char>, Seq<char>>(d@),
            Err(e) => screenshot_answer(w) == Err::<Seq<char>, Seq<char>>(e@),
        },
{
    match w {
        ScreenshotWait::Delivered(d) => Ok(d),
        ScreenshotWait::Closed => Err(String::from_str("Screenshot channel closed")),
        ScreenshotWait::TimedOut => Err(String::from_str("Screenshot timed out (10s)")),
    }
}

/// The answer when no frontend is there to capture the canvas.
pub fn no_emitter_error() -> (r: String)
    ensures
        r@ == "Screenshot emitter not configured (app not running?)"@,
{
    String::from_str("Screenshot emitter not configured (app not running?)")
}

/// The outcome of delivering a screenshot for `request_id`: refused when no request
/// with that id is pending, or when the waiting side is gone.
pub open spec fn delivery_answer(request_id: Seq<char>, pending: bool, sent: bool) -> Result<(), Seq<char>> {
    if !pending {
        Err("No pending screenshot request: "@ + request_id)
    } else if !sent {
        Err("Failed to deliver screenshot"@)
    } else {
        Ok(())
    }
}

/// Decides the outcome of a delivery; `sent` is only read when the request was pending.
pub fn delivery_result(request_id: &str, pending: bool, sent: bool) -> (r: Result<(), String>)
    ensures
        match r {
            Ok(()) => delivery_answer(request_id@, pending, sent) is Ok,
            Err(e) => delivery_answer(request_id@, pending, sent) == Err::<(), Seq<char>>(e@),
        },
{
    if !pending {
        let mut e = String::from_str("No pending screenshot request: ");
        e.append(request_id);
        Err(e)
    } else if !sent {
        Err(String::from_str("Failed to deliver screenshot"))
    } else {
        Ok(())
    }
}

} // verus!
