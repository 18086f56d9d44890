//! The commands of the desktop shell that decide something by themselves.
use crate::text;
use vstd::prelude::*;

verus! {

/// The stop signal of the Douyu danmaku listener that runs, if one does. One room is
/// listened to at a time.
#[derive(Debug)]
pub struct DouyuDanmakuHandles<S> {
    pub stop: Option<S>,
}

impl<S> Default for DouyuDanmakuHandles<S> {
    /// No listener runs.
    fn default() -> (r: DouyuDanmakuHandles<S>)
        ensures
            r.stop is None,
    {
        DouyuDanmakuHandles { stop: None }
    }
}

impl<S> DouyuDanmakuHandles<S> {
    /// Records the stop signal of a listener that starts, and gives out that of the
    /// listener that it replaces.
    pub fn start_danmaku_listener(&mut self, stop: S) -> (previous: Option<S>)
        ensures
            previous == old(self).stop,
            final(self).stop == Some(stop),
    {
        let previous = self.stop.take();
        self.stop = Some(stop);
        previous
    }

    /// Gives out the stop signal of the listener that runs.
    pub fn stop_danmaku_listener(&mut self) -> (current: Option<S>)
        ensures
            current == old(self).stop,
            final(self).stop is None,
    {
        self.stop.take()
    }
}

/// What became of a stop signal.
#[derive(Debug, Clone, Copy, PartialEq, Eq, Structural)]
pub enum StopSignal {
    /// No listener ran.
    NoListener,
    Delivered,
    /// The listener was gone.
    ReceiverDropped,
}

/// What stopping a listener comes to: it fails only where the listener was gone
/// without being stopped.
pub fn stop_result(room_id: &str, signal: StopSignal) -> (r: Result<(), String>)
    ensures
        r is Ok <==> !(signal is ReceiverDropped),
        r matches Err(message) ==> message@
            == "Failed to stop Douyu danmaku listener (requested room "@ + room_id@
            + "): receiver dropped."@,
{
    match signal {
        StopSignal::NoListener => Ok(()),
        StopSignal::Delivered => Ok(()),
        StopSignal::ReceiverDropped => {
            let mut m = "Failed to stop Douyu danmaku listener (requested room ".to_owned();
            m.append(room_id);
            m.append("): receiver dropped.");
            Err(m)
        },
    }
}

/// The URL to open in the browser: `url` without white space around it, unless that
/// is nothing.
pub fn open_in_default_browser(url: &str) -> (r: Result<String, String>)
    ensures
        match r {
            Ok(target) => target@ == text::trimmed(url@) && target@.len() > 0,
            Err(message) => text::trimmed(url@).len() == 0 && message@ == "URL is empty."@,
        },
{
    let u = text::chars_of(url);
    let trimmed = text::trim(u.as_slice());
    if trimmed.len() == 0 {
        return Err("URL is empty.".to_owned());
    }
    Ok(text::string_of(trimmed))
}

/// The report that a room has no stream URL.
pub fn stream_url_failure(detail: &str) -> (r: String)
    ensures
        r@ == "Failed to get stream URL: "@ + detail@,
{
    let mut r = "Failed to get stream URL: ".to_owned();
    r.append(detail);
    r
}

/// The report that a room has no stream URL in the quality asked for.
pub fn stream_url_quality_failure(detail: &str) -> (r: String)
    ensures
        r@ == "Failed to get stream URL with quality: "@ + detail@,
{
    let mut r = "Failed to get stream URL with quality: ".to_owned();
    r.append(detail);
    r
}

} // verus!
