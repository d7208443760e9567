//! Fetching a file in one piece.
use vstd::prelude::*;

verus! {

/// What comes of waiting for the next bytes of a body.
#[derive(Debug, Clone)]
pub enum BodyEvent {
    /// Bytes came.
    Chunk {
        /// How many.
        len: u64,
    },
    /// The connection failed.
    Failed {
        /// What went wrong.
        error: String,
    },
    /// The body is at its end.
    Ended,
    /// Nothing came in time.
    TimedOut {
        /// How long the wait was, in words.
        waited: String,
    },
}

/// The message of a download that was cancelled.
pub open spec fn cancelled_text() -> Seq<char> {
    "Download cancelled"@
}

/// The message of an event that ends a download, where it does.
pub open spec fn body_fault(event: BodyEvent) -> Option<Seq<char>> {
    match event {
        BodyEvent::Failed { error } => Some("stream error: "@ + error@),
        BodyEvent::TimedOut { waited } => Some("read timed out after "@ + waited@),
        _ => None,
    }
}

/// The message of an event that ends a download, where it does.
pub fn fault_of(event: &BodyEvent) -> (r: Option<String>)
    ensures
        crate::text::opt_view(r) == body_fault(*event),
{
    match event {
        BodyEvent::Failed { error } => {
            let mut e = "stream error: ".to_string();
            e.append(error.as_str());
            Some(e)
        },
        BodyEvent::TimedOut { waited } => {
            let mut e = "read timed out after ".to_string();
            e.append(waited.as_str());
            Some(e)
        },
        _ => None,
    }
}

/// A file that is fetched in one piece.
#[derive(Debug, Clone, Copy, PartialEq, Eq, Structural)]
pub struct Stream {
    /// Bytes that are written.
    pub downloaded: u64,
}

/// What to do next.
#[derive(Debug, Clone)]
pub enum StreamStep {
    /// Write the bytes and wait for more.
    Write,
    /// The file is complete.
    Finish,
    /// The download has failed.
    Fail(String),
}

impl Stream {
    /// Starts with a response: any success will do.
    pub fn start(success: bool, status_text: &str, url: &str) -> (r: Result<Stream, String>)
        ensures
            match r {
                Ok(s) => success && s.downloaded == 0,
                Err(e) => !success && e@ == "HTTP "@ + status_text@ + " downloading "@ + url@,
            },
    {
        if !success {
            let mut e = "HTTP ".to_string();
            e.append(status_text);
            e.append(" downloading ");
            e.append(url);
            return Err(e);
        }
        Ok(Stream { downloaded: 0 })
    }

    /// Whether to wait for more bytes: not once the download is cancelled.
    pub fn before_read(&self, cancelled: bool) -> (r: Result<(), String>)
        ensures
            match r {
                Ok(()) => !cancelled,
                Err(e) => cancelled && e@ == cancelled_text(),
            },
    {
        if cancelled {
            return Err("Download cancelled".to_string());
        }
        Ok(())
    }

    /// Goes on with what came of waiting.
    pub fn on_event(&mut self, event: &BodyEvent) -> (r: StreamStep)
        requires
            event matches BodyEvent::Chunk { len } ==> old(self).downloaded + *len <= u64::MAX,
        ensures
            match r {
                StreamStep::Write => event matches BodyEvent::Chunk { len }
                    && final(self).downloaded == old(self).downloaded + *len,
                StreamStep::Finish => event is Ended && *final(self) == *old(self),
                StreamStep::Fail(e) => body_fault(*event) == Some(e@) && *final(self) == *old(self),
            },
    {
        if let Some(e) = fault_of(event) {
            return StreamStep::Fail(e);
        }
        match event {
            BodyEvent::Chunk { len } => {
                self.downloaded = self.downloaded + *len;
                StreamStep::Write
            },
            _ => StreamStep::Finish,
        }
    }
}

} // verus!
