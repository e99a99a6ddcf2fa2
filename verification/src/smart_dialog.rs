//! The SMART dialog of a drive: loading its data and running self-tests.
use vstd::prelude::*;

verus! {

/// The dialog of a drive (`Dr`) with its SMART data (`I`), carried as they come.
#[derive(Debug, Clone)]
pub struct SmartDataDialog<Dr, I> {
    pub drive: Dr,
    pub running: bool,
    pub info: Option<I>,
    pub error: Option<String>,
}

/// What the dialog asks the drive for.
#[derive(Debug, Clone, Copy, PartialEq, Eq, Structural)]
pub enum SmartRequest {
    /// Read the status and the attributes.
    Refresh,
    /// Start a short self-test.
    ShortSelfTest,
    /// Start an extended self-test.
    ExtendedSelfTest,
    /// Abort the self-test that runs.
    AbortSelfTest,
}

/// The kind of self-test a request starts, as the drive service names it; none for a refresh.
pub fn self_test_kind(request: SmartRequest) -> (r: Option<&'static str>)
    ensures
        match request {
            SmartRequest::Refresh => r is None,
            SmartRequest::ShortSelfTest => r matches Some(k) && k@ == "short"@,
            SmartRequest::ExtendedSelfTest => r matches Some(k) && k@ == "long"@,
            SmartRequest::AbortSelfTest => r matches Some(k) && k@ == "abort"@,
        },
{
    match request {
        SmartRequest::Refresh => None,
        SmartRequest::ShortSelfTest => Some("short"),
        SmartRequest::ExtendedSelfTest => Some("long"),
        SmartRequest::AbortSelfTest => Some("abort"),
    }
}

impl<Dr, I> SmartDataDialog<Dr, I> {
    /// Marks the dialog running for a request; the data shown so far stays, the error goes.
    pub fn begin(&mut self)
        ensures
            *final(self) == (SmartDataDialog { running: true, error: None, ..*old(self) }),
    {
        self.running = true;
        self.error = None;
    }

    /// Takes the data read from the drive, or the error of reading it.
    pub fn loaded(&mut self, result: Result<I, String>)
        ensures
            match result {
                Ok(info) => *final(self) == (SmartDataDialog { running: false, info: Some(info), error: None, ..*old(self) }),
                Err(e) => *final(self) == (SmartDataDialog { running: false, error: Some(e), ..*old(self) }),
            },
    {
        self.running = false;
        match result {
            Ok(info) => {
                self.info = Some(info);
                self.error = None;
            },
            Err(e) => {
                self.error = Some(e);
            },
        }
    }

    /// Takes the end of a self-test request; gives whether to read the data again (after a
    /// success).
    pub fn action_complete(&mut self, result: Result<(), String>) -> (refresh: bool)
        ensures
            match result {
                Ok(()) => refresh && *final(self) == (SmartDataDialog { running: false, error: None, ..*old(self) }),
                Err(e) => !refresh && *final(self) == (SmartDataDialog { running: false, error: Some(e), ..*old(self) }),
            },
    {
        self.running = false;
        match result {
            Ok(()) => {
                self.error = None;
                true
            },
            Err(e) => {
                self.error = Some(e);
                false
            },
        }
    }
}

} // verus!
