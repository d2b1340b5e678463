use vstd::prelude::*;

verus! {

/// A status snapshot obtained from the host's status producer.
#[derive(PartialEq, Eq, Debug)]
pub struct Status {
    pub battery_percentage: Option<i32>,
}

impl Default for Status {
    fn default() -> (r: Status)
        ensures
            r.battery_percentage is None,
    {
        Status { battery_percentage: None }
    }
}

impl Clone for Status {
    fn clone(&self) -> (r: Status)
        ensures
            r.battery_percentage == self.battery_percentage,
    {
        Status { battery_percentage: self.battery_percentage }
    }
}

/// The human-readable link state that the relay publishes to its host.
#[derive(PartialEq, Eq, Structural, Clone, Copy, Debug)]
pub enum LinkStatus {
    Connected,
    WrongPassword,
    Connecting,
    Disconnected,
}

/// The link state derived from the relay's flags: a successful identification
/// wins over a rejected password, which wins over the user's intent.
pub open spec fn link_status_of(started: bool, connected: bool, wrong_password: bool) -> LinkStatus {
    if connected {
        LinkStatus::Connected
    } else if wrong_password {
        LinkStatus::WrongPassword
    } else if started {
        LinkStatus::Connecting
    } else {
        LinkStatus::Disconnected
    }
}

pub open spec fn link_status_text(s: LinkStatus) -> Seq<char> {
    match s {
        LinkStatus::Connected => "Connected to streamer"@,
        LinkStatus::WrongPassword => "Wrong password"@,
        LinkStatus::Connecting => "Connecting to streamer"@,
        LinkStatus::Disconnected => "Disconnected from streamer"@,
    }
}

pub fn link_status(started: bool, connected: bool, wrong_password: bool) -> (r: LinkStatus)
    ensures
        r == link_status_of(started, connected, wrong_password),
{
    if connected {
        LinkStatus::Connected
    } else if wrong_password {
        LinkStatus::WrongPassword
    } else if started {
        LinkStatus::Connecting
    } else {
        LinkStatus::Disconnected
    }
}

impl LinkStatus {
    /// The string handed to the host's status callback.
    pub fn text(&self) -> (r: String)
        ensures
            r@ == link_status_text(*self),
    {
        match self {
            LinkStatus::Connected => "Connected to streamer".to_string(),
            LinkStatus::WrongPassword => "Wrong password".to_string(),
            LinkStatus::Connecting => "Connecting to streamer".to_string(),
            LinkStatus::Disconnected => "Disconnected from streamer".to_string(),
        }
    }
}

/// Where the status producer reads its snapshot from. An executable wins over a
/// file when both are configured.
#[derive(PartialEq, Eq, Clone, Debug)]
pub enum StatusSource {
    Executable(String),
    File(String),
    Unset,
}

pub fn status_source(executable: &Option<String>, file: &Option<String>) -> (r: StatusSource)
    ensures
        executable is Some ==> r is Executable && r->Executable_0@ == executable->Some_0@,
        executable is None && file is Some ==> r is File && r->File_0@ == file->Some_0@,
        executable is None && file is None ==> r is Unset,
{
    match executable {
        Some(e) => StatusSource::Executable(e.clone()),
        None => match file {
            Some(f) => StatusSource::File(f.clone()),
            None => StatusSource::Unset,
        },
    }
}

} // verus!
