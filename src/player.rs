//! The player session: its identity, name and frequency, the choice of the
//! station it stands in for, whether it has started, and its errors.
use vstd::prelude::*;
use vstd::string::{StrSliceExecFns, StringExecFns};
use crate::frame::FrameError;
use crate::worker::{step, stop_requested, Command, WorkerControl, WorkerState};
use crate::identity::{base64_url_of, is_url_safe_char, new_session_id, SESSION_ID_BYTES, SESSION_ID_LEN};

verus! {

/// Why a session could not be set up or went on no longer.
#[derive(Debug)]
pub enum Error {
    /// A global or table key of the host's configuration was missing.
    Undefined(String),
    /// A socket could not be opened, read or written; the text says why.
    Tcp(String),
    /// A control message could not be serialized.
    Json(String),
    /// An audio file could not be read.
    Wav(String),
    /// The audio encoder refused its input.
    Opus(String),
    /// An audio packet could not be built.
    Frame(FrameError),
    /// No station of the expected name is in the configuration.
    NoStationFound,
}

pub open spec fn description_spec(e: Error) -> Seq<char> {
    match e {
        Error::Undefined(_) => "Trying to access lua gobal or table key that does not exist"@,
        Error::Tcp(_) => "Error establishing TCP connection to SRS"@,
        Error::Json(_) => "Error serializing/deserializing JSON RPC message"@,
        Error::Wav(_) => "Error reading WAV file"@,
        Error::Opus(_) => "Error encoding Opus audio stream"@,
        Error::Frame(_) => "Error building an SRS audio packet"@,
        Error::NoStationFound => "No SRS station found in mission"@,
    }
}

impl Error {
    /// A one-line description of the kind of error.
    pub fn description(&self) -> (r: &'static str)
        ensures
            r@ == description_spec(*self),
    {
        match self {
            Error::Undefined(_) => "Trying to access lua gobal or table key that does not exist",
            Error::Tcp(_) => "Error establishing TCP connection to SRS",
            Error::Json(_) => "Error serializing/deserializing JSON RPC message",
            Error::Wav(_) => "Error reading WAV file",
            Error::Opus(_) => "Error encoding Opus audio stream",
            Error::Frame(_) => "Error building an SRS audio packet",
            Error::NoStationFound => "No SRS station found in mission",
        }
    }

    /// The text of the error: the description, or for a missing key the
    /// key, followed by the cause where there is one.
    pub fn message(&self) -> (r: String)
        ensures
            self matches Error::Undefined(key) ==> r@ == "Error: Trying to access undefined lua global or table key: "@ + key@,
            self matches Error::NoStationFound ==> r@ == "Error: "@ + description_spec(*self),
            self matches Error::Frame(_) ==> r@ == "Error: "@ + description_spec(*self),
            self matches Error::Tcp(c) ==> r@ == "Error: "@ + description_spec(*self) + "  -> "@ + c@,
            self matches Error::Json(c) ==> r@ == "Error: "@ + description_spec(*self) + "  -> "@ + c@,
            self matches Error::Wav(c) ==> r@ == "Error: "@ + description_spec(*self) + "  -> "@ + c@,
            self matches Error::Opus(c) ==> r@ == "Error: "@ + description_spec(*self) + "  -> "@ + c@,
    {
        match self {
            Error::Undefined(key) => {
                let mut r = String::from_str(
                    "Error: Trying to access undefined lua global or table key: ",
                );
                r.append(key.as_str());
                r
            },
            Error::Tcp(c) | Error::Json(c) | Error::Wav(c) | Error::Opus(c) => {
                let mut r = String::from_str("Error: ");
                r.append(self.description());
                r.append("  -> ");
                r.append(c.as_str());
                r
            },
            _ => {
                let mut r = String::from_str("Error: ");
                r.append(self.description());
                r
            },
        }
    }
}

/// The name that marks the static object standing in for the station.
pub open spec fn station_marker() -> Seq<char> {
    "SRS Player"@
}

/// The characters of `a` and `b` are the same.
fn same_text(a: &str, b: &str) -> (r: bool)
    ensures
        r == (a@ == b@),
{
    let n = a.unicode_len();
    if n != b.unicode_len() {
        return false;
    }
    let mut i: usize = 0;
    while i < n
        invariant
            n == a@.len() == b@.len(),
            i <= n,
            forall|j: int| 0 <= j < i ==> a@[j] == b@[j],
        decreases n - i,
    {
        if a.get_char(i) != b.get_char(i) {
            return false;
        }
        i = i + 1;
    }
    proof {
        assert(a@ =~= b@);
    }
    true
}

/// The index of the first station whose name is the marker, or
/// `NoStationFound` where none is.
pub fn find_station(names: &Vec<String>) -> (r: Result<usize, Error>)
    ensures
        r matches Ok(i) ==> i < names@.len() && names@[i as int]@ == station_marker() && forall|
            j: int,
        | 0 <= j < i ==> (#[trigger] names@[j])@ != station_marker(),
        r is Err ==> r == Err::<usize, Error>(Error::NoStationFound),
        r is Err <==> forall|j: int|
            0 <= j < names@.len() ==> (#[trigger] names@[j])@ != station_marker(),
{
    let marker = "SRS Player";
    let mut i: usize = 0;
    while i < names.len()
        invariant
            i <= names@.len(),
            marker@ == station_marker(),
            forall|j: int| 0 <= j < i ==> (#[trigger] names@[j])@ != station_marker(),
        decreases names@.len() - i,
    {
        if same_text(names[i].as_str(), marker) {
            return Ok(i);
        }
        i = i + 1;
    }
    Err(Error::NoStationFound)
}

/// Frequency, in Hz, of a station found in the configuration.
pub const STATION_FREQ: u64 = 255_000_000;

/// One radio client: its session identity, display name and frequency, and
/// the state of its session, which its workers follow.
pub struct Player {
    pub sguid: String,
    pub name: String,
    pub freq: u64,
    pub session: WorkerControl,
}

impl Player {
    pub open spec fn is_started(&self) -> bool {
        self.session.state != WorkerState::Created
    }

    /// A player with a fresh session identity; nothing is opened or started.
    pub fn new(name: &str, freq: u64) -> (r: Player)
        ensures
            r.sguid@.len() == SESSION_ID_LEN,
            forall|i: int| 0 <= i < r.sguid@.len() ==> is_url_safe_char(#[trigger] r.sguid@[i]),
            exists|b: Seq<u8>| b.len() == SESSION_ID_BYTES && r.sguid@ == base64_url_of(b),
            r.name@ == name@,
            r.freq == freq,
            r.session.state == WorkerState::Created,
    {
        Player {
            sguid: new_session_id(),
            name: String::from_str(name),
            freq,
            session: WorkerControl::new(),
        }
    }

    /// The player for the station among `station_names` that carries the
    /// marker name, and that station's index; `NoStationFound` where there
    /// is none, before any session exists.
    pub fn create(station_names: &Vec<String>) -> (r: Result<(Player, usize), Error>)
        ensures
            r matches Ok((p, i)) ==> {
                &&& i < station_names@.len()
                &&& station_names@[i as int]@ == station_marker()
                &&& forall|j: int|
                    0 <= j < i ==> (#[trigger] station_names@[j])@ != station_marker()
                &&& p.name@ == "SRS Radio"@
                &&& p.freq == STATION_FREQ
                &&& p.sguid@.len() == SESSION_ID_LEN
                &&& p.session.state == WorkerState::Created
            },
            r is Err <==> forall|j: int|
                0 <= j < station_names@.len() ==> (#[trigger] station_names@[j])@
                    != station_marker(),
            r is Err ==> r matches Err(Error::NoStationFound),
    {
        match find_station(station_names) {
            Ok(i) => Ok((Player::new("SRS Radio", STATION_FREQ), i)),
            Err(e) => Err(e),
        }
    }

    /// Marks the session as started. Returns `false`, and changes nothing,
    /// where it had started already: a second start is a no-op.
    pub fn begin(&mut self) -> (r: bool)
        ensures
            r == !old(self).is_started(),
            final(self).is_started(),
            r ==> final(self).session.state == WorkerState::Running,
            !r ==> final(self).session == old(self).session,
            final(self).sguid@ == old(self).sguid@,
            final(self).name@ == old(self).name@,
            final(self).freq == old(self).freq,
    {
        if matches!(self.session.state, WorkerState::Created) {
            self.session.start();
            true
        } else {
            false
        }
    }

    pub fn started(&self) -> (r: bool)
        ensures
            r == self.is_started(),
    {
        !matches!(self.session.state, WorkerState::Created)
    }

    /// Pauses the session. Returns whether the workers are to be paused: only
    /// a running session is; otherwise this is a no-op.
    pub fn pause(&mut self) -> (r: bool)
        ensures
            final(self).session.state == step(old(self).session.state, Command::Pause),
            r == (old(self).session.state == WorkerState::Running),
            final(self).sguid@ == old(self).sguid@,
            final(self).freq == old(self).freq,
    {
        let r = matches!(self.session.state, WorkerState::Running);
        self.session.pause();
        r
    }

    /// Resumes a paused session. Returns whether the workers are to be
    /// unpaused: only a paused session is; otherwise this is a no-op.
    pub fn unpause(&mut self) -> (r: bool)
        ensures
            final(self).session.state == step(old(self).session.state, Command::Unpause),
            r == (old(self).session.state == WorkerState::Paused),
            final(self).sguid@ == old(self).sguid@,
            final(self).freq == old(self).freq,
    {
        let r = matches!(self.session.state, WorkerState::Paused);
        self.session.unpause();
        r
    }

    /// Ends the session. Returns whether the workers are to be stopped: they
    /// are unless a stop was requested before.
    pub fn stop(&mut self) -> (r: bool)
        ensures
            final(self).session.state == step(old(self).session.state, Command::Stop),
            stop_requested(final(self).session.state),
            r == !stop_requested(old(self).session.state),
            final(self).sguid@ == old(self).sguid@,
            final(self).freq == old(self).freq,
    {
        let r = !self.session.should_stop();
        self.session.stop();
        r
    }

    /// The name under which the client shows: `ATIS ` and the player's name.
    pub fn client_name(&self) -> (r: String)
        ensures
            r@ == "ATIS "@ + self.name@,
    {
        let mut r = String::from_str("ATIS ");
        r.append(self.name.as_str());
        r
    }
}

} // verus!
