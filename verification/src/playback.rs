use vstd::prelude::*;
use vstd::string::StringExecFns;

use crate::model::decoder::{PlaybackTimer, Speed, Volume};
use crate::text::{str_eq, views_of};

verus! {

/// Whether a song plays.
#[derive(Clone, Copy, Debug, PartialEq, Eq, Structural)]
pub enum PlaybackState {
    Stopped,
    Playing,
    Paused,
}

impl Default for PlaybackState {
    fn default() -> (r: Self)
        ensures
            r == PlaybackState::Stopped,
    {
        PlaybackState::Stopped
    }
}

/// The name under which a playback state is reported to clients.
pub open spec fn state_name(s: PlaybackState) -> Seq<char> {
    match s {
        PlaybackState::Stopped => "stopped"@,
        PlaybackState::Playing => "playing"@,
        PlaybackState::Paused => "paused"@,
    }
}

/// What toggling the playback does in each state.
#[derive(Clone, Copy, Debug, PartialEq, Eq, Structural)]
pub enum ToggleAction {
    Pause,
    Resume,
    Nothing,
}

impl PlaybackState {
    /// The name of the state.
    pub fn name(&self) -> (r: String)
        ensures
            r@ == state_name(*self),
    {
        match self {
            PlaybackState::Stopped => String::from_str("stopped"),
            PlaybackState::Playing => String::from_str("playing"),
            PlaybackState::Paused => String::from_str("paused"),
        }
    }

    /// Toggling pauses what plays, resumes what is paused, and leaves a stopped
    /// playback alone.
    pub fn toggle_action(&self) -> (r: ToggleAction)
        ensures
            r == match *self {
                PlaybackState::Playing => ToggleAction::Pause,
                PlaybackState::Paused => ToggleAction::Resume,
                PlaybackState::Stopped => ToggleAction::Nothing,
            },
    {
        match self {
            PlaybackState::Playing => ToggleAction::Pause,
            PlaybackState::Paused => ToggleAction::Resume,
            PlaybackState::Stopped => ToggleAction::Nothing,
        }
    }

    /// Pausing and resuming do nothing to a stopped playback.
    pub fn is_stopped(&self) -> (r: bool)
        ensures
            r == (*self == PlaybackState::Stopped),
    {
        match self {
            PlaybackState::Stopped => true,
            _ => false,
        }
    }
}

/// What the player reports of the audio side.
#[derive(Clone, Copy, Debug)]
pub struct AudioStatus {
    pub gapless: bool,
    pub state: PlaybackState,
    pub speed: Speed,
    pub volume: Volume,
    pub timer: Option<PlaybackTimer>,
}

/// The audio devices known by name, whether each is enabled, and how many were
/// enabled.
#[derive(Debug)]
pub struct Devices {
    names: Vec<String>,
    enabled: Vec<bool>,
    n_enabled: u8,
}

/// The message for a device that is not known.
pub open spec fn device_not_found(name: Seq<char>) -> Seq<char> {
    "device "@ + name + " not found"@
}

impl Devices {
    /// The devices' names, in the order they were added.
    pub closed spec fn names(&self) -> Seq<Seq<char>> {
        views_of(self.names@)
    }

    /// Whether each device is enabled.
    pub closed spec fn flags(&self) -> Seq<bool> {
        self.enabled@
    }

    /// The count of enablings minus disablings.
    pub closed spec fn enabled_count(&self) -> u8 {
        self.n_enabled
    }

    /// One flag per device, and no two devices of one name.
    pub open spec fn wf(&self) -> bool {
        &&& self.names().len() == self.flags().len()
        &&& forall|i: int, j: int|
            0 <= i < self.names().len() && 0 <= j < self.names().len() && i != j ==> self.names()[i]
                != self.names()[j]
    }

    /// The position of the device `name`.
    pub open spec fn index_of(&self, name: Seq<char>) -> Option<int> {
        if exists|i: int| 0 <= i < self.names().len() && self.names()[i] == name {
            Some(choose|i: int| 0 <= i < self.names().len() && self.names()[i] == name)
        } else {
            None
        }
    }

    /// No devices.
    pub fn new() -> (r: Self)
        ensures
            r.wf(),
            r.names() == Seq::<Seq<char>>::empty(),
            r.enabled_count() == 0,
    {
        let r = Devices { names: Vec::new(), enabled: Vec::new(), n_enabled: 0 };
        assert(r.names() =~= Seq::<Seq<char>>::empty());
        r
    }

    fn find(&self, name: &str) -> (r: Option<usize>)
        requires
            self.wf(),
        ensures
            match r {
                Some(i) => i < self.names().len() && self.names()[i as int] == name@ && self.index_of(name@)
                    == Some(i as int),
                None => self.index_of(name@) is None,
            },
    {
        let mut i: usize = 0;
        while i < self.names.len()
            invariant
                self.wf(),
                i <= self.names@.len(),
                forall|j: int| 0 <= j < i ==> self.names()[j] != name@,
            decreases self.names@.len() - i,
        {
            if str_eq(self.names[i].as_str(), name) {
                proof {
                    let k = choose|k: int| 0 <= k < self.names().len() && self.names()[k] == name@;
                    assert(self.names()[i as int] == name@);
                    assert(k == i);
                }
                return Some(i);
            }
            i = i + 1;
        }
        None
    }

    /// The count of enablings minus disablings.
    pub fn count(&self) -> (r: u8)
        ensures
            r == self.enabled_count(),
    {
        self.n_enabled
    }

    /// Whether a device named `name` is known.
    pub fn contains(&self, name: &str) -> (r: bool)
        requires
            self.wf(),
        ensures
            r == (self.index_of(name@) is Some),
    {
        self.find(name).is_some()
    }

    /// Adds the device `name`, disabled; a device of that name already known becomes
    /// disabled again, and the count stays.
    pub fn add(&mut self, name: &str)
        requires
            old(self).wf(),
        ensures
            final(self).wf(),
            final(self).enabled_count() == old(self).enabled_count(),
            match old(self).index_of(name@) {
                Some(i) => final(self).names() == old(self).names() && final(self).flags() == old(self).flags().update(i, false),
                None => final(self).names() == old(self).names().push(name@) && final(self).flags() == old(self).flags().push(false),
            },
    {
        match self.find(name) {
            Some(i) => {
                self.enabled.set(i, false);
            },
            None => {
                let ghost before = self.names();
                self.names.push(String::from_str(name));
                self.enabled.push(false);
                assert(self.names() =~= before.push(name@));
            },
        }
    }

    /// Marks the known device `name` enabled, after it was enabled while disabled;
    /// the count grows by one.
    pub fn note_enabled(&mut self, name: &str)
        requires
            old(self).wf(),
            old(self).index_of(name@) is Some,
            old(self).enabled_count() < 255,
        ensures
            final(self).wf(),
            final(self).names() == old(self).names(),
            final(self).flags() == old(self).flags().update(old(self).index_of(name@).unwrap(), true),
            final(self).enabled_count() == old(self).enabled_count() + 1,
    {
        match self.find(name) {
            Some(i) => {
                self.enabled.set(i, true);
            },
            None => {},
        }
        self.n_enabled = self.n_enabled + 1;
    }

    /// Disables the device `name`: refused while the count is one (one device at
    /// least must stay enabled) or when no device has that name; otherwise the
    /// count drops by one.
    pub fn disable(&mut self, name: &str) -> (r: Result<(), String>)
        requires
            old(self).wf(),
            old(self).enabled_count() != 1 && old(self).index_of(name@) is Some ==> old(self).enabled_count() > 0,
        ensures
            final(self).wf(),
            final(self).names() == old(self).names(),
            old(self).enabled_count() == 1 ==> (r matches Err(m) && m@ == "at least one device must be enabled"@),
            old(self).enabled_count() == 1 ==> final(self).enabled_count() == old(self).enabled_count(),
            old(self).enabled_count() != 1 && old(self).index_of(name@) is None ==> (r matches Err(m) && m@ == device_not_found(name@))
                && final(self).enabled_count() == old(self).enabled_count(),
            old(self).enabled_count() != 1 && old(self).index_of(name@) is Some ==> r is Ok && final(self).enabled_count() == old(self).enabled_count() - 1
                && final(self).flags() == old(self).flags().update(old(self).index_of(name@).unwrap(), false),
            !(old(self).enabled_count() != 1 && old(self).index_of(name@) is Some) ==> final(self).flags() == old(self).flags(),
    {
        if self.n_enabled == 1 {
            let m = String::from_str("at least one device must be enabled");
            proof {
                reveal_strlit("at least one device must be enabled");
            }
            return Err(m);
        }
        match self.find(name) {
            Some(i) => {
                self.enabled.set(i, false);
                self.n_enabled = self.n_enabled - 1;
                Ok(())
            },
            None => {
                let mut m = String::from_str("device ");
                m.append(name);
                m.append(" not found");
                Err(m)
            },
        }
    }

    /// The devices' names and whether each is enabled.
    pub fn list(&self) -> (r: Vec<(String, bool)>)
        requires
            self.wf(),
        ensures
            r@.len() == self.names().len(),
            forall|i: int| 0 <= i < r@.len() ==> (#[trigger] r@[i]).0@ == self.names()[i] && r@[i].1 == self.flags()[i],
    {
        let mut r: Vec<(String, bool)> = Vec::new();
        let mut i: usize = 0;
        while i < self.names.len()
            invariant
                self.wf(),
                i <= self.names@.len(),
                r@.len() == i,
                forall|j: int| 0 <= j < i ==> (#[trigger] r@[j]).0@ == self.names()[j] && r@[j].1 == self.flags()[j],
            decreases self.names@.len() - i,
        {
            r.push((self.names[i].clone(), self.enabled[i]));
            i = i + 1;
        }
        r
    }
}

} // verus!
