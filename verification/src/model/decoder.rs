use vstd::prelude::*;
use vstd::std_specs::convert::FromSpecImpl;

verus! {

/// The loudest volume.
pub const MAX_VOLUME: u8 = 100;

/// The slowest speed, in percent (x0.25).
pub const MIN_SPEED: u16 = 25;

/// The fastest speed, in percent (x4).
pub const MAX_SPEED: u16 = 400;

/// The playback volume, from 0 to 100.
#[derive(Clone, Copy, Debug)]
pub struct Volume(u8);

impl Volume {
    /// The level, from 0 to 100.
    pub closed spec fn level(&self) -> u8 {
        self.0
    }

    /// The level is at most 100.
    pub closed spec fn wf(&self) -> bool {
        self.0 <= MAX_VOLUME
    }

    /// The volume `x`, capped at 100.
    pub closed spec fn capped(x: u8) -> Volume {
        Volume(if x < MAX_VOLUME { x } else { MAX_VOLUME })
    }

    /// The level, from 0 to 100.
    pub fn get(&self) -> (r: u8)
        ensures
            r == self.level(),
    {
        self.0
    }

    /// The volume once changed by `delta`, saturating at 0 and 255 before the cap
    /// of 100 applies.
    pub fn changed_by(self, delta: i8) -> (r: Volume)
        ensures
            r == Volume::capped(
                if delta < 0 {
                    if self.level() + delta < 0 { 0u8 } else { (self.level() + delta) as u8 }
                } else {
                    if self.level() + delta > 255 { 255u8 } else { (self.level() + delta) as u8 }
                },
            ),
            r.wf(),
            r.level() == (if self.level() + delta < 0 {
                0
            } else if self.level() + delta > MAX_VOLUME {
                MAX_VOLUME as int
            } else {
                self.level() + delta
            }),
    {
        let v = self.0;
        let changed: u8 = if delta < 0 {
            let d: u8 = if delta == -128 { 128 } else { (-delta) as u8 };
            v.saturating_sub(d)
        } else {
            v.saturating_add(delta as u8)
        };
        Volume::from(changed)
    }
}

impl From<u8> for Volume {
    /// The volume `x`, capped at 100.
    fn from(x: u8) -> (r: Self) {
        Volume(if x < MAX_VOLUME { x } else { MAX_VOLUME })
    }
}

impl FromSpecImpl<u8> for Volume {
    open spec fn obeys_from_spec() -> bool {
        true
    }

    open spec fn from_spec(v: u8) -> Self {
        Volume::capped(v)
    }
}

impl From<Volume> for u8 {
    /// The level of the volume.
    fn from(v: Volume) -> (r: Self) {
        v.0
    }
}

impl FromSpecImpl<Volume> for u8 {
    open spec fn obeys_from_spec() -> bool {
        true
    }

    open spec fn from_spec(v: Volume) -> Self {
        v.level()
    }
}

impl Default for Volume {
    /// Half the loudest volume.
    fn default() -> (r: Self)
        ensures
            r.level() == 50,
            r.wf(),
    {
        Volume(MAX_VOLUME / 2)
    }
}

/// The playback speed in percent, from 25 to 400.
#[derive(Clone, Copy, Debug)]
pub struct Speed(u16);

impl Speed {
    /// The speed in percent.
    pub closed spec fn percent(&self) -> u16 {
        self.0
    }

    /// The speed is between 25 and 400.
    pub closed spec fn wf(&self) -> bool {
        MIN_SPEED <= self.0 <= MAX_SPEED
    }

    /// The speed `x` clamped between 25 and 400.
    pub closed spec fn clamped(x: u16) -> Speed {
        Speed(
            if x < MIN_SPEED {
                MIN_SPEED
            } else if x > MAX_SPEED {
                MAX_SPEED
            } else {
                x
            },
        )
    }

    /// The speed in percent.
    pub fn get(&self) -> (r: u16)
        ensures
            r == self.percent(),
    {
        self.0
    }

    /// The speed once changed by `delta` percentage points, clamped between 25 and
    /// 400.
    pub fn changed_by(self, delta: i16) -> (r: Speed)
        ensures
            r.wf(),
            r.percent() == (if self.percent() + delta < MIN_SPEED {
                MIN_SPEED as int
            } else if self.percent() + delta > MAX_SPEED {
                MAX_SPEED as int
            } else {
                self.percent() + delta
            }),
    {
        let t: i32 = self.0 as i32 + delta as i32;
        if t < MIN_SPEED as i32 {
            Speed(MIN_SPEED)
        } else if t > MAX_SPEED as i32 {
            Speed(MAX_SPEED)
        } else {
            Speed(t as u16)
        }
    }

    /// Whether two speeds are the same.
    pub fn same_as(&self, other: &Speed) -> (r: bool)
        ensures
            r == (self.percent() == other.percent()),
    {
        self.0 == other.0
    }
}

impl From<u16> for Speed {
    /// The speed `x` clamped between 25 and 400.
    fn from(x: u16) -> (r: Self) {
        Speed(
            if x < MIN_SPEED {
                MIN_SPEED
            } else if x > MAX_SPEED {
                MAX_SPEED
            } else {
                x
            },
        )
    }
}

impl FromSpecImpl<u16> for Speed {
    open spec fn obeys_from_spec() -> bool {
        true
    }

    open spec fn from_spec(v: u16) -> Self {
        Speed::clamped(v)
    }
}

impl From<Speed> for u16 {
    /// The speed in percent.
    fn from(s: Speed) -> (r: Self) {
        s.0
    }
}

impl FromSpecImpl<Speed> for u16 {
    open spec fn obeys_from_spec() -> bool {
        true
    }

    open spec fn from_spec(v: Speed) -> Self {
        v.percent()
    }
}

impl Default for Speed {
    /// The normal speed, 100%.
    fn default() -> (r: Self)
        ensures
            r.percent() == 100,
            r.wf(),
    {
        Speed(100)
    }
}

/// A jump in the song, by whole seconds.
#[derive(Debug, Clone, Copy, PartialEq, Eq, Structural)]
pub enum Seek {
    Forwards(u64),
    Backwards(u64),
}

impl Seek {
    /// The jump that `secs` asks for: forwards when it is positive, backwards by its
    /// magnitude otherwise.
    pub fn from_secs(secs: i64) -> (r: Seek)
        ensures
            secs > 0 ==> r == Seek::Forwards(secs as u64),
            secs <= 0 ==> r == Seek::Backwards((-secs) as u64),
    {
        if secs > 0 {
            Seek::Forwards(secs as u64)
        } else if secs == i64::MIN {
            Seek::Backwards(9223372036854775808u64)
        } else {
            Seek::Backwards((-secs) as u64)
        }
    }

    /// Where, in seconds, this jump lands from `elapsed` in a song of `duration`
    /// seconds (unknown: no end): forwards no further than the end, backwards no
    /// further than the start.
    pub fn target(&self, elapsed: u64, duration: Option<u64>) -> (r: u64)
        ensures
            r == seek_target(*self, elapsed, duration),
    {
        match self {
            Seek::Forwards(secs) => {
                let t = elapsed.saturating_add(*secs);
                let end = match duration {
                    Some(d) => d,
                    None => u64::MAX,
                };
                if t < end {
                    t
                } else {
                    end
                }
            },
            Seek::Backwards(secs) => elapsed.saturating_sub(*secs),
        }
    }
}

/// Where a jump lands from `elapsed` in a song of `duration` seconds.
pub open spec fn seek_target(s: Seek, elapsed: u64, duration: Option<u64>) -> u64 {
    match s {
        Seek::Forwards(secs) => {
            let t = if elapsed + secs > u64::MAX { u64::MAX } else { (elapsed + secs) as u64 };
            let end = match duration {
                Some(d) => d,
                None => u64::MAX,
            };
            if t < end { t } else { end }
        },
        Seek::Backwards(secs) => if elapsed < secs { 0 } else { (elapsed - secs) as u64 },
    }
}


/// Whatever level it is made from, a volume is at most 100: a level of 100 or
/// less is kept as it is, and a greater one becomes 100.
pub proof fn lemma_volume_capped(x: u8)
    ensures
        Volume::capped(x).wf(),
        Volume::capped(x).level() <= MAX_VOLUME,
        x <= MAX_VOLUME ==> Volume::capped(x).level() == x,
        x > MAX_VOLUME ==> Volume::capped(x).level() == MAX_VOLUME,
{
}

/// Whatever percentage it is made from, a speed is between 25 and 400: one in
/// that range is kept as it is, one below becomes 25 and one above becomes 400.
pub proof fn lemma_speed_clamped(x: u16)
    ensures
        Speed::clamped(x).wf(),
        MIN_SPEED <= Speed::clamped(x).percent() <= MAX_SPEED,
        MIN_SPEED <= x <= MAX_SPEED ==> Speed::clamped(x).percent() == x,
        x < MIN_SPEED ==> Speed::clamped(x).percent() == MIN_SPEED,
        x > MAX_SPEED ==> Speed::clamped(x).percent() == MAX_SPEED,
{
}

/// A jump forwards lands no further than the end of the song, and a jump
/// backwards no earlier than its start and no later than where it left.
pub proof fn lemma_seek_within_song(s: Seek, elapsed: u64, duration: Option<u64>)
    ensures
        s is Forwards ==> (duration matches Some(d) ==> seek_target(s, elapsed, duration) <= d),
        s is Backwards ==> seek_target(s, elapsed, duration) <= elapsed,
{
}

/// How far a song has played, and how long it is, in seconds.
#[derive(Clone, Copy, Debug, PartialEq, Eq, Structural)]
pub struct PlaybackTimer {
    pub elapsed: u64,
    pub duration: u64,
}

/// Whether the decoder works through packets or waits for requests.
#[derive(Clone, Copy, Debug, PartialEq, Eq, Structural)]
pub enum DecoderState {
    /// Waiting: a request is awaited before anything else.
    Idle,
    /// Decoding: requests are only looked at between packets.
    Active,
}

impl Default for DecoderState {
    fn default() -> (r: Self)
        ensures
            r == DecoderState::Idle,
    {
        DecoderState::Idle
    }
}

/// A request to the decoder, without what it carries to answer.
#[derive(Debug, Clone, PartialEq, Eq, Structural)]
pub enum RequestKind {
    Disable,
    Enable,
    Pause,
    Resume,
    Seek,
    Stop,
    Timer,
}

/// The state of the decoder once it has handled a request, and whether it stops.
pub open spec fn after_request(state: DecoderState, req: RequestKind) -> (DecoderState, bool) {
    match req {
        RequestKind::Pause => (DecoderState::Idle, false),
        RequestKind::Resume => (DecoderState::Active, false),
        RequestKind::Stop => (state, true),
        _ => (state, false),
    }
}

impl DecoderState {
    /// Whether the decoder waits for the next request rather than only looking
    /// whether one came.
    pub fn waits(&self) -> (r: bool)
        ensures
            r == (*self == DecoderState::Idle),
    {
        match self {
            DecoderState::Idle => true,
            DecoderState::Active => false,
        }
    }

    /// The state after the request `req`, and whether the decoder stops.
    pub fn after(self, req: RequestKind) -> (r: (DecoderState, bool))
        ensures
            r == after_request(self, req),
    {
        match req {
            RequestKind::Pause => (DecoderState::Idle, false),
            RequestKind::Resume => (DecoderState::Active, false),
            RequestKind::Stop => (self, true),
            _ => (self, false),
        }
    }
}

/// What came of reading and decoding the next packet of a song.
#[derive(Debug, Clone, Copy, PartialEq, Eq, Structural)]
pub enum PacketOutcome {
    /// A packet of the song's track was decoded.
    Decoded,
    /// The packet belongs to another track.
    OtherTrack,
    /// Decoding failed in a way to carry on from (a reset asked for, a bad packet,
    /// a read error).
    DecodeSkipped,
    /// Decoding failed for good.
    DecodeFailed,
    /// The reader asks for the decoder to be reset.
    ResetRequired,
    /// The song has been read to its end.
    EndOfStream,
    /// Reading failed for good.
    ReadFailed,
}

/// What the decoder does after a packet.
#[derive(Debug, Clone, Copy, PartialEq, Eq, Structural)]
pub enum DecoderStep {
    /// Goes on with the next packet.
    Continue,
    /// Resets the decoder, then goes on.
    Reset,
    /// Tells the devices that the song is over, and stops.
    Finish,
    /// Stops with an error.
    Fail,
}

/// What the decoder does after each outcome of a packet.
pub open spec fn step_after(o: PacketOutcome) -> DecoderStep {
    match o {
        PacketOutcome::Decoded | PacketOutcome::OtherTrack | PacketOutcome::DecodeSkipped => DecoderStep::Continue,
        PacketOutcome::ResetRequired => DecoderStep::Reset,
        PacketOutcome::EndOfStream => DecoderStep::Finish,
        PacketOutcome::DecodeFailed | PacketOutcome::ReadFailed => DecoderStep::Fail,
    }
}

impl PacketOutcome {
    /// What the decoder does after this outcome.
    pub fn next_step(&self) -> (r: DecoderStep)
        ensures
            r == step_after(*self),
    {
        match self {
            PacketOutcome::Decoded | PacketOutcome::OtherTrack | PacketOutcome::DecodeSkipped => DecoderStep::Continue,
            PacketOutcome::ResetRequired => DecoderStep::Reset,
            PacketOutcome::EndOfStream => DecoderStep::Finish,
            PacketOutcome::DecodeFailed | PacketOutcome::ReadFailed => DecoderStep::Fail,
        }
    }
}

/// Whether a device needs a new resampler before the next packet: it has none and
/// its rate differs from the song's, or the speed changed since the last packet.
pub fn needs_resampler(has_resampler: bool, device_rate: u32, song_rate: u32, prev_speed: &Speed, speed: &Speed) -> (r: bool)
    ensures
        r == ((!has_resampler && device_rate != song_rate) || prev_speed.percent() != speed.percent()),
{
    (!has_resampler && device_rate != song_rate) || !prev_speed.same_as(speed)
}

/// The timer once a packet at `at` seconds has been played.
pub fn timer_after_packet(timer: PlaybackTimer, at: u64) -> (r: PlaybackTimer)
    ensures
        r == (PlaybackTimer { elapsed: at, duration: timer.duration }),
{
    PlaybackTimer { elapsed: at, duration: timer.duration }
}

} // verus!
