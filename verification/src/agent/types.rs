use vstd::prelude::*;
use crate::agent::message::{now_millis, AgentMessage};
use crate::world::position::{random_below, Position};
use std::collections::VecDeque;

verus! {

/// Identity of an agent: the 128 bits of a random (version 4) UUID.
#[derive(Debug, Clone, Copy, PartialEq, Eq, Structural, Hash)]
pub struct AgentId(pub u128);

/// The lowercase hexadecimal digit for `n` in `0..16`.
pub open spec fn hex_digit(n: int) -> char {
    if n < 10 {
        (48 + n) as char
    } else {
        (87 + n) as char
    }
}

/// The `d`-th of the 32 hexadecimal digits of `bits`, most significant first.
pub open spec fn uuid_nibble(bits: u128, d: int) -> int {
    ((bits >> ((124 - 4 * d) as u128)) & 15u128) as int
}

/// Which of the 32 digits stands at character `k` of the hyphenated form.
pub open spec fn uuid_digit_at(k: int) -> int {
    if k < 8 {
        k
    } else if k < 13 {
        k - 1
    } else if k < 18 {
        k - 2
    } else if k < 23 {
        k - 3
    } else {
        k - 4
    }
}

/// The hyphenated lowercase text of a UUID, 8-4-4-4-12 digits, such as
/// `67e55044-10b1-426f-9247-bb680e5fe0c8`.
pub open spec fn uuid_text(bits: u128) -> Seq<char> {
    Seq::new(
        36,
        |k: int|
            if k == 8 || k == 13 || k == 18 || k == 23 {
                '-'
            } else {
                hex_digit(uuid_nibble(bits, uuid_digit_at(k)))
            },
    )
}

/// The short form of an identity shown to users: its first eight hex digits.
pub open spec fn short_id_text(bits: u128) -> Seq<char> {
    uuid_text(bits).take(8)
}

/// The 32 digits of a version 4 UUID of the RFC 4122 variant: digit 12 (the
/// version) is 4 and digit 16 starts with the bits `10`, so it is 8, 9, a or b.
pub open spec fn is_random_uuid(bits: u128) -> bool {
    &&& uuid_nibble(bits, 12) == 4
    &&& 8 <= uuid_nibble(bits, 16) < 12
}

/// The bits of a fresh random UUID from `uuid::Uuid::new_v4`, which draws 128
/// random bits and then sets the version to 4 and the variant to RFC 4122; of
/// the other bits nothing is promised.
#[verifier::external_body]
fn fresh_uuid_bits() -> (bits: u128)
    ensures
        is_random_uuid(bits),
{
    uuid::Uuid::new_v4().as_u128()
}

/// `uuid::Uuid`'s `Display`: the hyphenated lowercase form of the UUID with
/// these bits (see `format_hyphenated` in the uuid crate).
#[verifier::external_body]
fn uuid_string(bits: u128) -> (s: String)
    ensures
        s@ == uuid_text(bits),
{
    uuid::Uuid::from_u128(bits).to_string()
}

proof fn lemma_uuid_text_ascii(bits: u128)
    ensures
        vstd::utf8::is_ascii_chars(uuid_text(bits)),
{
    assert forall|d: int| 0 <= #[trigger] uuid_nibble(bits, d) < 16 by {
        let sh = (124 - 4 * d) as u128;
        assert((bits >> sh) & 15u128 < 16u128) by (bit_vector);
    }
}

impl AgentId {
    /// A fresh random identity: a version 4 UUID, whose text has `4` at
    /// index 14 and one of `8`, `9`, `a`, `b` at index 19.
    pub fn new() -> (id: AgentId)
        ensures
            is_random_uuid(id.0),
            uuid_text(id.0)[14] == '4',
            uuid_text(id.0)[19] == '8' || uuid_text(id.0)[19] == '9' || uuid_text(id.0)[19] == 'a'
                || uuid_text(id.0)[19] == 'b',
    {
        AgentId(fresh_uuid_bits())
    }

    /// The full hyphenated UUID text of this identity.
    pub fn full_string(&self) -> (s: String)
        ensures
            s@ == uuid_text(self.0),
    {
        uuid_string(self.0)
    }

    /// The short text of this identity: the first eight characters of the UUID.
    pub fn short_string(&self) -> (s: String)
        ensures
            s@ == short_id_text(self.0),
    {
        let full = uuid_string(self.0);
        proof {
            lemma_uuid_text_ascii(self.0);
        }
        let short = full.as_str().substring_ascii(0, 8);
        String::from_str(short)
    }
}

/// What an agent is doing, as shown in the world.
#[derive(Debug, Clone, Copy, PartialEq, Eq, Structural, Hash)]
pub enum AgentState {
    Idle,
    Walking,
    Thinking,
    Working,
    Messaging,
    Eating,
    Exercising,
    Playing,
    Error,
    Offline,
}

/// The lowercase name of a state, as used by the API.
pub open spec fn state_label(s: AgentState) -> Seq<char> {
    match s {
        AgentState::Idle => "idle"@,
        AgentState::Walking => "walking"@,
        AgentState::Thinking => "thinking"@,
        AgentState::Working => "working"@,
        AgentState::Messaging => "messaging"@,
        AgentState::Eating => "eating"@,
        AgentState::Exercising => "exercising"@,
        AgentState::Playing => "playing"@,
        AgentState::Error => "error"@,
        AgentState::Offline => "offline"@,
    }
}

impl AgentState {
    pub fn label(&self) -> (l: &'static str)
        ensures
            l@ == state_label(*self),
    {
        match self {
            AgentState::Idle => "idle",
            AgentState::Walking => "walking",
            AgentState::Thinking => "thinking",
            AgentState::Working => "working",
            AgentState::Messaging => "messaging",
            AgentState::Eating => "eating",
            AgentState::Exercising => "exercising",
            AgentState::Playing => "playing",
            AgentState::Error => "error",
            AgentState::Offline => "offline",
        }
    }
}

/// How an agent is reached.
#[derive(Debug, Clone, PartialEq, Eq)]
pub enum AgentKind {
    OpenCrabs { endpoint: String },
    External { endpoint: String },
    Local,
}

/// The side an agent's sprite faces.
#[derive(Debug, Clone, Copy, PartialEq, Eq, Structural)]
pub enum Facing {
    Left,
    Right,
}

/// Animation state of an agent's sprite.
#[derive(Debug, Clone, Copy)]
pub struct AnimState {
    pub facing: Facing,
    pub frame: u8,
    pub activity_ticks: u32,
    /// How many consecutive ticks the agent has been blocked during walking.
    pub blocked_ticks: u32,
}

impl Default for AnimState {
    fn default() -> (a: AnimState)
        ensures
            a.facing == Facing::Right,
            a.frame == 0,
            a.activity_ticks == 0,
            a.blocked_ticks == 0,
    {
        AnimState { facing: Facing::Right, frame: 0, activity_ticks: 0, blocked_ticks: 0 }
    }
}

/// Where an agent is heading and why; each goal carries its target tile.
#[derive(Debug, Clone, Copy, PartialEq, Eq, Structural)]
pub enum AgentGoal {
    GoToDesk(Position),
    GoToVending(Position),
    GoToCoffee(Position),
    GoToPinball(Position),
    GoToMeeting(Position),
    GoToGym(Position),
    GoToCouch(Position),
    GoToServer(Position),
    Wander(Position),
}

/// The target tile of a goal.
pub open spec fn goal_target(g: AgentGoal) -> Position {
    match g {
        AgentGoal::GoToDesk(p) => p,
        AgentGoal::GoToVending(p) => p,
        AgentGoal::GoToCoffee(p) => p,
        AgentGoal::GoToPinball(p) => p,
        AgentGoal::GoToMeeting(p) => p,
        AgentGoal::GoToGym(p) => p,
        AgentGoal::GoToCouch(p) => p,
        AgentGoal::GoToServer(p) => p,
        AgentGoal::Wander(p) => p,
    }
}

impl AgentGoal {
    pub fn target(&self) -> (p: Position)
        ensures
            p == goal_target(*self),
    {
        match self {
            AgentGoal::GoToDesk(p)
            | AgentGoal::GoToVending(p)
            | AgentGoal::GoToCoffee(p)
            | AgentGoal::GoToPinball(p)
            | AgentGoal::GoToMeeting(p)
            | AgentGoal::GoToGym(p)
            | AgentGoal::GoToCouch(p)
            | AgentGoal::GoToServer(p)
            | AgentGoal::Wander(p) => *p,
        }
    }
}

/// An agent living in the world.
#[derive(Debug, Clone)]
pub struct Agent {
    pub id: AgentId,
    pub name: String,
    pub kind: AgentKind,
    pub state: AgentState,
    pub position: Position,
    pub color_index: u8,
    /// When the agent last changed state or spoke, in milliseconds since the Unix epoch.
    pub last_activity: i64,
    pub task_count: u32,
    pub speech: Option<String>,
    pub anim: AnimState,
    pub goal: Option<AgentGoal>,
    pub path: Vec<Position>,
    pub inbox: VecDeque<AgentMessage>,
    /// When true, the simulation won't override this agent's state.
    /// Set by API task reports; cleared when agent returns to Idle.
    pub api_locked: bool,
}

/// The resting values every fresh or restored agent starts from.
pub open spec fn fresh_agent(a: Agent) -> bool {
    &&& a.state == AgentState::Idle
    &&& a.task_count == 0
    &&& a.speech is None
    &&& a.anim.facing == Facing::Right
    &&& a.anim.frame == 0
    &&& a.anim.activity_ticks == 0
    &&& a.anim.blocked_ticks == 0
    &&& a.goal is None
    &&& a.path@.len() == 0
    &&& a.inbox@.len() == 0
    &&& !a.api_locked
}

impl Agent {
    /// A new idle agent with a fresh identity and a random shirt colour (0..8).
    pub fn new(name: &str, kind: AgentKind, position: Position) -> (a: Agent)
        ensures
            a.name@ == name@,
            a.kind == kind,
            a.position == position,
            a.color_index < 8,
            fresh_agent(a),
    {
        let color = random_below(8) as u8;
        Agent::restore(AgentId::new(), String::from_str(name), kind, position, color)
    }

    /// Sets the state and stamps the time of the change.
    pub fn set_state(&mut self, state: AgentState)
        ensures
            *final(self) == (Agent { state, last_activity: final(self).last_activity, ..*old(self) }),
    {
        self.state = state;
        self.last_activity = now_millis();
    }

    /// Restores an agent from persisted data: idle, with the given identity.
    pub fn restore(id: AgentId, name: String, kind: AgentKind, position: Position, color_index: u8) -> (a: Agent)
        ensures
            a.id == id,
            a.name == name,
            a.kind == kind,
            a.position == position,
            a.color_index == color_index,
            fresh_agent(a),
    {
        Agent {
            id,
            name,
            kind,
            state: AgentState::Idle,
            position,
            color_index,
            last_activity: now_millis(),
            task_count: 0,
            speech: None,
            anim: AnimState::default(),
            goal: None,
            path: Vec::new(),
            inbox: VecDeque::new(),
            api_locked: false,
        }
    }

    /// Shows `text` in the agent's speech bubble and stamps the time.
    pub fn say(&mut self, text: &str)
        ensures
            final(self).speech matches Some(s) && s@ == text@,
            *final(self) == (Agent { speech: final(self).speech, last_activity: final(self).last_activity, ..*old(self) }),
    {
        self.speech = Some(String::from_str(text));
        self.last_activity = now_millis();
    }

    pub fn clear_speech(&mut self)
        ensures
            *final(self) == (Agent { speech: None, ..*old(self) }),
    {
        self.speech = None;
    }
}

} // verus!
