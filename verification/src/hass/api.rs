//! The authentication handshake that opens every session with the hub.
//!
//! The hub speaks first. The client answers with its access token, and the
//! hub's verdict decides whether the session may carry traffic. The
//! handshake is a state machine: [`HassApi::on_frame`] takes each frame that
//! was read and says what to do next; reading and sending are the caller's.

use crate::hass::protocol::{decoded_view, DecodeError};
use crate::json::parse::{tree_of, MAX_DEPTH};
use crate::json::render::{is_plain, lemma_escaped_plain, lemma_rendered_pair, quoted, rendered};
use crate::json::{lemma_object_view, Json, JsonView, Member};
use crate::text::same_text;
use vstd::prelude::*;

verus! {

/// A message of the handshake.
#[derive(Debug, Clone, PartialEq, Eq)]
pub enum AuthMessage {
    /// The hub asks for authentication.
    AuthRequired { ha_version: String },
    /// The client presents its access token.
    Auth { access_token: String },
    /// The hub accepted the token.
    AuthOk { ha_version: String },
    /// The hub refused the token.
    AuthInvalid { message: String },
}

/// Mathematical model of an [`AuthMessage`].
pub enum AuthView {
    AuthRequired { ha_version: Seq<char> },
    Auth { access_token: Seq<char> },
    AuthOk { ha_version: Seq<char> },
    AuthInvalid { message: Seq<char> },
}

impl View for AuthMessage {
    type V = AuthView;

    open spec fn view(&self) -> AuthView {
        match self {
            AuthMessage::AuthRequired { ha_version } => AuthView::AuthRequired {
                ha_version: ha_version@,
            },
            AuthMessage::Auth { access_token } => AuthView::Auth { access_token: access_token@ },
            AuthMessage::AuthOk { ha_version } => AuthView::AuthOk { ha_version: ha_version@ },
            AuthMessage::AuthInvalid { message } => AuthView::AuthInvalid { message: message@ },
        }
    }
}

impl AuthView {
    /// The `type` that names the message on the wire.
    pub open spec fn tag(self) -> Seq<char> {
        match self {
            AuthView::AuthRequired { .. } => "auth_required"@,
            AuthView::Auth { .. } => "auth"@,
            AuthView::AuthOk { .. } => "auth_ok"@,
            AuthView::AuthInvalid { .. } => "auth_invalid"@,
        }
    }

    /// The name of the one field of the message.
    pub open spec fn field(self) -> Seq<char> {
        match self {
            AuthView::AuthRequired { .. } => "ha_version"@,
            AuthView::Auth { .. } => "access_token"@,
            AuthView::AuthOk { .. } => "ha_version"@,
            AuthView::AuthInvalid { .. } => "message"@,
        }
    }

    /// What the one field of the message holds.
    pub open spec fn value(self) -> Seq<char> {
        match self {
            AuthView::AuthRequired { ha_version } => ha_version,
            AuthView::Auth { access_token } => access_token,
            AuthView::AuthOk { ha_version } => ha_version,
            AuthView::AuthInvalid { message } => message,
        }
    }
}

/// The JSON object of a handshake message: its `type`, then its field.
pub open spec fn auth_json(message: AuthView) -> JsonView {
    JsonView::Object(
        seq![
            ("type"@, JsonView::Str(message.tag())),
            (message.field(), JsonView::Str(message.value())),
        ],
    )
}

/// The string member `key` of a JSON value, malformed where there is none.
pub open spec fn string_member(j: JsonView, key: Seq<char>) -> Result<Seq<char>, DecodeError> {
    match j.member(key) {
        Some(JsonView::Str(s)) => Ok(s),
        _ => Err(DecodeError::Malformed),
    }
}

/// The handshake message that a JSON value stands for.
///
/// The value is malformed unless it has a string `type` and, as a string,
/// the field of the message that the `type` names. A `type` that names no
/// handshake message is unsupported.
pub open spec fn auth_of_json(j: JsonView) -> Result<AuthView, DecodeError> {
    match string_member(j, "type"@) {
        Err(error) => Err(error),
        Ok(kind) => {
            if kind == "auth_required"@ {
                match string_member(j, "ha_version"@) {
                    Ok(ha_version) => Ok(AuthView::AuthRequired { ha_version }),
                    Err(error) => Err(error),
                }
            } else if kind == "auth"@ {
                match string_member(j, "access_token"@) {
                    Ok(access_token) => Ok(AuthView::Auth { access_token }),
                    Err(error) => Err(error),
                }
            } else if kind == "auth_ok"@ {
                match string_member(j, "ha_version"@) {
                    Ok(ha_version) => Ok(AuthView::AuthOk { ha_version }),
                    Err(error) => Err(error),
                }
            } else if kind == "auth_invalid"@ {
                match string_member(j, "message"@) {
                    Ok(message) => Ok(AuthView::AuthInvalid { message }),
                    Err(error) => Err(error),
                }
            } else {
                Err(DecodeError::Unsupported)
            }
        },
    }
}

/// The handshake message that a text frame stands for: malformed where the
/// text is no JSON, else what its JSON value stands for.
pub open spec fn auth_of_text(text: Seq<char>) -> Result<AuthView, DecodeError> {
    match tree_of(text, MAX_DEPTH as nat) {
        None => Err(DecodeError::Malformed),
        Some(j) => auth_of_json(j),
    }
}

/// Reads the string member `key` of a JSON value.
fn read_string(j: &Json, key: &str) -> (r: Result<String, DecodeError>)
    ensures
        decoded_view(r) == string_member(j@, key@),
{
    match j.get(key) {
        Some(Json::Str(s)) => Ok(s.clone()),
        _ => Err(DecodeError::Malformed),
    }
}

/// An object of two string members.
fn tagged_object(tag: &str, field: &str, value: &str) -> (j: Json)
    ensures
        j@ == JsonView::Object(
            seq![("type"@, JsonView::Str(tag@)), (field@, JsonView::Str(value@))],
        ),
{
    let mut members: Vec<Member> = Vec::new();
    members.push(Member { key: String::from_str("type"), value: Json::Str(String::from_str(tag)) });
    members.push(Member { key: String::from_str(field), value: Json::Str(String::from_str(value)) });
    proof {
        lemma_object_view(members);
        assert(Json::Object(members)@->Object_0 =~= seq![
            ("type"@, JsonView::Str(tag@)),
            (field@, JsonView::Str(value@)),
        ]);
    }
    Json::Object(members)
}

impl AuthMessage {
    /// The JSON object of the message.
    pub fn to_json(&self) -> (j: Json)
        ensures
            j@ == auth_json(self@),
    {
        match self {
            AuthMessage::AuthRequired { ha_version } => tagged_object(
                "auth_required",
                "ha_version",
                ha_version.as_str(),
            ),
            AuthMessage::Auth { access_token } => tagged_object(
                "auth",
                "access_token",
                access_token.as_str(),
            ),
            AuthMessage::AuthOk { ha_version } => tagged_object(
                "auth_ok",
                "ha_version",
                ha_version.as_str(),
            ),
            AuthMessage::AuthInvalid { message } => tagged_object(
                "auth_invalid",
                "message",
                message.as_str(),
            ),
        }
    }

    /// The text frame of the message.
    pub fn encode(&self) -> (frame: String)
        ensures
            frame@ == rendered(auth_json(self@)),
    {
        self.to_json().render()
    }

    /// Reads a handshake message from a JSON value.
    pub fn from_json(j: &Json) -> (r: Result<AuthMessage, DecodeError>)
        ensures
            decoded_view(r) == auth_of_json(j@),
    {
        let kind = match read_string(j, "type") {
            Ok(k) => k,
            Err(error) => {
                return Err(error);
            },
        };
        if same_text(kind.as_str(), "auth_required") {
            match read_string(j, "ha_version") {
                Ok(ha_version) => Ok(AuthMessage::AuthRequired { ha_version }),
                Err(error) => Err(error),
            }
        } else if same_text(kind.as_str(), "auth") {
            match read_string(j, "access_token") {
                Ok(access_token) => Ok(AuthMessage::Auth { access_token }),
                Err(error) => Err(error),
            }
        } else if same_text(kind.as_str(), "auth_ok") {
            match read_string(j, "ha_version") {
                Ok(ha_version) => Ok(AuthMessage::AuthOk { ha_version }),
                Err(error) => Err(error),
            }
        } else if same_text(kind.as_str(), "auth_invalid") {
            match read_string(j, "message") {
                Ok(message) => Ok(AuthMessage::AuthInvalid { message }),
                Err(error) => Err(error),
            }
        } else {
            Err(DecodeError::Unsupported)
        }
    }

    /// Reads a handshake message from a text frame.
    pub fn decode(frame: &str) -> (r: Result<AuthMessage, DecodeError>)
        ensures
            decoded_view(r) == auth_of_text(frame@),
    {
        match Json::parse(frame) {
            None => Err(DecodeError::Malformed),
            Some(j) => AuthMessage::from_json(&j),
        }
    }
}

/// The names that the handshake uses on the wire differ from one another
/// where it matters.
pub proof fn lemma_auth_names_differ()
    ensures
        "type"@ != "ha_version"@,
        "type"@ != "access_token"@,
        "type"@ != "message"@,
        "auth_required"@ != "auth"@,
        "auth_required"@ != "auth_ok"@,
        "auth_required"@ != "auth_invalid"@,
        "auth"@ != "auth_ok"@,
        "auth"@ != "auth_invalid"@,
        "auth_ok"@ != "auth_invalid"@,
{
    reveal_strlit("type");
    reveal_strlit("ha_version");
    reveal_strlit("access_token");
    reveal_strlit("message");
    reveal_strlit("auth_required");
    reveal_strlit("auth");
    reveal_strlit("auth_ok");
    reveal_strlit("auth_invalid");
    assert("type"@.len() == 4);
    assert("ha_version"@.len() == 10);
    assert("access_token"@.len() == 12);
    assert("message"@.len() == 7);
    assert("auth_required"@.len() == 13);
    assert("auth"@.len() == 4);
    assert("auth_ok"@.len() == 7);
    assert("auth_invalid"@.len() == 12);
}

/// Encoding a handshake message and decoding the result gives the message
/// back: what `to_json` writes, `from_json` reads as the same message.
pub proof fn lemma_auth_round_trip(message: AuthView)
    ensures
        auth_of_json(auth_json(message)) == Ok::<AuthView, DecodeError>(message),
{
    lemma_auth_names_differ();
    let j = auth_json(message);
    let members = j->Object_0;
    reveal_with_fuel(crate::json::lookup, 3);
    assert(members[0] == ("type"@, JsonView::Str(message.tag())));
    assert(members.skip(1)[0] == (message.field(), JsonView::Str(message.value())));
    assert(j.member("type"@) == Some(JsonView::Str(message.tag())));
    assert(j.member(message.field()) == Some(JsonView::Str(message.value())));
}

/// Where a handshake stands.
#[derive(Debug, Clone, Copy, PartialEq, Eq, Structural)]
pub enum Phase {
    /// Nothing was read yet: the hub's request for authentication is due.
    AwaitingChallenge,
    /// The token was sent: the hub's verdict is due.
    AwaitingVerdict,
    /// The hub accepted the token: the session may carry traffic.
    Ready,
    /// The handshake ended without acceptance: the session carries nothing.
    Closed,
}

/// Why a handshake failed.
#[derive(Debug, Clone, PartialEq, Eq)]
pub enum HandshakeError {
    /// No access token is configured.
    ConfigMissing,
    /// The hub refused the token, with this message.
    AuthRejected(String),
}

/// What the caller of the handshake does next.
#[derive(Debug, Clone, PartialEq, Eq)]
pub enum Step {
    /// Send `frame`, then read the next frame. `expected` is false where
    /// the hub's opening frame was not the request for authentication that
    /// it should have been, which is worth a warning.
    Send { frame: String, expected: bool },
    /// The session is open: start carrying traffic.
    Admit,
    /// The session failed: end it.
    Fail(HandshakeError),
    /// The hub answered the token with something other than a verdict; the
    /// session does not become ready.
    Stall,
    /// The handshake was over before this frame; it changes nothing.
    Idle,
}

/// Mathematical model of a [`Step`].
pub enum StepView {
    Send { frame: Seq<char>, expected: bool },
    Admit,
    FailConfigMissing,
    FailAuthRejected(Seq<char>),
    Stall,
    Idle,
}

impl View for Step {
    type V = StepView;

    open spec fn view(&self) -> StepView {
        match self {
            Step::Send { frame, expected } => StepView::Send { frame: frame@, expected: *expected },
            Step::Admit => StepView::Admit,
            Step::Fail(HandshakeError::ConfigMissing) => StepView::FailConfigMissing,
            Step::Fail(HandshakeError::AuthRejected(message)) => StepView::FailAuthRejected(
                message@,
            ),
            Step::Stall => StepView::Stall,
            Step::Idle => StepView::Idle,
        }
    }
}

/// The frame that presents `token` to the hub.
pub open spec fn auth_frame(token: Seq<char>) -> Seq<char> {
    rendered(auth_json(AuthView::Auth { access_token: token }))
}

/// The frame that presents a token, character for character: the type
/// `auth`, then the token as a JSON string.
pub proof fn lemma_auth_frame(token: Seq<char>)
    ensures
        auth_frame(token) == "{"@ + "\"type\""@ + ":"@ + "\"auth\""@ + ","@ + "\"access_token\""@
            + ":"@ + quoted(token) + "}"@,
{
    reveal_strlit("type");
    reveal_strlit("auth");
    reveal_strlit("access_token");
    reveal_strlit("\"type\"");
    reveal_strlit("\"auth\"");
    reveal_strlit("\"access_token\"");
    assert(forall|i: int| 0 <= i < "type"@.len() ==> is_plain(#[trigger] "type"@[i]));
    assert(forall|i: int| 0 <= i < "auth"@.len() ==> is_plain(#[trigger] "auth"@[i]));
    assert(forall|i: int|
        0 <= i < "access_token"@.len() ==> is_plain(#[trigger] "access_token"@[i]));
    lemma_escaped_plain("type"@);
    lemma_escaped_plain("auth"@);
    lemma_escaped_plain("access_token"@);
    assert(quoted("type"@) =~= "\"type\""@);
    assert(quoted("auth"@) =~= "\"auth\""@);
    assert(quoted("access_token"@) =~= "\"access_token\""@);
    lemma_rendered_pair(
        ("type"@, JsonView::Str("auth"@)),
        ("access_token"@, JsonView::Str(token)),
    );
}

/// One step of the handshake: the phase after a frame was read in `phase`,
/// and what to do.
///
/// Whatever the opening frame holds, the answer is the access token, or a
/// failure where none is configured. The frame after that decides:
/// acceptance opens the session, refusal fails it with the hub's message,
/// and anything else leaves it closed. Later frames are not the
/// handshake's.
pub open spec fn handshake_step(
    phase: Phase,
    message: Result<AuthView, DecodeError>,
    token: Option<Seq<char>>,
) -> (Phase, StepView) {
    match phase {
        Phase::AwaitingChallenge => match token {
            None => (Phase::Closed, StepView::FailConfigMissing),
            Some(t) => (
                Phase::AwaitingVerdict,
                StepView::Send {
                    frame: auth_frame(t),
                    expected: message matches Ok(AuthView::AuthRequired { .. }),
                },
            ),
        },
        Phase::AwaitingVerdict => match message {
            Ok(AuthView::AuthOk { .. }) => (Phase::Ready, StepView::Admit),
            Ok(AuthView::AuthInvalid { message }) => (
                Phase::Closed,
                StepView::FailAuthRejected(message),
            ),
            _ => (Phase::Closed, StepView::Stall),
        },
        Phase::Ready => (Phase::Ready, StepView::Idle),
        Phase::Closed => (Phase::Closed, StepView::Idle),
    }
}

/// View of an optional token.
pub open spec fn token_view(token: Option<&str>) -> Option<Seq<char>> {
    match token {
        Some(t) => Some(t@),
        None => None,
    }
}

/// The client's side of the hub's handshake.
#[derive(Debug, PartialEq, Eq)]
pub struct HassApi {
    pub phase: Phase,
}

impl Default for HassApi {
    fn default() -> (api: HassApi)
        ensures
            api.phase == Phase::AwaitingChallenge,
    {
        HassApi { phase: Phase::AwaitingChallenge }
    }
}

impl HassApi {
    /// A handshake that has read nothing yet.
    pub fn new() -> (api: HassApi)
        ensures
            api.phase == Phase::AwaitingChallenge,
    {
        HassApi { phase: Phase::AwaitingChallenge }
    }

    /// Whether the session may carry traffic.
    pub fn is_ready(&self) -> (ready: bool)
        ensures
            ready == (self.phase == Phase::Ready),
    {
        match self.phase {
            Phase::Ready => true,
            _ => false,
        }
    }

    /// Takes the handshake one step on, with the message that was read,
    /// decoded or not, and the access token if one is configured.
    pub fn advance(&mut self, message: Result<AuthMessage, DecodeError>, token: Option<&str>) -> (step:
        Step)
        ensures
            (final(self).phase, step@) == handshake_step(
                old(self).phase,
                decoded_view(message),
                token_view(token),
            ),
    {
        match self.phase {
            Phase::AwaitingChallenge => match token {
                None => {
                    self.phase = Phase::Closed;
                    Step::Fail(HandshakeError::ConfigMissing)
                },
                Some(t) => {
                    let expected = match message {
                        Ok(AuthMessage::AuthRequired { .. }) => true,
                        _ => false,
                    };
                    let auth = AuthMessage::Auth { access_token: String::from_str(t) };
                    self.phase = Phase::AwaitingVerdict;
                    Step::Send { frame: auth.encode(), expected }
                },
            },
            Phase::AwaitingVerdict => match message {
                Ok(AuthMessage::AuthOk { .. }) => {
                    self.phase = Phase::Ready;
                    Step::Admit
                },
                Ok(AuthMessage::AuthInvalid { message }) => {
                    self.phase = Phase::Closed;
                    Step::Fail(HandshakeError::AuthRejected(message))
                },
                _ => {
                    self.phase = Phase::Closed;
                    Step::Stall
                },
            },
            Phase::Ready => Step::Idle,
            Phase::Closed => Step::Idle,
        }
    }

    /// Takes the handshake one step on, with the frame that was read and the
    /// access token if one is configured.
    pub fn on_frame(&mut self, frame: &str, token: Option<&str>) -> (step: Step)
        ensures
            (final(self).phase, step@) == handshake_step(
                old(self).phase,
                auth_of_text(frame@),
                token_view(token),
            ),
    {
        let message = AuthMessage::decode(frame);
        self.advance(message, token)
    }
}

/// The phase after a run of frames, each with the token configured when it
/// was read.
pub open spec fn phase_after(
    phase: Phase,
    frames: Seq<(Result<AuthView, DecodeError>, Option<Seq<char>>)>,
) -> Phase
    decreases frames.len(),
{
    if frames.len() == 0 {
        phase
    } else {
        handshake_step(phase_after(phase, frames.drop_last()), frames.last().0, frames.last().1).0
    }
}

/// A session is ready only after the hub's acceptance: a step ends in
/// `Ready` only from `Ready`, or on the message `auth_ok` while the verdict
/// was due.
pub proof fn lemma_ready_needs_acceptance(
    phase: Phase,
    message: Result<AuthView, DecodeError>,
    token: Option<Seq<char>>,
)
    ensures
        handshake_step(phase, message, token).0 == Phase::Ready ==> phase == Phase::Ready || (phase
            == Phase::AwaitingVerdict && message matches Ok(AuthView::AuthOk { .. })),
{
}

/// No run of frames that lacks the hub's acceptance makes a new session
/// ready.
pub proof fn lemma_no_traffic_before_acceptance(
    frames: Seq<(Result<AuthView, DecodeError>, Option<Seq<char>>)>,
)
    requires
        forall|i: int| 0 <= i < frames.len() ==> !((#[trigger] frames[i]).0 matches Ok(
            AuthView::AuthOk { .. },
        )),
    ensures
        phase_after(Phase::AwaitingChallenge, frames) != Phase::Ready,
    decreases frames.len(),
{
    if frames.len() > 0 {
        let earlier = frames.drop_last();
        assert forall|i: int| 0 <= i < earlier.len() implies !((#[trigger] earlier[i]).0 matches Ok(
            AuthView::AuthOk { .. },
        )) by {
            assert(earlier[i] == frames[i]);
        }
        lemma_no_traffic_before_acceptance(earlier);
        assert(frames.last() == frames[frames.len() - 1]);
    }
}

/// A closed session stays closed and sends nothing more, whatever is read.
pub proof fn lemma_closed_is_final(
    message: Result<AuthView, DecodeError>,
    token: Option<Seq<char>>,
)
    ensures
        handshake_step(Phase::Closed, message, token) == (Phase::Closed, StepView::Idle),
{
}

} // verus!
