//! Stepwise authentication of a request: the sessions and the flows.

use crate::error::{Error, ErrorKind, Reason};
use crate::json::{Json, JsonValue};
use crate::keymap::KeyMap;
use crate::pdu::{copy_opt, opt_text};
use crate::protocol::{complete_user_id, user_on_server};
use crate::text::{contains, copy_all, texts};
use vstd::prelude::*;

verus! {

/// The length of the identifier of a session.
pub const SESSION_ID_LENGTH: usize = 32;

/// The stage of authenticating with a password.
pub open spec fn password_stage() -> Seq<char> {
    "m.login.password"@
}

/// The stage of authenticating with a registration token.
pub open spec fn token_stage() -> Seq<char> {
    "m.login.registration_token"@
}

/// The stage that asks for nothing.
pub open spec fn dummy_stage() -> Seq<char> {
    "m.login.dummy"@
}

/// Where a stepwise authentication stands: the flows that lead to success,
/// each a list of stages; the stages that are completed; the parameters of
/// the stages; the session; and why the last attempt was turned away.
#[derive(Debug)]
pub struct UiaaInfo {
    pub flows: Vec<Vec<String>>,
    pub completed: Vec<String>,
    pub params: JsonValue,
    pub session: Option<String>,
    pub auth_error: Option<Reason>,
}

/// The mathematical value of a `UiaaInfo`.
pub struct UiaaModel {
    pub flows: Seq<Seq<Seq<char>>>,
    pub completed: Seq<Seq<char>>,
    pub params: Json,
    pub session: Option<Seq<char>>,
    pub auth_error: Option<Reason>,
}

/// The stages of each of a list of flows.
pub open spec fn flow_texts(flows: Seq<Vec<String>>) -> Seq<Seq<Seq<char>>> {
    Seq::new(flows.len(), |i: int| texts(flows[i]@))
}

impl UiaaInfo {
    /// The mathematical value of the state.
    pub open spec fn model(&self) -> UiaaModel {
        UiaaModel {
            flows: flow_texts(self.flows@),
            completed: texts(self.completed@),
            params: self.params.model(),
            session: opt_text(self.session),
            auth_error: self.auth_error,
        }
    }

    /// A copy of the state.
    pub fn duplicate(&self) -> (r: UiaaInfo)
        ensures
            r.model() == self.model(),
    {
        let mut flows: Vec<Vec<String>> = Vec::new();
        let mut i: usize = 0;
        while i < self.flows.len()
            invariant
                i <= self.flows@.len(),
                flows@.len() == i,
                forall|j: int| 0 <= j < i ==> texts(flows@[j]@) == texts(self.flows@[j]@),
            decreases self.flows@.len() - i,
        {
            flows.push(copy_all(&self.flows[i]));
            i += 1;
        }
        assert(flow_texts(flows@) =~= flow_texts(self.flows@));
        UiaaInfo {
            flows,
            completed: copy_all(&self.completed),
            params: self.params.duplicate(),
            session: copy_opt(&self.session),
            auth_error: self.auth_error,
        }
    }
}

/// What a client sends to get one stage further.
#[derive(Debug)]
pub enum AuthData {
    /// A password for the user that `identifier` names; the identifier is
    /// absent where it is of a kind that is not understood.
    Password { identifier: Option<String>, password: String, session: Option<String> },
    /// A registration token.
    RegistrationToken { token: String, session: Option<String> },
    /// Nothing.
    Dummy { session: Option<String> },
    /// Data for a stage that is not supported.
    Other { session: Option<String> },
}

impl AuthData {
    /// The session that the data belong to, if they name one.
    pub open spec fn session_text(&self) -> Option<Seq<char>> {
        match self {
            AuthData::Password { session, .. } => opt_text(*session),
            AuthData::RegistrationToken { session, .. } => opt_text(*session),
            AuthData::Dummy { session } => opt_text(*session),
            AuthData::Other { session } => opt_text(*session),
        }
    }

    /// The session that the data belong to, if they name one.
    pub fn session(&self) -> (r: Option<&String>)
        ensures
            match r {
                Some(s) => self.session_text() == Some(s@),
                None => self.session_text().is_none(),
            },
    {
        let session = match self {
            AuthData::Password { session, .. } => session,
            AuthData::RegistrationToken { session, .. } => session,
            AuthData::Dummy { session } => session,
            AuthData::Other { session } => session,
        };
        match session {
            Some(s) => Some(s),
            None => None,
        }
    }
}

/// What checking a password against the stored hash of a user gave.
#[derive(Clone, Copy, Debug, PartialEq, Eq, Hash, Structural)]
pub enum PasswordCheck {
    /// The user has no password hash; nothing can speak against the password.
    NoHash,
    /// The password is the user's.
    Matches,
    /// The password is not the user's.
    Mismatch,
}

/// A text without the white space at its ends, as `str::trim` gives it.
pub uninterp spec fn trimmed(s: Seq<char>) -> Seq<char>;

/// Calls `str::trim`: the text without leading and trailing white space.
#[verifier::external_body]
fn trim(s: &String) -> (r: String)
    ensures
        r@ == trimmed(s@),
{
    s.trim().to_owned()
}

/// What one attempt at a stage comes to.
pub enum Attempt {
    /// The attempt cannot be made sense of; the request fails.
    Failed(Error),
    /// The attempt is turned away for the given reason.
    Rejected(Reason),
    /// The stage with the given name is completed.
    Completed(Seq<char>),
    /// The stage is not supported; nothing is completed.
    Unsupported,
}

/// What an attempt comes to. A password is for the user that the
/// identifier stands for on this server, and completes its stage unless
/// the check speaks against it. A registration token completes its stage
/// where, trimmed, it is the token of the configuration. The dummy stage is
/// completed by asking.
pub open spec fn attempt_of(
    auth: &AuthData,
    password: PasswordCheck,
    registration_token: Option<Seq<char>>,
    server_name: Seq<char>,
) -> Attempt {
    match auth {
        AuthData::Password { identifier, .. } => match identifier {
            None => Attempt::Failed(
                Error::BadRequest(ErrorKind::Unrecognized, Reason::UnknownIdentifierType),
            ),
            Some(name) => if user_on_server(name@, server_name).is_none() {
                Attempt::Failed(Error::BadRequest(ErrorKind::InvalidParam, Reason::InvalidUserId))
            } else if password == PasswordCheck::Mismatch {
                Attempt::Rejected(Reason::InvalidCredentials)
            } else {
                Attempt::Completed(password_stage())
            },
        },
        AuthData::RegistrationToken { token, .. } => if Some(trimmed(token@))
            == registration_token {
            Attempt::Completed(token_stage())
        } else {
            Attempt::Rejected(Reason::InvalidRegistrationToken)
        },
        AuthData::Dummy { .. } => Attempt::Completed(dummy_stage()),
        AuthData::Other { .. } => Attempt::Unsupported,
    }
}

/// The user that a password attempt is for, as a full user identifier, so
/// that the password can be checked against that user's hash. Nothing for
/// other attempts and for identifiers that name no user.
pub fn password_user(auth: &AuthData, server_name: &String) -> (r: Option<String>)
    ensures
        opt_text(r) == (match auth {
            AuthData::Password { identifier: Some(name), .. } => user_on_server(
                name@,
                server_name@,
            ),
            _ => None,
        }),
{
    match auth {
        AuthData::Password { identifier: Some(name), .. } => complete_user_id(name, server_name),
        _ => None,
    }
}

/// Every stage of `flow` is among `completed`.
pub open spec fn flow_done(flow: Seq<Seq<char>>, completed: Seq<Seq<char>>) -> bool {
    forall|i: int| 0 <= i < flow.len() ==> completed.contains(#[trigger] flow[i])
}

/// Some flow is done.
pub open spec fn some_flow_done(flows: Seq<Seq<Seq<char>>>, completed: Seq<Seq<char>>) -> bool {
    exists|i: int| 0 <= i < flows.len() && flow_done(#[trigger] flows[i], completed)
}

/// Whether every stage of some flow is among the completed stages.
pub fn flows_completed(flows: &Vec<Vec<String>>, completed: &Vec<String>) -> (b: bool)
    ensures
        b == some_flow_done(flow_texts(flows@), texts(completed@)),
{
    let ghost fs = flow_texts(flows@);
    let ghost cs = texts(completed@);
    let mut i: usize = 0;
    while i < flows.len()
        invariant
            i <= flows@.len(),
            fs == flow_texts(flows@),
            cs == texts(completed@),
            forall|j: int| 0 <= j < i ==> !flow_done(#[trigger] fs[j], cs),
        decreases flows@.len() - i,
    {
        let flow = &flows[i];
        let ghost f = texts(flow@);
        assert(fs[i as int] == f);
        let mut k: usize = 0;
        let mut all = true;
        while k < flow.len()
            invariant
                k <= flow@.len(),
                f == texts(flow@),
                cs == texts(completed@),
                all == (forall|j: int| 0 <= j < k ==> cs.contains(#[trigger] f[j])),
            decreases flow@.len() - k,
        {
            if !contains(completed, &flow[k]) {
                assert(f[k as int] == flow@[k as int]@);
                all = false;
            }
            k += 1;
        }
        if all {
            assert(flow_done(fs[i as int], cs));
            return true;
        }
        i += 1;
    }
    false
}

/// The state that an attempt starts from: the stored state of the session
/// that the attempt names, which must exist, or else the state that came
/// with the request; a state without a session gets the fresh one.
pub open spec fn started(
    given: UiaaModel,
    stored: Option<UiaaModel>,
    auth_session: Option<Seq<char>>,
    fresh_session: Seq<char>,
) -> Result<UiaaModel, Error> {
    let base = match auth_session {
        None => Ok(given),
        Some(_) => match stored {
            Some(i) => Ok(i),
            None => Err(Error::forbidden(Reason::NoSuchSession)),
        },
    };
    match base {
        Ok(i) => Ok(
            if i.session.is_none() {
                UiaaModel { session: Some(fresh_session), ..i }
            } else {
                i
            },
        ),
        Err(e) => Err(e),
    }
}

/// The key of a session: the user, the device and the session.
pub type SessionKey = (Seq<char>, Seq<char>, Seq<char>);

/// The sessions of stepwise authentication and the requests that they are
/// for.
pub struct Service {
    userdevicesessionid_uiaainfo: KeyMap<(String, String, String), UiaaInfo>,
    userdevicesessionid_uiaarequest: KeyMap<(String, String, String), JsonValue>,
}

impl Service {
    /// The tables are well formed.
    pub closed spec fn wf(&self) -> bool {
        self.userdevicesessionid_uiaainfo.wf() && self.userdevicesessionid_uiaarequest.wf()
    }

    /// The state of each session.
    pub closed spec fn sessions(&self) -> Map<SessionKey, UiaaModel> {
        Map::new(
            |k: SessionKey| self.userdevicesessionid_uiaainfo@.contains_key(k),
            |k: SessionKey| self.userdevicesessionid_uiaainfo@[k].model(),
        )
    }

    /// The request that each session is for.
    pub closed spec fn requests(&self) -> Map<SessionKey, Json> {
        Map::new(
            |k: SessionKey| self.userdevicesessionid_uiaarequest@.contains_key(k),
            |k: SessionKey| self.userdevicesessionid_uiaarequest@[k].model(),
        )
    }

    /// Empty tables.
    pub fn build() -> (r: Self)
        ensures
            r.wf(),
            r.sessions() == Map::<SessionKey, UiaaModel>::empty(),
            r.requests() == Map::<SessionKey, Json>::empty(),
    {
        let r = Service {
            userdevicesessionid_uiaainfo: KeyMap::new(),
            userdevicesessionid_uiaarequest: KeyMap::new(),
        };
        assert(r.sessions() =~= Map::<SessionKey, UiaaModel>::empty());
        assert(r.requests() =~= Map::<SessionKey, Json>::empty());
        r
    }

    /// Stores the state of a session, or forgets the session where `info`
    /// is absent.
    fn update_uiaa_session(
        &mut self,
        user_id: &String,
        device_id: &String,
        session: &String,
        info: Option<&UiaaInfo>,
    )
        requires
            old(self).wf(),
        ensures
            final(self).wf(),
            final(self).requests() == old(self).requests(),
            final(self).sessions() == (match info {
                Some(i) => old(self).sessions().insert((user_id@, device_id@, session@), i.model()),
                None => old(self).sessions().remove((user_id@, device_id@, session@)),
            }),
    {
        let key = (user_id.clone(), device_id.clone(), session.clone());
        match info {
            Some(i) => {
                self.userdevicesessionid_uiaainfo.insert(key, i.duplicate());
                assert(self.sessions() =~= old(self).sessions().insert(
                    (user_id@, device_id@, session@),
                    i.model(),
                ));
            },
            None => {
                let _gone = self.userdevicesessionid_uiaainfo.remove(&key);
                assert(self.sessions() =~= old(self).sessions().remove(
                    (user_id@, device_id@, session@),
                ));
            },
        }
        assert(self.requests() =~= old(self).requests());
    }

    /// Opens a session: stores the request that the authentication is for
    /// and the state that it starts in. The state names its session.
    pub fn create(
        &mut self,
        user_id: &String,
        device_id: &String,
        uiaainfo: &UiaaInfo,
        json_body: &JsonValue,
    ) -> (r: Result<(), Error>)
        requires
            old(self).wf(),
            uiaainfo.session.is_some(),
        ensures
            final(self).wf(),
            r.is_ok(),
            final(self).requests() == old(self).requests().insert(
                (user_id@, device_id@, uiaainfo.session.unwrap()@),
                json_body.model(),
            ),
            final(self).sessions() == old(self).sessions().insert(
                (user_id@, device_id@, uiaainfo.session.unwrap()@),
                uiaainfo.model(),
            ),
    {
        let session = uiaainfo.session.as_ref().unwrap().clone();
        let key = (user_id.clone(), device_id.clone(), session.clone());
        self.userdevicesessionid_uiaarequest.insert(key, json_body.duplicate());
        assert(self.requests() =~= old(self).requests().insert(
            (user_id@, device_id@, session@),
            json_body.model(),
        ));
        assert(self.sessions() =~= old(self).sessions());
        self.update_uiaa_session(user_id, device_id, &session, Some(uiaainfo));
        Ok(())
    }

    /// The request that a session is for, if the session has one.
    pub fn get_uiaa_request(&self, user_id: &String, device_id: &String, session: &String) -> (r:
        Option<JsonValue>)
        requires
            self.wf(),
        ensures
            match r {
                Some(v) => self.requests().contains_key((user_id@, device_id@, session@))
                    && self.requests()[(user_id@, device_id@, session@)] == v.model(),
                None => !self.requests().contains_key((user_id@, device_id@, session@)),
            },
    {
        let key = (user_id.clone(), device_id.clone(), session.clone());
        match self.userdevicesessionid_uiaarequest.get(&key) {
            Some(v) => Some(v.duplicate()),
            None => None,
        }
    }

    /// The stored state of a session, if the session exists.
    pub fn get_uiaa_session(&self, user_id: &String, device_id: &String, session: &String) -> (r:
        Option<UiaaInfo>)
        requires
            self.wf(),
        ensures
            match r {
                Some(i) => self.sessions().contains_key((user_id@, device_id@, session@))
                    && self.sessions()[(user_id@, device_id@, session@)] == i.model(),
                None => !self.sessions().contains_key((user_id@, device_id@, session@)),
            },
    {
        let key = (user_id.clone(), device_id.clone(), session.clone());
        match self.userdevicesessionid_uiaainfo.get(&key) {
            Some(i) => Some(i.duplicate()),
            None => None,
        }
    }

    /// Takes one attempt at a stage.
    ///
    /// The attempt starts from the stored state of its session, or from
    /// `uiaainfo` where it names none; a state without a session gets
    /// `fresh_session`. An attempt that is turned away leaves the sessions
    /// alone and comes back with the reason in the state. Otherwise its
    /// stage, if it has one, joins the completed stages. Where some flow is
    /// done by then, the session is forgotten and the answer is yes; where
    /// none is, the state is stored under its session and the answer is no.
    pub fn try_auth(
        &mut self,
        user_id: &String,
        device_id: &String,
        auth: &AuthData,
        uiaainfo: &UiaaInfo,
        fresh_session: String,
        password: PasswordCheck,
        registration_token: &Option<String>,
        server_name: &String,
    ) -> (r: Result<(bool, UiaaInfo), Error>)
        requires
            old(self).wf(),
        ensures
            final(self).wf(),
            final(self).requests() == old(self).requests(),
            ({
                let stored = match auth.session_text() {
                    Some(s) => if old(self).sessions().contains_key((user_id@, device_id@, s)) {
                        Some(old(self).sessions()[(user_id@, device_id@, s)])
                    } else {
                        None
                    },
                    None => None,
                };
                match started(uiaainfo.model(), stored, auth.session_text(), fresh_session@) {
                    Err(e) => r == Err::<(bool, UiaaInfo), Error>(e) && final(self).sessions()
                        == old(self).sessions(),
                    Ok(start) => match attempt_of(
                        auth,
                        password,
                        opt_text(*registration_token),
                        server_name@,
                    ) {
                        Attempt::Failed(e) => r == Err::<(bool, UiaaInfo), Error>(e) && final(self).sessions() == old(self).sessions(),
                        Attempt::Rejected(reason) => {
                            &&& r matches Ok(out)
                            &&& !out.0
                            &&& out.1.model() == (UiaaModel { auth_error: Some(reason), ..start })
                            &&& final(self).sessions() == old(self).sessions()
                        },
                        attempt => {
                            let after = UiaaModel {
                                completed: match attempt {
                                    Attempt::Completed(stage) => start.completed.push(stage),
                                    _ => start.completed,
                                },
                                ..start
                            };
                            let key = (user_id@, device_id@, after.session.unwrap());
                            &&& r matches Ok(out)
                            &&& out.1.model() == after
                            &&& out.0 == some_flow_done(after.flows, after.completed)
                            &&& final(self).sessions() == (if out.0 {
                                old(self).sessions().remove(key)
                            } else {
                                old(self).sessions().insert(key, after)
                            })
                        },
                    },
                }
            }),
    {
        let mut info = match auth.session() {
            None => uiaainfo.duplicate(),
            Some(s) => match self.get_uiaa_session(user_id, device_id, s) {
                Some(i) => i,
                None => {
                    return Err(Error::BadRequest(ErrorKind::Forbidden, Reason::NoSuchSession));
                },
            },
        };
        if info.session.is_none() {
            info.session = Some(fresh_session);
        }
        match auth {
            AuthData::Password { identifier, .. } => {
                let name = match identifier {
                    Some(n) => n,
                    None => {
                        return Err(
                            Error::BadRequest(
                                ErrorKind::Unrecognized,
                                Reason::UnknownIdentifierType,
                            ),
                        );
                    },
                };
                if complete_user_id(name, server_name).is_none() {
                    return Err(Error::BadRequest(ErrorKind::InvalidParam, Reason::InvalidUserId));
                }
                match password {
                    PasswordCheck::Mismatch => {
                        info.auth_error = Some(Reason::InvalidCredentials);
                        return Ok((false, info));
                    },
                    _ => {},
                }
                let ghost before = texts(info.completed@);
                info.completed.push("m.login.password".to_owned());
                assert(texts(info.completed@) =~= before.push(password_stage()));
            },
            AuthData::RegistrationToken { token, .. } => {
                let given = trim(token);
                let right = match registration_token {
                    Some(t) => given == *t,
                    None => false,
                };
                if !right {
                    info.auth_error = Some(Reason::InvalidRegistrationToken);
                    return Ok((false, info));
                }
                let ghost before = texts(info.completed@);
                info.completed.push("m.login.registration_token".to_owned());
                assert(texts(info.completed@) =~= before.push(token_stage()));
            },
            AuthData::Dummy { .. } => {
                let ghost before = texts(info.completed@);
                info.completed.push("m.login.dummy".to_owned());
                assert(texts(info.completed@) =~= before.push(dummy_stage()));
            },
            AuthData::Other { .. } => {},
        }
        let done = flows_completed(&info.flows, &info.completed);
        let session = info.session.as_ref().unwrap().clone();
        if done {
            self.update_uiaa_session(user_id, device_id, &session, None);
        } else {
            self.update_uiaa_session(user_id, device_id, &session, Some(&info));
        }
        Ok((done, info))
    }
}

} // verus!
