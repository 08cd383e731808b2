//! Who hears of a new event: the users to notify, the push jobs, and the
//! application services to deliver to.

use crate::error::{Error, Reason};
use crate::pdu::{kind_is, room_member, Pdu, PduEvent};
use crate::protocol::{is_user_id, user_id_valid};
use crate::text::{contains, copy_all, texts};
use vstd::prelude::*;

verus! {

/// What a push rule asks for.
#[derive(Clone, Copy, Debug, PartialEq, Eq, Hash, Structural)]
pub enum Action {
    /// Notify the user.
    Notify,
    /// Mark, or do not mark, the event as a highlight.
    SetHighlight(bool),
    /// Anything else; it has no bearing here.
    Other,
}

/// What the push rules of one user say of an event, and where that user's
/// pushes go.
#[derive(Debug)]
pub struct Evaluation {
    pub user_id: String,
    pub actions: Vec<Action>,
    pub push_keys: Vec<String>,
}

/// The mathematical value of an `Evaluation`.
pub struct EvaluationModel {
    pub user_id: Seq<char>,
    pub actions: Seq<Action>,
    pub push_keys: Seq<Seq<char>>,
}

impl Evaluation {
    /// The mathematical value of the evaluation.
    pub open spec fn model(&self) -> EvaluationModel {
        EvaluationModel {
            user_id: self.user_id@,
            actions: self.actions@,
            push_keys: texts(self.push_keys@),
        }
    }
}

/// The mathematical values of a list of evaluations.
pub open spec fn evaluation_models(v: Seq<Evaluation>) -> Seq<EvaluationModel> {
    Seq::new(v.len(), |i: int| v[i].model())
}

/// One push to dispatch: the user and the push key.
#[derive(Debug)]
pub struct PushJob {
    pub user_id: String,
    pub push_key: String,
}

/// The mathematical values of a list of push jobs.
pub open spec fn job_models(v: Seq<PushJob>) -> Seq<(Seq<char>, Seq<char>)> {
    Seq::new(v.len(), |i: int| (v[i].user_id@, v[i].push_key@))
}

/// The users whose push rules are asked about an event: the local users
/// active in the room and, for a membership event, the user that it is
/// about, added at the end unless already among them.
pub open spec fn push_targets_of(active: Seq<Seq<char>>, pdu: Pdu) -> Seq<Seq<char>> {
    if pdu.kind == room_member() && pdu.state_key.is_some() && !active.contains(
        pdu.state_key.unwrap(),
    ) {
        active.push(pdu.state_key.unwrap())
    } else {
        active
    }
}

/// Whether a membership event names a user that is none: the one input on
/// which the targets cannot be told.
pub open spec fn bad_member_target(pdu: Pdu) -> bool {
    pdu.kind == room_member() && pdu.state_key.is_some() && !user_id_valid(pdu.state_key.unwrap())
}

/// The users whose push rules are asked about `pdu`.
pub fn push_targets(active_local_users: &Vec<String>, pdu: &PduEvent) -> (r: Result<
    Vec<String>,
    Error,
>)
    ensures
        match r {
            Ok(t) => !bad_member_target(pdu.model()) && texts(t@) == push_targets_of(
                texts(active_local_users@),
                pdu.model(),
            ),
            Err(e) => bad_member_target(pdu.model()) && e == Error::BadDatabase(
                Reason::InvalidUserId,
            ),
        },
{
    let mut targets = copy_all(active_local_users);
    if kind_is(&pdu.kind, "m.room.member") {
        match &pdu.state_key {
            Some(state_key) => {
                if !is_user_id(state_key) {
                    return Err(Error::BadDatabase(Reason::InvalidUserId));
                }
                if !contains(&targets, state_key) {
                    let ghost before = texts(targets@);
                    targets.push(state_key.clone());
                    assert(texts(targets@) =~= before.push(state_key@));
                }
            },
            None => {},
        }
    }
    Ok(targets)
}

/// The user identifiers of a list of evaluations.
pub open spec fn evaluated_users(evals: Seq<EvaluationModel>) -> Seq<Seq<char>> {
    evals.map_values(|e: EvaluationModel| e.user_id)
}

/// The first evaluation for `user`, if there is one.
pub open spec fn evaluation_for(evals: Seq<EvaluationModel>, user: Seq<char>) -> Option<
    EvaluationModel,
> {
    match evaluated_users(evals).index_of_first(user) {
        Some(i) => Some(evals[i]),
        None => None,
    }
}

/// Whether the user is to be notified: some action says so.
pub open spec fn notifies(ev: Option<EvaluationModel>) -> bool {
    ev.is_some() && ev.unwrap().actions.contains(Action::Notify)
}

/// Whether the event is a highlight for the user: some action says so.
pub open spec fn highlights(ev: Option<EvaluationModel>) -> bool {
    ev.is_some() && ev.unwrap().actions.contains(Action::SetHighlight(true))
}

/// The push jobs of one user: one for each push key.
pub open spec fn jobs_for(user: Seq<char>, ev: Option<EvaluationModel>) -> Seq<
    (Seq<char>, Seq<char>),
> {
    match ev {
        Some(e) => Seq::new(e.push_keys.len(), |i: int| (user, e.push_keys[i])),
        None => Seq::empty(),
    }
}

/// Who is notified, for whom the event is a highlight, and the push jobs.
pub struct FanOut {
    pub notifies: Seq<Seq<char>>,
    pub highlights: Seq<Seq<char>>,
    pub pushes: Seq<(Seq<char>, Seq<char>)>,
}

/// The fan-out of an event over its targets, in their order. The sender is
/// passed over: nobody is notified of their own event.
pub open spec fn fan_out(targets: Seq<Seq<char>>, sender: Seq<char>, evals: Seq<EvaluationModel>) -> FanOut
    decreases targets.len(),
{
    if targets.len() == 0 {
        FanOut { notifies: Seq::empty(), highlights: Seq::empty(), pushes: Seq::empty() }
    } else {
        let rest = fan_out(targets.drop_last(), sender, evals);
        let user = targets.last();
        if user == sender {
            rest
        } else {
            let ev = evaluation_for(evals, user);
            FanOut {
                notifies: if notifies(ev) {
                    rest.notifies.push(user)
                } else {
                    rest.notifies
                },
                highlights: if highlights(ev) {
                    rest.highlights.push(user)
                } else {
                    rest.highlights
                },
                pushes: rest.pushes + jobs_for(user, ev),
            }
        }
    }
}

/// The sender of an event is never among those notified of it, never among
/// those for whom it is a highlight, and gets no push for it.
pub proof fn sender_is_passed_over(
    targets: Seq<Seq<char>>,
    sender: Seq<char>,
    evals: Seq<EvaluationModel>,
)
    ensures
        !fan_out(targets, sender, evals).notifies.contains(sender),
        !fan_out(targets, sender, evals).highlights.contains(sender),
        forall|i: int|
            0 <= i < fan_out(targets, sender, evals).pushes.len() ==> (#[trigger] fan_out(
                targets,
                sender,
                evals,
            ).pushes[i]).0 != sender,
    decreases targets.len(),
{
    if targets.len() > 0 {
        sender_is_passed_over(targets.drop_last(), sender, evals);
        let rest = fan_out(targets.drop_last(), sender, evals);
        let all = fan_out(targets, sender, evals);
        let user = targets.last();
        if user != sender {
            if all.notifies.contains(sender) {
                let i = choose|i: int| 0 <= i < all.notifies.len() && all.notifies[i] == sender;
                if i < rest.notifies.len() {
                    assert(rest.notifies[i] == sender);
                }
            }
            if all.highlights.contains(sender) {
                let i = choose|i: int| 0 <= i < all.highlights.len() && all.highlights[i] == sender;
                if i < rest.highlights.len() {
                    assert(rest.highlights[i] == sender);
                }
            }
            assert forall|i: int| 0 <= i < all.pushes.len() implies (#[trigger] all.pushes[i]).0
                != sender by {
                if i < rest.pushes.len() {
                    assert(all.pushes[i] == rest.pushes[i]);
                }
            }
        }
    }
}

/// Everyone notified of an event, and everyone for whom it is a highlight,
/// is one of its targets.
pub proof fn fan_out_stays_within_targets(
    targets: Seq<Seq<char>>,
    sender: Seq<char>,
    evals: Seq<EvaluationModel>,
)
    ensures
        forall|u: Seq<char>| #[trigger]
            fan_out(targets, sender, evals).notifies.contains(u) ==> targets.contains(u),
        forall|u: Seq<char>| #[trigger]
            fan_out(targets, sender, evals).highlights.contains(u) ==> targets.contains(u),
    decreases targets.len(),
{
    if targets.len() > 0 {
        fan_out_stays_within_targets(targets.drop_last(), sender, evals);
        let rest = fan_out(targets.drop_last(), sender, evals);
        let all = fan_out(targets, sender, evals);
        let t = targets.drop_last();
        assert forall|u: Seq<char>| t.contains(u) implies targets.contains(u) by {
            let i = choose|i: int| 0 <= i < t.len() && t[i] == u;
            assert(targets[i] == u);
        }
        assert(targets[targets.len() - 1] == targets.last());
        assert forall|u: Seq<char>| #[trigger] all.notifies.contains(u) implies targets.contains(
            u,
        ) by {
            let i = choose|i: int| 0 <= i < all.notifies.len() && all.notifies[i] == u;
            if i < rest.notifies.len() {
                assert(rest.notifies[i] == u);
                assert(rest.notifies.contains(u));
            }
        }
        assert forall|u: Seq<char>| #[trigger] all.highlights.contains(u) implies targets.contains(
            u,
        ) by {
            let i = choose|i: int| 0 <= i < all.highlights.len() && all.highlights[i] == u;
            if i < rest.highlights.len() {
                assert(rest.highlights[i] == u);
                assert(rest.highlights.contains(u));
            }
        }
    }
}

/// The first evaluation for `user`.
fn find_evaluation<'a>(evaluations: &'a Vec<Evaluation>, user: &String) -> (r: Option<
    &'a Evaluation,
>)
    ensures
        match r {
            Some(e) => evaluation_for(evaluation_models(evaluations@), user@) == Some(e.model()),
            None => evaluation_for(evaluation_models(evaluations@), user@).is_none(),
        },
{
    let ghost us = evaluated_users(evaluation_models(evaluations@));
    let mut i: usize = 0;
    while i < evaluations.len()
        invariant
            i <= evaluations@.len(),
            us == evaluated_users(evaluation_models(evaluations@)),
            forall|j: int| 0 <= j < i ==> us[j] != user@,
        decreases evaluations@.len() - i,
    {
        if evaluations[i].user_id == *user {
            proof {
                assert(us[i as int] == user@);
                us.index_of_first_ensures(user@);
            }
            return Some(&evaluations[i]);
        }
        i += 1;
    }
    proof {
        us.index_of_first_ensures(user@);
    }
    None
}

/// Whether `action` is among `actions`.
fn has_action(actions: &Vec<Action>, action: Action) -> (b: bool)
    ensures
        b == actions@.contains(action),
{
    let mut i: usize = 0;
    while i < actions.len()
        invariant
            i <= actions@.len(),
            forall|j: int| 0 <= j < i ==> actions@[j] != action,
        decreases actions@.len() - i,
    {
        if actions[i] == action {
            return true;
        }
        i += 1;
    }
    false
}

/// Who is notified of an event, for whom it is a highlight, and the push
/// jobs to dispatch, given what the push rules of each target say.
pub fn recipients(targets: &Vec<String>, sender: &String, evaluations: &Vec<Evaluation>) -> (r: (
    Vec<String>,
    Vec<String>,
    Vec<PushJob>,
))
    ensures
        texts(r.0@) == fan_out(texts(targets@), sender@, evaluation_models(evaluations@)).notifies,
        texts(r.1@) == fan_out(
            texts(targets@),
            sender@,
            evaluation_models(evaluations@),
        ).highlights,
        job_models(r.2@) == fan_out(
            texts(targets@),
            sender@,
            evaluation_models(evaluations@),
        ).pushes,
{
    let ghost ts = texts(targets@);
    let ghost evs = evaluation_models(evaluations@);
    let mut notifies_out: Vec<String> = Vec::new();
    let mut highlights_out: Vec<String> = Vec::new();
    let mut pushes: Vec<PushJob> = Vec::new();
    let mut i: usize = 0;
    proof {
        assert(ts.take(0) =~= Seq::<Seq<char>>::empty());
        assert(texts(notifies_out@) =~= Seq::<Seq<char>>::empty());
        assert(texts(highlights_out@) =~= Seq::<Seq<char>>::empty());
        assert(job_models(pushes@) =~= Seq::<(Seq<char>, Seq<char>)>::empty());
    }
    while i < targets.len()
        invariant
            i <= targets@.len(),
            ts == texts(targets@),
            evs == evaluation_models(evaluations@),
            texts(notifies_out@) == fan_out(ts.take(i as int), sender@, evs).notifies,
            texts(highlights_out@) == fan_out(ts.take(i as int), sender@, evs).highlights,
            job_models(pushes@) == fan_out(ts.take(i as int), sender@, evs).pushes,
        decreases targets@.len() - i,
    {
        let user = &targets[i];
        proof {
            assert(ts.take(i as int + 1).drop_last() =~= ts.take(i as int));
            assert(ts.take(i as int + 1).last() == user@);
        }
        if *user != *sender {
            let ev = find_evaluation(evaluations, user);
            let ghost evm = evaluation_for(evs, user@);
            match ev {
                Some(e) => {
                    if has_action(&e.actions, Action::Notify) {
                        let ghost before = texts(notifies_out@);
                        notifies_out.push(user.clone());
                        assert(texts(notifies_out@) =~= before.push(user@));
                    }
                    if has_action(&e.actions, Action::SetHighlight(true)) {
                        let ghost before = texts(highlights_out@);
                        highlights_out.push(user.clone());
                        assert(texts(highlights_out@) =~= before.push(user@));
                    }
                    let ghost base = job_models(pushes@);
                    let mut k: usize = 0;
                    assert(job_models(pushes@) =~= base + jobs_for(user@, evm).take(0));
                    while k < e.push_keys.len()
                        invariant
                            k <= e.push_keys@.len(),
                            evm == Some(e.model()),
                            job_models(pushes@) == base + jobs_for(user@, evm).take(k as int),
                        decreases e.push_keys@.len() - k,
                    {
                        let ghost before = job_models(pushes@);
                        pushes.push(
                            PushJob { user_id: user.clone(), push_key: e.push_keys[k].clone() },
                        );
                        assert(job_models(pushes@) =~= before.push((user@, e.push_keys@[k as int]@)));
                        assert(jobs_for(user@, evm).take(k as int + 1) =~= jobs_for(
                            user@,
                            evm,
                        ).take(k as int).push((user@, e.push_keys@[k as int]@)));
                        assert(job_models(pushes@) =~= base + jobs_for(user@, evm).take(
                            k as int + 1,
                        ));
                        k += 1;
                    }
                    assert(jobs_for(user@, evm).take(e.push_keys@.len() as int) =~= jobs_for(
                        user@,
                        evm,
                    ));
                },
                None => {
                    assert(job_models(pushes@) =~= job_models(pushes@) + jobs_for(user@, evm));
                },
            }
        }
        i += 1;
    }
    assert(ts.take(targets@.len() as int) =~= ts);
    (notifies_out, highlights_out, pushes)
}

/// What is known of one application service with respect to an event: its
/// registration, whether it has members in the event's room, and which of
/// its namespaces match.
#[derive(Debug)]
pub struct AppserviceMatch {
    /// The identifier of the registration.
    pub id: String,
    /// The service's own user.
    pub service_user: String,
    /// The service already has a member in the room.
    pub in_room: bool,
    /// A local alias of the room lies in the service's alias namespace.
    pub matches_aliases: bool,
    /// The room lies in the service's room namespace.
    pub matches_room: bool,
    /// The event's sender lies in the service's user namespace.
    pub matches_sender: bool,
    /// The event's state key lies in the service's user namespace.
    pub matches_state_key: bool,
}

/// The mathematical value of an `AppserviceMatch`.
pub struct AppserviceModel {
    pub id: Seq<char>,
    pub service_user: Seq<char>,
    pub in_room: bool,
    pub matches_aliases: bool,
    pub matches_room: bool,
    pub matches_sender: bool,
    pub matches_state_key: bool,
}

impl AppserviceMatch {
    /// The mathematical value of the match.
    pub open spec fn model(&self) -> AppserviceModel {
        AppserviceModel {
            id: self.id@,
            service_user: self.service_user@,
            in_room: self.in_room,
            matches_aliases: self.matches_aliases,
            matches_room: self.matches_room,
            matches_sender: self.matches_sender,
            matches_state_key: self.matches_state_key,
        }
    }
}

/// The mathematical values of a list of matches.
pub open spec fn appservice_models(v: Seq<AppserviceMatch>) -> Seq<AppserviceModel> {
    Seq::new(v.len(), |i: int| v[i].model())
}

/// Whether an event goes to an application service: the service has a
/// member in the room; or the event is a membership event about the
/// service's own user; or one of the service's namespaces matches the room,
/// one of its aliases, the sender, or the user a membership event is about.
pub open spec fn delivers(a: AppserviceModel, pdu: Pdu) -> bool {
    ||| a.in_room
    ||| (pdu.kind == room_member() && pdu.state_key.is_some() && user_id_valid(
        pdu.state_key.unwrap(),
    ) && pdu.state_key.unwrap() == a.service_user)
    ||| a.matches_aliases
    ||| a.matches_room
    ||| a.matches_sender
    ||| (pdu.kind == room_member() && pdu.state_key.is_some() && a.matches_state_key)
}

/// The registrations that an event goes to, each once, in the order of the
/// registry.
pub open spec fn deliveries(apps: Seq<AppserviceModel>, pdu: Pdu) -> Seq<Seq<char>>
    decreases apps.len(),
{
    if apps.len() == 0 {
        Seq::empty()
    } else if delivers(apps.last(), pdu) {
        deliveries(apps.drop_last(), pdu).push(apps.last().id)
    } else {
        deliveries(apps.drop_last(), pdu)
    }
}

/// An event goes to an application service at most once: there are never
/// more deliveries than registrations.
pub proof fn at_most_one_delivery_each(apps: Seq<AppserviceModel>, pdu: Pdu)
    ensures
        deliveries(apps, pdu).len() <= apps.len(),
    decreases apps.len(),
{
    if apps.len() > 0 {
        at_most_one_delivery_each(apps.drop_last(), pdu);
    }
}

/// The registrations of the application services that `pdu` goes to.
pub fn appservice_deliveries(appservices: &Vec<AppserviceMatch>, pdu: &PduEvent) -> (r: Vec<String>)
    ensures
        texts(r@) == deliveries(appservice_models(appservices@), pdu.model()),
{
    let ghost apps = appservice_models(appservices@);
    let is_member = kind_is(&pdu.kind, "m.room.member");
    let about_user = is_member && match &pdu.state_key {
        Some(k) => is_user_id(k),
        None => false,
    };
    let mut out: Vec<String> = Vec::new();
    let mut i: usize = 0;
    proof {
        assert(apps.take(0) =~= Seq::<AppserviceModel>::empty());
        assert(texts(out@) =~= Seq::<Seq<char>>::empty());
    }
    while i < appservices.len()
        invariant
            i <= appservices@.len(),
            apps == appservice_models(appservices@),
            is_member == (pdu.model().kind == room_member()),
            about_user == (is_member && pdu.model().state_key.is_some() && user_id_valid(
                pdu.model().state_key.unwrap(),
            )),
            texts(out@) == deliveries(apps.take(i as int), pdu.model()),
        decreases appservices@.len() - i,
    {
        let a = &appservices[i];
        proof {
            assert(apps.take(i as int + 1).drop_last() =~= apps.take(i as int));
            assert(apps.take(i as int + 1).last() == a.model());
        }
        let own_user = about_user && match &pdu.state_key {
            Some(k) => *k == a.service_user,
            None => false,
        };
        let about_match = is_member && pdu.state_key.is_some() && a.matches_state_key;
        if a.in_room || own_user || a.matches_aliases || a.matches_room || a.matches_sender
            || about_match {
            let ghost before = texts(out@);
            out.push(a.id.clone());
            assert(texts(out@) =~= before.push(a.id@));
        }
        i += 1;
    }
    assert(apps.take(appservices@.len() as int) =~= apps);
    out
}

} // verus!
