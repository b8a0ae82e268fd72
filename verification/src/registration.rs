//! Reconciliation of the registrations that the platform holds with the
//! streamers that have recipients.

use vstd::prelude::*;
use vstd::string::StringExecFns;
use crate::bytes::text_eq;
use crate::held::{
    held, lemma_held_at, lemma_held_kept, lemma_held_position, lemma_held_push, take_kept,
};
use crate::subscription_manager::{listed, streamers, texts, SubscriptionManager};

verus! {

/// The path under which the webhook endpoint listens.
pub const EVENTSUB_PATH: &'static str = "/twitch/eventsub/";

/// A registration that the platform holds.
#[derive(Clone, Debug, PartialEq, Eq)]
pub struct ExternalRegistration {
    pub event_type: String,
    pub version: String,
    /// The platform id of the streamer in the registration's condition, if it names one.
    pub broadcaster_user_id: Option<String>,
    /// The callback URL, if the registration is delivered over a webhook.
    pub callback: Option<String>,
    /// Whether the platform reports the registration as enabled.
    pub enabled: bool,
}

/// Why a registration did not come about.
#[derive(Clone, Copy, Debug, PartialEq, Eq, Structural)]
pub enum RegistrationError {
    /// The login does not resolve to an account.
    NotFound,
    /// The platform holds such a registration already.
    Conflict,
    RateLimited,
    Unauthorized,
    /// A failure that may pass: a timeout, the network, the platform.
    Transient,
}

/// The kind of failure that an HTTP status of the platform stands for.
pub open spec fn failure_of(status: u16) -> RegistrationError {
    if status == 401 || status == 403 {
        RegistrationError::Unauthorized
    } else if status == 404 {
        RegistrationError::NotFound
    } else if status == 409 {
        RegistrationError::Conflict
    } else if status == 429 {
        RegistrationError::RateLimited
    } else {
        RegistrationError::Transient
    }
}

impl RegistrationError {
    /// The kind of failure that the platform reports with the HTTP status
    /// `status`. A status that names none of the others counts as transient.
    pub fn from_status(status: u16) -> (error: RegistrationError)
        ensures
            error == failure_of(status),
    {
        if status == 401 || status == 403 {
            RegistrationError::Unauthorized
        } else if status == 404 {
            RegistrationError::NotFound
        } else if status == 409 {
            RegistrationError::Conflict
        } else if status == 429 {
            RegistrationError::RateLimited
        } else {
            RegistrationError::Transient
        }
    }
}

/// A registration to ask the platform for.
#[derive(Clone, Debug, PartialEq, Eq)]
pub struct NewRegistration {
    pub event_type: String,
    pub version: String,
    pub broadcaster_user_id: String,
    pub callback: String,
    pub secret: String,
}

/// What is to be done for a streamer once its login was looked up and the
/// platform's registrations were listed.
#[derive(Clone, Debug, PartialEq, Eq)]
pub enum RegistrationStep {
    /// The login did not resolve: nothing can be registered.
    Unresolved,
    /// The platform holds the registration: nothing is to be created.
    AlreadyRegistered { broadcaster_user_id: String },
    /// The registration is to be created.
    Create(NewRegistration),
}

/// Whether `registration` is an enabled "stream went live" registration of
/// the streamer with platform id `broadcaster_id`, delivered to `callback`.
pub open spec fn is_online_registration(
    registration: ExternalRegistration,
    callback: Seq<char>,
    broadcaster_id: Seq<char>,
) -> bool {
    &&& registration.enabled
    &&& registration.callback matches Some(c)
    &&& c@ == callback
    &&& registration.event_type@ == "stream.online"@
    &&& registration.version@ == "1"@
    &&& registration.broadcaster_user_id matches Some(b)
    &&& b@ == broadcaster_id
}

/// Whether the platform holds the registration for `broadcaster_id` and `callback`.
pub open spec fn registered(
    registrations: Seq<ExternalRegistration>,
    callback: Seq<char>,
    broadcaster_id: Seq<char>,
) -> bool {
    exists|i: int|
        0 <= i < registrations.len() && is_online_registration(
            #[trigger] registrations[i],
            callback,
            broadcaster_id,
        )
}

/// The URL at which the platform reaches the endpoint, for the public base URL `base`.
pub fn callback_url(base: &str) -> (url: String)
    ensures
        url@ == base@ + EVENTSUB_PATH@,
{
    String::from_str(base).concat(EVENTSUB_PATH)
}

fn is_online(registration: &ExternalRegistration, callback: &str, broadcaster_id: &str) -> (yes: bool)
    ensures
        yes == is_online_registration(*registration, callback@, broadcaster_id@),
{
    if !registration.enabled {
        return false;
    }
    let same_callback = match &registration.callback {
        Some(c) => text_eq(c.as_str(), callback),
        None => false,
    };
    let same_streamer = match &registration.broadcaster_user_id {
        Some(b) => text_eq(b.as_str(), broadcaster_id),
        None => false,
    };
    same_callback && same_streamer && text_eq(registration.event_type.as_str(), "stream.online")
        && text_eq(registration.version.as_str(), "1")
}

/// Whether the listed registrations hold the one for `broadcaster_id` and `callback`.
pub fn online_exists(
    registrations: &Vec<ExternalRegistration>,
    callback: &str,
    broadcaster_id: &str,
) -> (exists: bool)
    ensures
        exists == registered(registrations@, callback@, broadcaster_id@),
{
    let mut i: usize = 0;
    while i < registrations.len()
        invariant
            i <= registrations@.len(),
            forall|j: int|
                0 <= j < i ==> !is_online_registration(
                    #[trigger] registrations@[j],
                    callback@,
                    broadcaster_id@,
                ),
        decreases registrations@.len() - i,
    {
        if is_online(&registrations[i], callback, broadcaster_id) {
            return true;
        }
        i += 1;
    }
    false
}

/// Decides what is to be done for one streamer: `broadcaster_id` is what the
/// lookup of its login gave, `registrations` what the platform lists. A
/// registration is asked for only where the platform holds none for the same
/// event type, version, streamer and callback.
pub fn eventsub_register(
    broadcaster_id: Option<String>,
    registrations: &Vec<ExternalRegistration>,
    webhook_url: String,
    secret: String,
) -> (step: RegistrationStep)
    ensures
        match broadcaster_id {
            None => step is Unresolved,
            Some(id) => if registered(registrations@, webhook_url@, id@) {
                step matches RegistrationStep::AlreadyRegistered { broadcaster_user_id }
                    && broadcaster_user_id@ == id@
            } else {
                step matches RegistrationStep::Create(new) && new.event_type@ == "stream.online"@
                    && new.version@ == "1"@ && new.broadcaster_user_id@ == id@ && new.callback@
                    == webhook_url@ && new.secret@ == secret@
            },
        },
{
    match broadcaster_id {
        None => RegistrationStep::Unresolved,
        Some(id) => {
            if online_exists(registrations, webhook_url.as_str(), id.as_str()) {
                RegistrationStep::AlreadyRegistered { broadcaster_user_id: id }
            } else {
                RegistrationStep::Create(
                    NewRegistration {
                        event_type: "stream.online".to_owned(),
                        version: "1".to_owned(),
                        broadcaster_user_id: id,
                        callback: webhook_url,
                        secret,
                    },
                )
            }
        },
    }
}

/// The streamers that `confirmed` holds as registered.
pub open spec fn confirmed_streamers(confirmed: Set<(Seq<char>, Seq<char>)>) -> Set<Seq<char>> {
    Set::new(|login: Seq<char>| exists|id: Seq<char>| confirmed.contains((login, id)))
}

/// The streamers of `desired` that `confirmed` does not hold: those for which
/// a registration is to be attempted.
pub open spec fn pending(desired: Set<Seq<char>>, confirmed: Set<(Seq<char>, Seq<char>)>) -> Set<
    Seq<char>,
> {
    Set::new(
        |login: Seq<char>|
            desired.contains(login) && !confirmed_streamers(confirmed).contains(login),
    )
}

/// What is left of `confirmed` after a listing: the streamers that are still
/// desired and whose registration the platform still holds.
pub open spec fn still_confirmed(
    confirmed: Set<(Seq<char>, Seq<char>)>,
    desired: Set<Seq<char>>,
    registrations: Seq<ExternalRegistration>,
    callback: Seq<char>,
) -> Set<(Seq<char>, Seq<char>)> {
    confirmed.filter(
        |e: (Seq<char>, Seq<char>)| desired.contains(e.0) && registered(registrations, callback, e.1),
    )
}

/// The pair (login, platform id) that an entry holds.
spec fn confirmed_of(entry: (String, String)) -> (Seq<char>, Seq<char>) {
    (entry.0@, entry.1@)
}

/// The pairs (login, platform id) that a list of entries holds.
spec fn confirmed_in(entries: Seq<(String, String)>) -> Set<(Seq<char>, Seq<char>)> {
    held(entries, |entry: (String, String)| confirmed_of(entry))
}

/// The reconciler's own record of the streamers whose registration it has
/// confirmed, each with the platform id under which it was registered.
pub struct TwitchWebhookServer {
    subscribed_to: Vec<(String, String)>,
}

impl TwitchWebhookServer {
    /// The confirmed streamers, each as its login and its platform id.
    pub closed spec fn view(&self) -> Set<(Seq<char>, Seq<char>)> {
        confirmed_in(self.subscribed_to@)
    }

    /// A record in which nothing is confirmed.
    pub fn new() -> (server: Self)
        ensures
            server@ == Set::<(Seq<char>, Seq<char>)>::empty(),
    {
        let server = TwitchWebhookServer { subscribed_to: Vec::new() };
        assert(server@ =~= Set::empty());
        server
    }

    /// Whether the streamer's registration is confirmed.
    pub fn is_subscribed(&self, streamer: &str) -> (confirmed: bool)
        ensures
            confirmed == confirmed_streamers(self@).contains(streamer@),
    {
        let mut i: usize = 0;
        while i < self.subscribed_to.len()
            invariant
                i <= self.subscribed_to@.len(),
                forall|j: int| 0 <= j < i ==> (#[trigger] self.subscribed_to@[j]).0@ != streamer@,
            decreases self.subscribed_to@.len() - i,
        {
            if text_eq(self.subscribed_to[i].0.as_str(), streamer) {
                proof {
                    lemma_held_at(
                        self.subscribed_to@,
                        |entry: (String, String)| confirmed_of(entry),
                        i as int,
                    );
                }
                return true;
            }
            i += 1;
        }
        proof {
            if confirmed_streamers(self@).contains(streamer@) {
                let id = choose|id: Seq<char>| self@.contains((streamer@, id));
                let j = lemma_held_position(
                    self.subscribed_to@,
                    |entry: (String, String)| confirmed_of(entry),
                    (streamer@, id),
                );
                assert(false);
            }
        }
        false
    }

    /// One tick of the reconciliation: the streamers that have recipients and
    /// no confirmed registration, each once. For each of them a registration
    /// is to be attempted, one at a time.
    pub fn check_subscriptions(&self, manager: &SubscriptionManager) -> (attempts: Vec<String>)
        ensures
            texts(attempts@).no_duplicates(),
            texts(attempts@).to_set() == pending(streamers(manager@), self@),
    {
        let desired = manager.streamers_with_recipients();
        let mut attempts: Vec<String> = Vec::new();
        let ghost mut from: Seq<int> = Seq::empty();
        let mut i: usize = 0;
        while i < desired.len()
            invariant
                i <= desired@.len(),
                texts(desired@).no_duplicates(),
                from.len() == attempts@.len(),
                forall|j: int|
                    0 <= j < attempts@.len() ==> 0 <= (#[trigger] from[j]) < i && desired@[from[j]]@
                        == attempts@[j]@ && !confirmed_streamers(self@).contains(attempts@[j]@),
                forall|j: int, k: int| 0 <= j < k < attempts@.len() ==> from[j] < from[k],
                forall|m: int|
                    0 <= m < i && !confirmed_streamers(self@).contains((#[trigger] desired@[m])@)
                        ==> texts(attempts@).contains(desired@[m]@),
            decreases desired@.len() - i,
        {
            if !self.is_subscribed(desired[i].as_str()) {
                let ghost before = attempts@;
                attempts.push(desired[i].clone());
                proof {
                    from = from.push(i as int);
                    assert(attempts@[before.len() as int]@ == desired@[i as int]@);
                    assert forall|m: int|
                        0 <= m < i + 1 && !confirmed_streamers(self@).contains(
                            (#[trigger] desired@[m])@,
                        ) implies texts(attempts@).contains(desired@[m]@) by {
                        if m < i {
                            let j = choose|j: int|
                                0 <= j < texts(before).len() && texts(before)[j] == desired@[m]@;
                            assert(attempts@[j] == before[j]);
                            assert(texts(attempts@)[j] == desired@[m]@);
                        } else {
                            assert(texts(attempts@)[before.len() as int] == desired@[m]@);
                        }
                    }
                }
            }
            i += 1;
        }
        proof {
            assert forall|j: int, k: int|
                0 <= j < texts(attempts@).len() && 0 <= k < texts(attempts@).len() && j
                    != k implies texts(attempts@)[j] != texts(attempts@)[k] by {
                assert(texts(desired@)[from[j]] == attempts@[j]@);
                assert(texts(desired@)[from[k]] == attempts@[k]@);
                if j < k {
                    assert(from[j] < from[k]);
                } else {
                    assert(from[k] < from[j]);
                }
            }
            let target = pending(streamers(manager@), self@);
            assert forall|s: Seq<char>| texts(attempts@).to_set().contains(s) == target.contains(
                s,
            ) by {
                if texts(attempts@).to_set().contains(s) {
                    let j = choose|j: int|
                        0 <= j < texts(attempts@).len() && texts(attempts@)[j] == s;
                    assert(texts(desired@)[from[j]] == s);
                    assert(texts(desired@).to_set().contains(s));
                }
                if target.contains(s) {
                    assert(texts(desired@).to_set().contains(s));
                    let m = choose|m: int| 0 <= m < texts(desired@).len() && texts(desired@)[m] == s;
                    assert(desired@[m]@ == s);
                }
            }
            assert(texts(attempts@).to_set() =~= target);
        }
        attempts
    }

    /// Records how the attempt for `streamer` ended: `Ok` with the platform id
    /// where the platform now holds the registration, the error otherwise.
    /// Only a success confirms the streamer; after any error the streamer
    /// stays pending and is attempted again at the next tick.
    pub fn subscribe(
        &mut self,
        streamer: String,
        outcome: Result<String, RegistrationError>,
    ) -> (confirmed: bool)
        ensures
            confirmed == outcome is Ok,
            match outcome {
                Ok(id) => final(self)@ == old(self)@.insert((streamer@, id@)),
                Err(_) => final(self)@ == old(self)@,
            },
            confirmed ==> confirmed_streamers(final(self)@).contains(streamer@),
    {
        match outcome {
            Ok(id) => {
                proof {
                    lemma_held_push(
                        self.subscribed_to@,
                        (streamer, id),
                        |entry: (String, String)| confirmed_of(entry),
                    );
                    assert(self@.insert((streamer@, id@)).contains((streamer@, id@)));
                }
                self.subscribed_to.push((streamer, id));
                true
            },
            Err(_) => false,
        }
    }

    /// Brings the record in line with what the platform lists: a streamer
    /// stays confirmed if it still has recipients and the platform still
    /// holds its registration for `callback`.
    pub fn refresh(
        &mut self,
        manager: &SubscriptionManager,
        registrations: &Vec<ExternalRegistration>,
        callback: &str,
    )
        ensures
            final(self)@ == still_confirmed(
                old(self)@,
                streamers(manager@),
                registrations@,
                callback@,
            ),
    {
        let desired = manager.streamers_with_recipients();
        let ghost before = self.subscribed_to@;
        let ghost wanted = streamers(manager@);
        let still = |entry: &(String, String)| -> (yes: bool)
            ensures
                yes == (texts(desired@).to_set().contains(entry.0@) && registered(
                    registrations@,
                    callback@,
                    entry.1@,
                )),
            {
                listed(&desired, &entry.0) && online_exists(
                    registrations,
                    callback,
                    entry.1.as_str(),
                )
            };
        let kept = take_kept(
            &mut self.subscribed_to,
            still,
            Ghost(
                |entry: (String, String)|
                    wanted.contains(entry.0@) && registered(registrations@, callback@, entry.1@),
            ),
        );
        proof {
            lemma_held_kept(
                before,
                kept@,
                |entry: (String, String)| confirmed_of(entry),
                |entry: (String, String)|
                    wanted.contains(entry.0@) && registered(registrations@, callback@, entry.1@),
                |e: (Seq<char>, Seq<char>)|
                    wanted.contains(e.0) && registered(registrations@, callback@, e.1),
            );
            assert(confirmed_in(kept@) =~= still_confirmed(
                confirmed_in(before),
                wanted,
                registrations@,
                callback@,
            ));
        }
        self.subscribed_to = kept;
    }
}

/// A pass in which every attempt succeeds closes every gap: if every streamer
/// that was pending is confirmed afterwards, and none that was confirmed is
/// lost, no streamer of the same desired set is pending, so the next passes
/// attempt nothing.
pub proof fn lemma_pass_closes_every_gap(
    desired: Set<Seq<char>>,
    before: Set<(Seq<char>, Seq<char>)>,
    after: Set<(Seq<char>, Seq<char>)>,
)
    requires
        forall|login: Seq<char>| #[trigger]
            pending(desired, before).contains(login) ==> confirmed_streamers(after).contains(login),
        forall|login: Seq<char>| #[trigger]
            confirmed_streamers(before).contains(login) ==> confirmed_streamers(after).contains(
                login,
            ),
    ensures
        pending(desired, after) == Set::<Seq<char>>::empty(),
{
    assert forall|login: Seq<char>| !pending(desired, after).contains(login) by {
        if desired.contains(login) && !confirmed_streamers(after).contains(login) {
            assert(pending(desired, before).contains(login) || confirmed_streamers(before).contains(
                login,
            ));
        }
    }
    assert(pending(desired, after) =~= Set::empty());
}

/// Where nothing is confirmed, every desired streamer is pending: the first
/// pass attempts one registration for each of them.
pub proof fn lemma_first_pass_attempts_all(desired: Set<Seq<char>>)
    ensures
        pending(desired, Set::empty()) == desired,
{
    assert(pending(desired, Set::empty()) =~= desired);
}

/// Once the platform holds the registration for a streamer and a callback,
/// it is held in every longer list too: `eventsub_register` asks for no
/// second one, so no registration is created twice.
pub proof fn lemma_registration_is_not_created_twice(
    registrations: Seq<ExternalRegistration>,
    created: ExternalRegistration,
    callback: Seq<char>,
    broadcaster_id: Seq<char>,
)
    requires
        is_online_registration(created, callback, broadcaster_id),
    ensures
        registered(registrations.push(created), callback, broadcaster_id),
{
    assert(registrations.push(created)[registrations.len() as int] == created);
}

/// A recorded success confirms the streamer: it is pending no longer.
pub proof fn lemma_success_confirms(
    desired: Set<Seq<char>>,
    confirmed: Set<(Seq<char>, Seq<char>)>,
    login: Seq<char>,
    id: Seq<char>,
)
    ensures
        pending(desired, confirmed.insert((login, id))) == pending(desired, confirmed).remove(login),
{
    let after = confirmed.insert((login, id));
    assert(after.contains((login, id)));
    assert forall|s: Seq<char>|
        pending(desired, after).contains(s) == pending(desired, confirmed).remove(login).contains(
            s,
        ) by {
        if s != login {
            if confirmed_streamers(after).contains(s) {
                let i = choose|i: Seq<char>| after.contains((s, i));
                assert(confirmed.contains((s, i)));
            }
            if confirmed_streamers(confirmed).contains(s) {
                let i = choose|i: Seq<char>| confirmed.contains((s, i));
                assert(after.contains((s, i)));
            }
        }
    }
    assert(pending(desired, after) =~= pending(desired, confirmed).remove(login));
}

} // verus!
