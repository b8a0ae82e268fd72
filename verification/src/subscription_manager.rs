//! The in-memory index of who follows which streamer.

use vstd::prelude::*;
use crate::held::{held, lemma_held_at, lemma_held_position, lemma_held_push};
use crate::repository::Subscription;

verus! {

/// The lower-case form of an ASCII capital letter; every other character is itself.
pub open spec fn ascii_lower(c: char) -> char {
    if 'A' <= c && c <= 'Z' {
        ((c as u8) + 32) as char
    } else {
        c
    }
}

/// A streamer login in the form under which the index keeps it.
pub open spec fn normalized(login: Seq<char>) -> Seq<char> {
    login.map_values(|c: char| ascii_lower(c))
}

/// The recipients that `index` holds for `streamer`.
pub open spec fn recipients(index: Set<(Seq<char>, u64)>, streamer: Seq<char>) -> Set<u64> {
    Set::new(|recipient: u64| index.contains((streamer, recipient)))
}

/// The streamers for which `index` holds at least one recipient.
pub open spec fn streamers(index: Set<(Seq<char>, u64)>) -> Set<Seq<char>> {
    Set::new(|streamer: Seq<char>| exists|recipient: u64| index.contains((streamer, recipient)))
}

/// Whether subscribing `recipient` to `streamer` adds a pair to `index`.
pub open spec fn is_new(index: Set<(Seq<char>, u64)>, streamer: Seq<char>, recipient: u64) -> bool {
    !index.contains((normalized(streamer), recipient))
}

/// The index after `recipient` subscribed to `streamer`.
pub open spec fn with_pair(index: Set<(Seq<char>, u64)>, streamer: Seq<char>, recipient: u64) -> Set<
    (Seq<char>, u64),
> {
    index.insert((normalized(streamer), recipient))
}

/// The index after `recipient` unsubscribed from `streamer`.
pub open spec fn without_pair(
    index: Set<(Seq<char>, u64)>,
    streamer: Seq<char>,
    recipient: u64,
) -> Set<(Seq<char>, u64)> {
    index.remove((normalized(streamer), recipient))
}

/// The index after `n` successive subscriptions of `recipient` to `streamer`.
pub open spec fn with_pair_times(
    index: Set<(Seq<char>, u64)>,
    streamer: Seq<char>,
    recipient: u64,
    n: nat,
) -> Set<(Seq<char>, u64)>
    decreases n,
{
    if n == 0 {
        index
    } else {
        with_pair(with_pair_times(index, streamer, recipient, (n - 1) as nat), streamer, recipient)
    }
}

/// How many of `n` successive subscriptions of `recipient` to `streamer`
/// report a new pair.
pub open spec fn new_among(
    index: Set<(Seq<char>, u64)>,
    streamer: Seq<char>,
    recipient: u64,
    n: nat,
) -> nat
    decreases n,
{
    if n == 0 {
        0
    } else {
        let earlier = new_among(index, streamer, recipient, (n - 1) as nat);
        if is_new(with_pair_times(index, streamer, recipient, (n - 1) as nat), streamer, recipient) {
            earlier + 1
        } else {
            earlier
        }
    }
}

/// The texts of a list of strings, in order.
pub open spec fn texts(list: Seq<String>) -> Seq<Seq<char>> {
    list.map_values(|s: String| s@)
}

/// The pair that a stored subscription stands for.
pub open spec fn pair_of(subscription: Subscription) -> (Seq<char>, u64) {
    (normalized(subscription.streamer@), subscription.telegram_user_id)
}

/// The pairs that a snapshot of the durable store stands for.
pub open spec fn pairs_of(all: Seq<Subscription>) -> Set<(Seq<char>, u64)> {
    held(all, |subscription: Subscription| pair_of(subscription))
}

/// The pair that an entry holds.
spec fn pair_in(entry: (String, u64)) -> (Seq<char>, u64) {
    (entry.0@, entry.1)
}

/// The pairs that a list of entries holds.
spec fn pairs_in(entries: Seq<(String, u64)>) -> Set<(Seq<char>, u64)> {
    held(entries, |entry: (String, u64)| pair_in(entry))
}

/// No pair occurs twice in `entries`.
spec fn distinct_pairs(entries: Seq<(String, u64)>) -> bool {
    forall|i: int, j: int|
        0 <= i < j < entries.len() ==> !((#[trigger] entries[i]).0@ == (#[trigger] entries[j]).0@
            && entries[i].1 == entries[j].1)
}

/// `str::to_ascii_lowercase`: the text with each ASCII capital letter replaced
/// by its lower-case form and every other character kept.
#[verifier::external_body]
fn normalize_login(login: &str) -> (key: String)
    ensures
        key@ == normalized(login@),
{
    login.to_ascii_lowercase()
}

/// The form under which the index keeps a streamer login, and under which
/// the durable store is to keep it.
pub fn streamer_login(username: &str) -> (login: String)
    ensures
        login@ == normalized(username@),
{
    normalize_login(username)
}

/// Where a pair that a list of entries holds stands in the list.
proof fn lemma_pair_position(entries: Seq<(String, u64)>, pair: (Seq<char>, u64)) -> (at: int)
    requires
        pairs_in(entries).contains(pair),
    ensures
        0 <= at < entries.len(),
        pair_in(entries[at]) == pair,
{
    lemma_held_position(entries, |entry: (String, u64)| pair_in(entry), pair)
}

/// The pair of every entry of a list is among the pairs that the list holds.
proof fn lemma_pair_held(entries: Seq<(String, u64)>, at: int)
    requires
        0 <= at < entries.len(),
    ensures
        pairs_in(entries).contains(pair_in(entries[at])),
{
    lemma_held_at(entries, |entry: (String, u64)| pair_in(entry), at);
}

proof fn lemma_pairs_remove(entries: Seq<(String, u64)>, at: int)
    requires
        distinct_pairs(entries),
        0 <= at < entries.len(),
    ensures
        pairs_in(entries.remove(at)) == pairs_in(entries).remove(pair_in(entries[at])),
        distinct_pairs(entries.remove(at)),
{
    let after = entries.remove(at);
    let gone = pair_in(entries[at]);
    assert forall|pair: (Seq<char>, u64)|
        pairs_in(after).contains(pair) == pairs_in(entries).remove(gone).contains(pair) by {
        if pairs_in(after).contains(pair) {
            let i = lemma_pair_position(after, pair);
            let k = if i < at {
                i
            } else {
                i + 1
            };
            assert(after[i] == entries[k]);
            lemma_pair_held(entries, k);
            if pair == gone {
                if k < at {
                    assert(!((#[trigger] entries[k]).0@ == (#[trigger] entries[at]).0@
                        && entries[k].1 == entries[at].1));
                } else {
                    assert(!((#[trigger] entries[at]).0@ == (#[trigger] entries[k]).0@
                        && entries[at].1 == entries[k].1));
                }
            }
        }
        if pairs_in(entries).contains(pair) && pair != gone {
            let k = lemma_pair_position(entries, pair);
            let i = if k < at {
                k
            } else {
                k - 1
            };
            assert(after[i] == entries[k]);
            lemma_pair_held(after, i);
        }
    }
    assert(pairs_in(after) =~= pairs_in(entries).remove(gone));
    assert forall|i: int, j: int| 0 <= i < j < after.len() implies !((#[trigger] after[i]).0@ == (
    #[trigger] after[j]).0@ && after[i].1 == after[j].1) by {
        let ki = if i < at {
            i
        } else {
            i + 1
        };
        let kj = if j < at {
            j
        } else {
            j + 1
        };
        assert(after[i] == entries[ki]);
        assert(after[j] == entries[kj]);
    }
}

/// Whether `wanted` is the text of one of the strings in `list`.
pub(crate) fn listed(list: &Vec<String>, wanted: &String) -> (found: bool)
    ensures
        found == texts(list@).contains(wanted@),
{
    let mut i: usize = 0;
    while i < list.len()
        invariant
            i <= list@.len(),
            forall|j: int| 0 <= j < i ==> (#[trigger] list@[j])@ != wanted@,
        decreases list@.len() - i,
    {
        if list[i] == *wanted {
            assert(texts(list@)[i as int] == wanted@);
            return true;
        }
        i += 1;
    }
    proof {
        if texts(list@).contains(wanted@) {
            let j = choose|j: int| 0 <= j < texts(list@).len() && texts(list@)[j] == wanted@;
            assert(list@[j]@ == wanted@);
        }
    }
    false
}

/// The index from streamer to recipients. It holds each (streamer, recipient)
/// pair at most once; a streamer without recipients is not in it.
pub struct SubscriptionManager {
    entries: Vec<(String, u64)>,
}

impl SubscriptionManager {
    /// The pairs (streamer, recipient) that the index holds, the streamer in
    /// its normalized form.
    pub closed spec fn view(&self) -> Set<(Seq<char>, u64)> {
        pairs_in(self.entries@)
    }

    /// The index is well formed: no pair is held twice.
    pub closed spec fn wf(&self) -> bool {
        distinct_pairs(self.entries@)
    }

    /// An empty index.
    pub fn new() -> (index: Self)
        ensures
            index.wf(),
            index@ == Set::<(Seq<char>, u64)>::empty(),
    {
        let index = SubscriptionManager { entries: Vec::new() };
        assert(index@ =~= Set::empty());
        index
    }

    /// Where the pair stands in the list, if it is there.
    fn position(&self, key: &String, recipient: u64) -> (at: Option<usize>)
        ensures
            at is Some <==> self@.contains((key@, recipient)),
            at matches Some(i) ==> i < self.entries@.len() && self.entries@[i as int].0@ == key@
                && self.entries@[i as int].1 == recipient,
    {
        let mut i: usize = 0;
        while i < self.entries.len()
            invariant
                i <= self.entries@.len(),
                forall|j: int|
                    0 <= j < i ==> !((#[trigger] self.entries@[j]).0@ == key@ && self.entries@[j].1
                        == recipient),
            decreases self.entries@.len() - i,
        {
            if self.entries[i].1 == recipient && self.entries[i].0 == *key {
                proof {
                    lemma_pair_held(self.entries@, i as int);
                }
                return Some(i);
            }
            i += 1;
        }
        proof {
            if self@.contains((key@, recipient)) {
                let j = lemma_pair_position(self.entries@, (key@, recipient));
                assert(false);
            }
        }
        None
    }

    /// Adds the recipient to the streamer's set. Returns `true` if and only if
    /// the pair is new: then, and only then, the caller writes it to the
    /// durable store.
    pub fn subscribe(&mut self, telegram_user_id: u64, username: String) -> (added: bool)
        requires
            old(self).wf(),
        ensures
            final(self).wf(),
            added == is_new(old(self)@, username@, telegram_user_id),
            final(self)@ == with_pair(old(self)@, username@, telegram_user_id),
    {
        let key = streamer_login(username.as_str());
        match self.position(&key, telegram_user_id) {
            Some(_) => {
                assert(self@.insert((key@, telegram_user_id)) =~= self@);
                false
            },
            None => {
                proof {
                    lemma_held_push(
                        self.entries@,
                        (key, telegram_user_id),
                        |entry: (String, u64)| pair_in(entry),
                    );
                    let after = self.entries@.push((key, telegram_user_id));
                    assert forall|i: int, j: int| 0 <= i < j < after.len() implies !((
                    #[trigger] after[i]).0@ == (#[trigger] after[j]).0@ && after[i].1
                        == after[j].1) by {
                        if j == after.len() - 1 {
                            assert(after[i] == self.entries@[i]);
                            lemma_pair_held(self.entries@, i);
                        } else {
                            assert(after[i] == self.entries@[i]);
                            assert(after[j] == self.entries@[j]);
                        }
                    }
                }
                self.entries.push((key, telegram_user_id));
                true
            },
        }
    }

    /// Removes the recipient from the streamer's set, if it is there. The
    /// caller deletes the pair from the durable store in either case.
    pub fn unsubscribe(&mut self, telegram_user_id: u64, username: String)
        requires
            old(self).wf(),
        ensures
            final(self).wf(),
            final(self)@ == without_pair(old(self)@, username@, telegram_user_id),
    {
        let key = streamer_login(username.as_str());
        match self.position(&key, telegram_user_id) {
            Some(at) => {
                proof {
                    lemma_pairs_remove(self.entries@, at as int);
                }
                let _ = self.entries.remove(at);
            },
            None => {
                assert(self@.remove((key@, telegram_user_id)) =~= self@);
            },
        }
    }

    /// Replaces whatever the index holds by a full snapshot of the durable store.
    pub fn load(&mut self, all: &Vec<Subscription>)
        ensures
            final(self).wf(),
            final(self)@ == pairs_of(all@),
    {
        self.entries = Vec::new();
        assert(self@ =~= Set::empty());
        assert(pairs_of(all@.subrange(0, 0)) =~= Set::empty());
        let mut i: usize = 0;
        while i < all.len()
            invariant
                i <= all@.len(),
                self.wf(),
                self@ == pairs_of(all@.subrange(0, i as int)),
            decreases all@.len() - i,
        {
            proof {
                lemma_held_push(
                    all@.subrange(0, i as int),
                    all@[i as int],
                    |subscription: Subscription| pair_of(subscription),
                );
                assert(all@.subrange(0, i as int).push(all@[i as int]) =~= all@.subrange(
                    0,
                    i + 1,
                ));
            }
            let _ = self.subscribe(all[i].telegram_user_id, all[i].streamer.clone());
            i += 1;
        }
        assert(all@.subrange(0, all@.len() as int) =~= all@);
    }

    /// The recipients of `streamer`, each once; none for a streamer that the
    /// index does not know.
    pub fn recipients_of(&self, streamer: &str) -> (found: Vec<u64>)
        requires
            self.wf(),
        ensures
            found@.no_duplicates(),
            found@.to_set() == recipients(self@, normalized(streamer@)),
    {
        let key = streamer_login(streamer);
        let mut found: Vec<u64> = Vec::new();
        let ghost mut from: Seq<int> = Seq::empty();
        let mut i: usize = 0;
        while i < self.entries.len()
            invariant
                self.wf(),
                i <= self.entries@.len(),
                from.len() == found@.len(),
                forall|j: int|
                    0 <= j < found@.len() ==> 0 <= (#[trigger] from[j]) < i && self.entries@[from[j]].0@
                        == key@ && self.entries@[from[j]].1 == found@[j],
                forall|j: int, k: int| 0 <= j < k < found@.len() ==> from[j] < from[k],
                forall|m: int|
                    0 <= m < i && (#[trigger] self.entries@[m]).0@ == key@ ==> found@.contains(
                        self.entries@[m].1,
                    ),
            decreases self.entries@.len() - i,
        {
            if self.entries[i].0 == key {
                let ghost before = found@;
                found.push(self.entries[i].1);
                proof {
                    from = from.push(i as int);
                    assert(found@[before.len() as int] == self.entries@[i as int].1);
                    assert forall|m: int|
                        0 <= m < i + 1 && (#[trigger] self.entries@[m]).0@
                            == key@ implies found@.contains(self.entries@[m].1) by {
                        if m < i {
                            let j = choose|j: int|
                                0 <= j < before.len() && before[j] == self.entries@[m].1;
                            assert(found@[j] == before[j]);
                        }
                    }
                }
            }
            i += 1;
        }
        proof {
            assert forall|j: int, k: int| 0 <= j < found@.len() && 0 <= k < found@.len() && j
                != k implies found@[j] != found@[k] by {
                if j < k {
                    assert(from[j] < from[k]);
                } else {
                    assert(from[k] < from[j]);
                }
            }
            assert forall|r: u64|
                found@.to_set().contains(r) == recipients(self@, key@).contains(r) by {
                if found@.to_set().contains(r) {
                    let j = choose|j: int| 0 <= j < found@.len() && found@[j] == r;
                    assert(self.entries@[from[j]].0@ == key@);
                    lemma_pair_held(self.entries@, from[j]);
                }
                if self@.contains((key@, r)) {
                    let m = lemma_pair_position(self.entries@, (key@, r));
                    assert(found@.contains(self.entries@[m].1));
                }
            }
            assert(found@.to_set() =~= recipients(self@, key@));
        }
        found
    }

    /// The streamers that have at least one recipient, each once.
    pub fn streamers_with_recipients(&self) -> (list: Vec<String>)
        ensures
            texts(list@).no_duplicates(),
            texts(list@).to_set() == streamers(self@),
    {
        let mut list: Vec<String> = Vec::new();
        let mut i: usize = 0;
        while i < self.entries.len()
            invariant
                i <= self.entries@.len(),
                texts(list@).no_duplicates(),
                forall|j: int|
                    0 <= j < list@.len() ==> exists|m: int|
                        0 <= m < i && (#[trigger] self.entries@[m]).0@ == (#[trigger] list@[j])@,
                forall|m: int|
                    0 <= m < i ==> texts(list@).contains((#[trigger] self.entries@[m]).0@),
            decreases self.entries@.len() - i,
        {
            if !listed(&list, &self.entries[i].0) {
                let ghost before = list@;
                list.push(self.entries[i].0.clone());
                proof {
                    assert(texts(list@) =~= texts(before).push(self.entries@[i as int].0@));
                    assert forall|m: int| 0 <= m < i + 1 implies texts(list@).contains(
                        (#[trigger] self.entries@[m]).0@,
                    ) by {
                        if m < i {
                            let j = choose|j: int|
                                0 <= j < texts(before).len() && texts(before)[j]
                                    == self.entries@[m].0@;
                            assert(texts(list@)[j] == self.entries@[m].0@);
                        } else {
                            assert(texts(list@)[before.len() as int] == self.entries@[m].0@);
                        }
                    }
                    assert forall|j: int| 0 <= j < list@.len() implies exists|m: int|
                        0 <= m < i + 1 && (#[trigger] self.entries@[m]).0@ == (
                        #[trigger] list@[j])@ by {
                        if j < before.len() {
                            assert(list@[j] == before[j]);
                            let m = choose|m: int|
                                0 <= m < i && (#[trigger] self.entries@[m]).0@ == before[j]@;
                            assert(self.entries@[m].0@ == list@[j]@);
                        } else {
                            assert(self.entries@[i as int].0@ == list@[j]@);
                        }
                    }
                }
            }
            i += 1;
        }
        proof {
            assert forall|s: Seq<char>|
                texts(list@).to_set().contains(s) == streamers(self@).contains(s) by {
                if texts(list@).to_set().contains(s) {
                    let j = choose|j: int| 0 <= j < texts(list@).len() && texts(list@)[j] == s;
                    let m = choose|m: int|
                        0 <= m < i && (#[trigger] self.entries@[m]).0@ == (#[trigger] list@[j])@;
                    lemma_pair_held(self.entries@, m);
                    assert(self@.contains((s, self.entries@[m].1)));
                }
                if streamers(self@).contains(s) {
                    let r = choose|r: u64| self@.contains((s, r));
                    let m = lemma_pair_position(self.entries@, (s, r));
                    assert(texts(list@).contains(self.entries@[m].0@));
                }
            }
            assert(texts(list@).to_set() =~= streamers(self@));
        }
        list
    }
}

/// A streamer is in the index exactly as long as it has a recipient: one
/// whose set of recipients is empty is absent.
pub proof fn lemma_streamer_has_recipient(index: Set<(Seq<char>, u64)>, streamer: Seq<char>)
    ensures
        streamers(index).contains(streamer) <==> recipients(index, streamer) != Set::<u64>::empty(),
{
    if streamers(index).contains(streamer) {
        let recipient = choose|recipient: u64| index.contains((streamer, recipient));
        assert(recipients(index, streamer).contains(recipient));
    } else {
        assert(recipients(index, streamer) =~= Set::empty());
    }
    if recipients(index, streamer) != Set::<u64>::empty() {
        assert(!(recipients(index, streamer) =~= Set::<u64>::empty()));
        let recipient = choose|recipient: u64| recipients(index, streamer).contains(recipient);
        assert(index.contains((streamer, recipient)));
    }
}

/// Subscribing a pair a second time changes nothing and reports no new pair:
/// the pair is written to the durable store once, and the recipient stands
/// once among the streamer's recipients, beside those that were there before.
pub proof fn lemma_subscribe_is_idempotent(
    index: Set<(Seq<char>, u64)>,
    streamer: Seq<char>,
    recipient: u64,
)
    ensures
        !is_new(with_pair(index, streamer, recipient), streamer, recipient),
        with_pair(with_pair(index, streamer, recipient), streamer, recipient) == with_pair(
            index,
            streamer,
            recipient,
        ),
        recipients(
            with_pair(with_pair(index, streamer, recipient), streamer, recipient),
            normalized(streamer),
        ) == recipients(index, normalized(streamer)).insert(recipient),
{
    let once = with_pair(index, streamer, recipient);
    assert(with_pair(once, streamer, recipient) =~= once);
    assert(recipients(once, normalized(streamer)) =~= recipients(
        index,
        normalized(streamer),
    ).insert(recipient));
}

/// Of any number of successive subscriptions of one pair, exactly one reports
/// a new pair if the index lacked the pair, and none otherwise. Callers that
/// race for the same pair are served one after the other, in some order.
pub proof fn lemma_one_subscription_is_new(
    index: Set<(Seq<char>, u64)>,
    streamer: Seq<char>,
    recipient: u64,
    n: nat,
)
    ensures
        n >= 1 ==> !is_new(with_pair_times(index, streamer, recipient, n), streamer, recipient),
        new_among(index, streamer, recipient, n) == if n >= 1 && is_new(index, streamer, recipient) {
            1nat
        } else {
            0nat
        },
    decreases n,
{
    if n >= 1 {
        lemma_one_subscription_is_new(index, streamer, recipient, (n - 1) as nat);
    }
}

} // verus!
