//! What the durable store holds of a subscription, and the steps of its
//! operations that need no access to the store.

use vstd::prelude::*;

verus! {

/// One stored subscription: a recipient who follows a streamer.
#[derive(Clone, Debug, PartialEq, Eq)]
pub struct Subscription {
    /// The store's identity of the record, as the hexadecimal text of its object id.
    pub id: String,
    pub streamer: String,
    pub telegram_user_id: u64,
}

/// The durable store of subscriptions.
pub struct SubscriptionRepository {}

/// What `get_or_create` does after it looked the pair up.
#[derive(Clone, Debug, PartialEq, Eq)]
pub enum Creation {
    /// The store holds the pair: this is its record.
    Found(Subscription),
    /// The store lacks the pair: a record with these members is to be inserted.
    Insert { streamer: String, telegram_user_id: i64 },
}

/// The number under which the store keeps a recipient: the same 64 bits, read
/// as a signed number.
pub open spec fn stored(telegram_user_id: u64) -> i64 {
    if telegram_user_id <= i64::MAX {
        telegram_user_id as i64
    } else {
        (telegram_user_id - 0x1_0000_0000_0000_0000) as i64
    }
}

/// The recipient that the store keeps under `number`: the same 64 bits, read
/// as an unsigned number.
pub open spec fn recipient(number: i64) -> u64 {
    if number >= 0 {
        number as u64
    } else {
        (number + 0x1_0000_0000_0000_0000) as u64
    }
}

impl SubscriptionRepository {
    /// The number under which the store keeps the recipient.
    pub fn stored_user_id(telegram_user_id: u64) -> (number: i64)
        ensures
            number == stored(telegram_user_id),
    {
        if telegram_user_id <= 0x7fff_ffff_ffff_ffff {
            telegram_user_id as i64
        } else {
            let below: u64 = telegram_user_id - 0x8000_0000_0000_0000;
            (below as i64) + i64::MIN
        }
    }

    /// The recipient that the store keeps under `number`.
    pub fn telegram_user_id(number: i64) -> (id: u64)
        ensures
            id == recipient(number),
    {
        if number >= 0 {
            number as u64
        } else {
            let above: i64 = number - i64::MIN;
            (above as u64) + 0x8000_0000_0000_0000
        }
    }

    /// The step that follows the lookup of a pair: `existing` is the record
    /// that the lookup gave, if it gave one.
    pub fn get_or_create(
        existing: Option<Subscription>,
        streamer: String,
        telegram_user_id: u64,
    ) -> (step: Creation)
        ensures
            match existing {
                Some(found) => step == Creation::Found(found),
                None => step matches Creation::Insert { streamer: s, telegram_user_id: n } && s
                    == streamer && n == stored(telegram_user_id),
            },
    {
        match existing {
            Some(found) => Creation::Found(found),
            None => Creation::Insert {
                streamer,
                telegram_user_id: Self::stored_user_id(telegram_user_id),
            },
        }
    }
}

impl Subscription {
    /// The subscription that a stored record stands for: `None` where the
    /// record lacks one of the three members.
    pub fn from(
        id: Option<String>,
        streamer: Option<String>,
        telegram_user_id: Option<i64>,
    ) -> (subscription: Option<Subscription>)
        ensures
            match (id, streamer, telegram_user_id) {
                (Some(i), Some(s), Some(n)) => subscription matches Some(found) && found.id == i
                    && found.streamer == s && found.telegram_user_id == recipient(n),
                _ => subscription is None,
            },
    {
        match id {
            Some(id) => match streamer {
                Some(streamer) => match telegram_user_id {
                    Some(number) => Some(
                        Subscription {
                            id,
                            streamer,
                            telegram_user_id: SubscriptionRepository::telegram_user_id(number),
                        },
                    ),
                    None => None,
                },
                None => None,
            },
            None => None,
        }
    }
}

/// A recipient comes back from the store as it went in.
pub proof fn lemma_stored_recipient_round_trip(telegram_user_id: u64)
    ensures
        recipient(stored(telegram_user_id)) == telegram_user_id,
{
}

} // verus!
