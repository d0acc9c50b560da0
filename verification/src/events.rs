//! What the registry hands to observers after an operation on the supply of
//! a token or on its clawback flag. Publishing is left to the host, which
//! adds its own time.

use crate::types::Address;
use vstd::prelude::*;

verus! {

/// An event as a value of the model.
pub enum Report {
    /// A holder has burned from the supply.
    Burn { token: Seq<char>, from: Seq<char>, amount: i128 },
    /// The creator has burned from the balance of a holder.
    AdminBurn { token: Seq<char>, admin: Seq<char>, from: Seq<char>, amount: i128 },
    /// The creator has allowed or forbidden burns by the creator.
    Clawback { token: Seq<char>, admin: Seq<char>, enabled: bool },
}

impl Report {
    /// The topic under which the event is published.
    pub open spec fn topic(self) -> Seq<char> {
        match self {
            Report::Burn { .. } => "burn"@,
            Report::AdminBurn { .. } => "adm_burn"@,
            Report::Clawback { .. } => "clawback"@,
        }
    }

    /// The token the event is about.
    pub open spec fn token(self) -> Seq<char> {
        match self {
            Report::Burn { token, .. } => token,
            Report::AdminBurn { token, .. } => token,
            Report::Clawback { token, .. } => token,
        }
    }
}

/// What an operation has done, to be published.
#[derive(Debug, PartialEq, Eq)]
pub enum Event {
    /// A holder has burned from the supply.
    Burn { token: Address, from: Address, amount: i128 },
    /// The creator has burned from the balance of a holder.
    AdminBurn { token: Address, admin: Address, from: Address, amount: i128 },
    /// The creator has allowed or forbidden burns by the creator.
    Clawback { token: Address, admin: Address, enabled: bool },
}

impl View for Event {
    type V = Report;

    open spec fn view(&self) -> Report {
        match self {
            Event::Burn { token, from, amount } => Report::Burn {
                token: token@,
                from: from@,
                amount: *amount,
            },
            Event::AdminBurn { token, admin, from, amount } => Report::AdminBurn {
                token: token@,
                admin: admin@,
                from: from@,
                amount: *amount,
            },
            Event::Clawback { token, admin, enabled } => Report::Clawback {
                token: token@,
                admin: admin@,
                enabled: *enabled,
            },
        }
    }
}

impl Clone for Event {
    fn clone(&self) -> (copy: Event)
        ensures
            copy@ == self@,
    {
        match self {
            Event::Burn { token, from, amount } => Event::Burn {
                token: token.clone(),
                from: from.clone(),
                amount: *amount,
            },
            Event::AdminBurn { token, admin, from, amount } => Event::AdminBurn {
                token: token.clone(),
                admin: admin.clone(),
                from: from.clone(),
                amount: *amount,
            },
            Event::Clawback { token, admin, enabled } => Event::Clawback {
                token: token.clone(),
                admin: admin.clone(),
                enabled: *enabled,
            },
        }
    }
}

impl Event {
    /// The topic under which the event is published.
    pub fn topic(&self) -> (topic: &'static str)
        ensures
            topic@ == self@.topic(),
    {
        match self {
            Event::Burn { .. } => "burn",
            Event::AdminBurn { .. } => "adm_burn",
            Event::Clawback { .. } => "clawback",
        }
    }

    /// The token the event is about.
    pub fn token(&self) -> (token: &Address)
        ensures
            token@ == self@.token(),
    {
        match self {
            Event::Burn { token, .. } => token,
            Event::AdminBurn { token, .. } => token,
            Event::Clawback { token, .. } => token,
        }
    }
}

/// Events of different kinds are published under different topics: a burn
/// by the creator can be told from a burn by a holder.
pub proof fn lemma_topics_tell_kinds_apart(first: Report, second: Report)
    requires
        first.topic() == second.topic(),
    ensures
        first is Burn <==> second is Burn,
        first is AdminBurn <==> second is AdminBurn,
        first is Clawback <==> second is Clawback,
{
    reveal_strlit("burn");
    reveal_strlit("adm_burn");
    reveal_strlit("clawback");
    assert("burn"@.len() == 4);
    assert("adm_burn"@.len() == 8);
    assert("adm_burn"@[0] == 'a');
    assert("clawback"@.len() == 8);
    assert("clawback"@[0] == 'c');
}

} // verus!
