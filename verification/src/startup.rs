//! Reaching the database when the engine starts.
//!
//! An attempt is to connect and then to create the vector index. A failed attempt is followed by
//! a pause; after the last pause the engine gives up.

use vstd::prelude::*;
use crate::cypher;
use crate::statement::{Statement, StatementView};

verus! {

/// How many attempts are made.
pub const ATTEMPTS: u32 = 10;

/// Seconds of pause after a failed attempt.
pub const PAUSE_SECONDS: u64 = 5;

/// Where the database is looked for unless a setting says otherwise.
pub const DEFAULT_NEO4J_URI: &'static str = "127.0.0.1:7687";

/// Where the engine listens.
pub const LISTEN_ADDRESS: &'static str = "0.0.0.0:50052";

/// Where the database is looked for.
pub fn neo4j_uri(setting: Option<String>) -> (uri: String)
    ensures
        uri@ == match setting {
            Some(given) => given@,
            None => DEFAULT_NEO4J_URI@,
        },
{
    match setting {
        Some(given) => given,
        None => DEFAULT_NEO4J_URI.to_owned(),
    }
}

/// The creation of the vector index.
pub fn create_index() -> (statement: Statement)
    ensures
        statement@ == (StatementView { text: cypher::CREATE_INDEX@, params: seq![] }),
{
    Statement::new(cypher::CREATE_INDEX)
}

/// What the engine is about to do while it starts.
#[derive(Clone, Copy, PartialEq, Eq, Structural, Debug)]
pub enum Startup {
    /// Connect to the database.
    Connect { attempt: u32 },
    /// Create the index over the connection just made.
    Index { attempt: u32 },
    /// Pause before the next attempt.
    Pause { attempt: u32 },
    /// Serve.
    Ready,
    /// Stop.
    GiveUp,
}

impl Startup {
    /// Whether the attempt is one of those that are made.
    pub open spec fn wf(self) -> bool {
        match self {
            Startup::Connect { attempt } => 1 <= attempt <= ATTEMPTS,
            Startup::Index { attempt } => 1 <= attempt <= ATTEMPTS,
            Startup::Pause { attempt } => 1 <= attempt <= ATTEMPTS,
            _ => true,
        }
    }

    /// What comes after it, given whether it succeeded.
    pub open spec fn spec_next(self, succeeded: bool) -> Startup {
        match self {
            Startup::Connect { attempt } => if succeeded {
                Startup::Index { attempt }
            } else {
                Startup::Pause { attempt }
            },
            Startup::Index { attempt } => if succeeded {
                Startup::Ready
            } else {
                Startup::Pause { attempt }
            },
            Startup::Pause { attempt } => if attempt < ATTEMPTS {
                Startup::Connect { attempt: (attempt + 1) as u32 }
            } else {
                Startup::GiveUp
            },
            Startup::Ready => Startup::Ready,
            Startup::GiveUp => Startup::GiveUp,
        }
    }

    /// The most steps that can still be taken.
    pub open spec fn steps_left(self) -> int {
        match self {
            Startup::Connect { attempt } => 3 * (ATTEMPTS - attempt) + 3,
            Startup::Index { attempt } => 3 * (ATTEMPTS - attempt) + 2,
            Startup::Pause { attempt } => 3 * (ATTEMPTS - attempt) + 1,
            _ => 0,
        }
    }

    /// The first thing to do.
    pub fn first() -> (step: Startup)
        ensures
            step == (Startup::Connect { attempt: 1 }),
            step.wf(),
    {
        Startup::Connect { attempt: 1 }
    }

    /// What to do next, given whether the last thing succeeded. A pause always succeeds.
    pub fn next(self, succeeded: bool) -> (step: Startup)
        ensures
            step == self.spec_next(succeeded),
            self.wf() ==> step.wf(),
    {
        match self {
            Startup::Connect { attempt } => if succeeded {
                Startup::Index { attempt }
            } else {
                Startup::Pause { attempt }
            },
            Startup::Index { attempt } => if succeeded {
                Startup::Ready
            } else {
                Startup::Pause { attempt }
            },
            Startup::Pause { attempt } => if attempt < ATTEMPTS {
                Startup::Connect { attempt: attempt + 1 }
            } else {
                Startup::GiveUp
            },
            Startup::Ready => Startup::Ready,
            Startup::GiveUp => Startup::GiveUp,
        }
    }
}

/// The step after a sequence of outcomes.
pub open spec fn after(outcomes: Seq<bool>) -> Startup
    decreases outcomes.len(),
{
    if outcomes.len() == 0 {
        Startup::Connect { attempt: 1 }
    } else {
        after(outcomes.drop_last()).spec_next(outcomes.last())
    }
}

/// Starting comes to an end: after thirty steps at the latest the engine serves or has given up,
/// and it stays so.
pub proof fn law_startup_ends(outcomes: Seq<bool>)
    ensures
        after(outcomes).wf(),
        after(outcomes).steps_left() >= 0,
        after(outcomes).steps_left() == 0 || after(outcomes).steps_left() + outcomes.len() <= 30,
        outcomes.len() >= 30 ==> after(outcomes) is Ready || after(outcomes) is GiveUp,
    decreases outcomes.len(),
{
    if outcomes.len() > 0 {
        law_startup_ends(outcomes.drop_last());
    }
}

/// The engine serves only after a connection and then the index have succeeded.
pub proof fn law_ready_only_after_connect_and_index(outcomes: Seq<bool>)
    requires
        outcomes.len() > 0,
        after(outcomes) is Ready,
        !(after(outcomes.drop_last()) is Ready),
    ensures
        outcomes.len() >= 2,
        outcomes.last(),
        outcomes.drop_last().last(),
        after(outcomes.drop_last()) is Index,
        after(outcomes.drop_last().drop_last()) is Connect,
{
    assert(after(outcomes.drop_last()) is Index);
    if outcomes.len() == 1 {
        assert(after(outcomes.drop_last()) is Connect);
    }
}

/// The engine gives up only after the last attempt has failed.
pub proof fn law_gives_up_only_after_the_last_attempt(outcomes: Seq<bool>)
    requires
        outcomes.len() > 0,
        after(outcomes) is GiveUp,
        !(after(outcomes.drop_last()) is GiveUp),
    ensures
        after(outcomes.drop_last()) == (Startup::Pause { attempt: ATTEMPTS }),
{
    law_startup_ends(outcomes.drop_last());
}

/// How many connections have been tried after a sequence of outcomes.
pub open spec fn connections_tried(outcomes: Seq<bool>) -> int
    decreases outcomes.len(),
{
    if outcomes.len() == 0 {
        0
    } else {
        connections_tried(outcomes.drop_last()) + if after(outcomes.drop_last()) is Connect {
            1int
        } else {
            0
        }
    }
}

/// The number of an attempt is the number of connections tried with it, so no more than ten are
/// tried, and giving up takes all ten.
pub proof fn law_attempts_are_counted(outcomes: Seq<bool>)
    ensures
        match after(outcomes) {
            Startup::Connect { attempt } => connections_tried(outcomes) == attempt - 1,
            Startup::Index { attempt } => connections_tried(outcomes) == attempt,
            Startup::Pause { attempt } => connections_tried(outcomes) == attempt,
            Startup::Ready => 1 <= connections_tried(outcomes) <= ATTEMPTS,
            Startup::GiveUp => connections_tried(outcomes) == ATTEMPTS,
        },
    decreases outcomes.len(),
{
    if outcomes.len() > 0 {
        law_attempts_are_counted(outcomes.drop_last());
        law_startup_ends(outcomes.drop_last());
    }
}

/// A failed connection or index is followed by a pause, and a pause by the next attempt while there
/// is one left; a connection that succeeds is followed by the index.
pub proof fn law_failed_attempt_is_followed_by_a_pause(
    outcomes: Seq<bool>,
    attempt: u32,
    ignored: bool,
)
    requires
        1 <= attempt <= 10,
    ensures
        after(outcomes) == (Startup::Connect { attempt }) ==> {
            &&& after(outcomes.push(false)) == (Startup::Pause { attempt })
            &&& after(outcomes.push(true)) == (Startup::Index { attempt })
        },
        after(outcomes) == (Startup::Index { attempt }) ==> {
            &&& after(outcomes.push(false)) == (Startup::Pause { attempt })
            &&& after(outcomes.push(true)) is Ready
        },
        after(outcomes) == (Startup::Pause { attempt }) && attempt < 10 ==> after(
            outcomes.push(ignored),
        ) == (Startup::Connect { attempt: (attempt + 1) as u32 }),
        after(outcomes) == (Startup::Pause { attempt }) && attempt == 10 ==> after(
            outcomes.push(ignored),
        ) is GiveUp,
{
    assert(outcomes.push(false).drop_last() =~= outcomes);
    assert(outcomes.push(true).drop_last() =~= outcomes);
    assert(outcomes.push(ignored).drop_last() =~= outcomes);
}

/// Ten attempts, five seconds apart, and the addresses.
pub proof fn law_startup_settings()
    ensures
        ATTEMPTS == 10,
        PAUSE_SECONDS == 5,
        DEFAULT_NEO4J_URI@ == "127.0.0.1:7687"@,
        LISTEN_ADDRESS@ == "0.0.0.0:50052"@,
{
}

} // verus!
