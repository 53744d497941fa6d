//! How a request to herdr can end.

use vstd::prelude::*;
use vstd::string::*;

use crate::text;

verus! {

/// A request that herdr, or the way to it, answered with an error.
#[derive(Debug)]
pub struct Failure {
    /// herdr's own error code, where herdr itself refused.
    pub code: Option<String>,
    /// The failure lies below herdr's interface: the machine is out of reach.
    pub transport: bool,
    pub message: String,
}

impl Failure {
    /// herdr refused with this code.
    pub open spec fn coded(self, code: Seq<char>) -> bool {
        self.code matches Some(c) && c@ == code
    }

    /// Whether herdr refused with this code.
    pub fn has_code(&self, code: &str) -> (b: bool)
        ensures
            b == self.coded(code@),
    {
        match &self.code {
            Some(c) => text::same_text(c.as_str(), code),
            None => false,
        }
    }
}

/// What became of a request.
#[derive(Debug)]
pub enum Reply<T> {
    Answer(T),
    Failed(Failure),
    /// No answer within the time a request may take.
    TimedOut,
}

/// One link in the chain of causes of an error.
#[derive(Debug, Clone, Copy, PartialEq, Eq, Structural)]
pub enum Cause {
    /// A request got no answer in time.
    TimedOut,
    /// A request failed; below herdr's interface, or as herdr's own answer.
    Call { transport: bool },
    /// Anything else: the store, a row that moved on.
    Other,
}

impl Cause {
    /// The cause says that the machine is gone.
    pub open spec fn outage(self) -> bool {
        match self {
            Cause::TimedOut => true,
            Cause::Call { transport } => transport,
            Cause::Other => false,
        }
    }
}

/// One of the causes says that the machine is gone.
pub open spec fn outage_in(chain: Seq<Cause>) -> bool {
    exists|i: int| 0 <= i < chain.len() && (#[trigger] chain[i]).outage()
}

/// Whether an error from the connected loop means the machine is gone. Only a
/// transport failure or a request that never answered does; a herdr API error
/// or a local store error leaves the machine reachable, and reporting it as
/// `machine.lost` would announce an outage that is not happening.
pub fn is_outage(chain: &Vec<Cause>) -> (b: bool)
    ensures
        b == outage_in(chain@),
{
    let mut i: usize = 0;
    while i < chain.len()
        invariant
            i <= chain.len(),
            forall|k: int| 0 <= k < i ==> !(#[trigger] chain@[k]).outage(),
        decreases chain.len() - i,
    {
        let out = match chain[i] {
            Cause::TimedOut => true,
            Cause::Call { transport } => transport,
            Cause::Other => false,
        };
        if out {
            assert(chain@[i as int].outage());
            return true;
        }
        i = i + 1;
    }
    false
}

/// A machine counts as gone exactly if somewhere in the chain a request failed below
/// herdr's interface or got no answer; what herdr itself answered, and the store, do not
/// count.
pub proof fn only_the_way_to_the_machine_is_an_outage(chain: &Vec<Cause>, b: bool)
    requires
        call_ensures(is_outage, (chain,), b),
    ensures
        !b <==> forall|i: int|
            0 <= i < chain@.len() ==> (#[trigger] chain@[i]) !is TimedOut && !(chain@[i] is Call
                && chain@[i]->transport),
{
    let all = chain@;
    if b {
        let i = choose|i: int| 0 <= i < all.len() && (#[trigger] all[i]).outage();
        assert(all[i] is TimedOut || all[i]->transport);
    } else {
        assert forall|i: int| 0 <= i < all.len() implies (#[trigger] all[i]) !is TimedOut && !(
        all[i] is Call && all[i]->transport) by {
            assert(!all[i].outage());
        }
    }
}

} // verus!
