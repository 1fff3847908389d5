//! Voters and the access decision manager.

use vstd::prelude::*;

use crate::security::error::SecurityError;
use crate::security::user::{InMemoryUser, TokenInterface, UserInterface, UsernamePasswordToken};
use crate::text::{chars_equal, chars_of, string_views};

verus! {

/// Affirmative / deny / abstain vote.
#[derive(Debug, Clone, Copy, PartialEq, Eq, Structural)]
pub enum Vote {
    /// Grant access.
    Grant,
    /// Deny access.
    Deny,
    /// No opinion.
    Abstain,
}

/// Decides access for a token against a subject; applications implement it.
pub trait Voter {
    /// Whether this voter may answer `v` for `token` on `subject`.
    ///
    /// The default admits every vote: a voter that keeps it claims nothing
    /// of how it votes.
    closed spec fn may_vote(&self, token: UsernamePasswordToken, subject: Seq<char>, v: Vote) -> bool {
        true
    }

    /// Votes for `token` on `subject`.
    fn vote(&self, token: &UsernamePasswordToken, subject: &str) -> (r: Vote)
        ensures
            self.may_vote(*token, subject@, r),
    ;
}

impl Voter for Box<dyn Voter> {
    open spec fn may_vote(&self, token: UsernamePasswordToken, subject: Seq<char>, v: Vote) -> bool {
        (**self).may_vote(token, subject, v)
    }

    fn vote(&self, token: &UsernamePasswordToken, subject: &str) -> (r: Vote) {
        (**self).vote(token, subject)
    }
}

/// Whether some vote of `votes` is `v`.
pub open spec fn has_vote(votes: Seq<Vote>, v: Vote) -> bool {
    exists|i: int| 0 <= i < votes.len() && votes[i] == v
}

/// The decision for `votes` on `subject`: granted when any voter grants;
/// denied naming the subject when there are voters but none grants; denied
/// for want of voters otherwise.
pub open spec fn decision_holds(r: Result<(), SecurityError>, votes: Seq<Vote>, subject: Seq<char>) -> bool {
    if has_vote(votes, Vote::Grant) {
        r is Ok
    } else if votes.len() > 0 {
        r matches Err(SecurityError::AccessDenied { message }) && message@ == "subject `"@ + subject + "` denied"@
    } else {
        r matches Err(SecurityError::AccessDenied { message }) && message@ == "no voters registered"@
    }
}

/// The decision for the collected `votes` on `subject`.
pub fn decide_votes(votes: &[Vote], subject: &str) -> (r: Result<(), SecurityError>)
    ensures
        decision_holds(r, votes@, subject@),
{
    let mut granted = false;
    let mut i: usize = 0;
    while i < votes.len()
        invariant
            0 <= i <= votes@.len(),
            granted == exists|j: int| 0 <= j < i && votes@[j] == Vote::Grant,
        decreases votes@.len() - i,
    {
        if votes[i] == Vote::Grant {
            granted = true;
        }
        i = i + 1;
    }
    if granted {
        return Ok(());
    }
    if votes.len() > 0 {
        let mut message = String::new();
        message.append("subject `");
        message.append(subject);
        message.append("` denied");
        return Err(SecurityError::AccessDenied { message });
    }
    Err(SecurityError::AccessDenied { message: "no voters registered".to_owned() })
}

/// Whether `votes` are votes that `voters` may give, one each, in order,
/// for `token` on `subject`.
pub open spec fn cast_by<V: Voter>(voters: Seq<V>, token: UsernamePasswordToken, subject: Seq<char>, votes: Seq<Vote>) -> bool {
    &&& votes.len() == voters.len()
    &&& forall|i: int| 0 <= i < votes.len() ==> #[trigger] voters[i].may_vote(token, subject, votes[i])
}

/// Collects voters and applies an affirmative strategy: any grant wins.
pub struct AccessDecisionManager<V> {
    voters: Vec<V>,
}

impl<V: Voter> AccessDecisionManager<V> {
    /// Registered voters, in order.
    pub closed spec fn voters(&self) -> Seq<V> {
        self.voters@
    }

    /// Empty manager (denies everything).
    pub fn new() -> (r: Self)
        ensures
            r.voters().len() == 0,
    {
        AccessDecisionManager { voters: Vec::new() }
    }

    /// Registers a voter.
    pub fn add_voter(&mut self, voter: V)
        ensures
            final(self).voters() == old(self).voters().push(voter),
    {
        self.voters.push(voter);
    }

    /// `Ok` when some voter grants `token` access to `subject`: the
    /// decision for the votes that the registered voters give, one each, in
    /// order.
    pub fn decide(&self, token: &UsernamePasswordToken, subject: &str) -> (r: Result<(), SecurityError>)
        ensures
            exists|votes: Seq<Vote>| #[trigger] cast_by(self.voters(), *token, subject@, votes) && decision_holds(r, votes, subject@),
    {
        let mut votes: Vec<Vote> = Vec::new();
        let mut i: usize = 0;
        while i < self.voters.len()
            invariant
                0 <= i <= self.voters@.len(),
                votes@.len() == i,
                forall|j: int| 0 <= j < i ==> (#[trigger] self.voters@[j]).may_vote(*token, subject@, votes@[j]),
            decreases self.voters@.len() - i,
        {
            let v = self.voters[i].vote(token, subject);
            votes.push(v);
            i = i + 1;
        }
        let r = decide_votes(votes.as_slice(), subject);
        assert(cast_by(self.voters(), *token, subject@, votes@));
        r
    }
}

/// Whether `roles` holds `role`.
pub open spec fn holds_role(roles: Seq<Seq<char>>, role: Seq<char>) -> bool {
    exists|i: int| 0 <= i < roles.len() && roles[i] == role
}

/// The vote of a role voter for `role` on `voted_subject`.
pub open spec fn role_vote(role: Seq<char>, voted_subject: Seq<char>, token: UsernamePasswordToken, subject: Seq<char>) -> Vote {
    if subject != voted_subject {
        Vote::Abstain
    } else {
        match token.spec_user() {
            None => Vote::Deny,
            Some(u) => if holds_role(u.spec_roles(), role) {
                Vote::Grant
            } else {
                Vote::Deny
            },
        }
    }
}

/// Grants `subject` when the token's user holds `role`; abstains on other subjects.
#[derive(Debug, Clone)]
pub struct RoleVoter {
    role: String,
    subject: String,
}

impl RoleVoter {
    /// Role required.
    pub closed spec fn spec_role(&self) -> Seq<char> {
        self.role@
    }

    /// Subject voted on.
    pub closed spec fn spec_subject(&self) -> Seq<char> {
        self.subject@
    }

    /// A voter that grants `subject` to users with `role`.
    pub fn new(role: &str, subject: &str) -> (r: Self)
        ensures
            r.spec_role() == role@,
            r.spec_subject() == subject@,
    {
        RoleVoter { role: role.to_owned(), subject: subject.to_owned() }
    }
}

impl Voter for RoleVoter {
    open spec fn may_vote(&self, token: UsernamePasswordToken, subject: Seq<char>, v: Vote) -> bool {
        v == role_vote(self.spec_role(), self.spec_subject(), token, subject)
    }

    fn vote(&self, token: &UsernamePasswordToken, subject: &str) -> (r: Vote)
        ensures
            r == role_vote(self.spec_role(), self.spec_subject(), *token, subject@),
    {
        let s = chars_of(subject);
        let mine = chars_of(self.subject.as_str());
        if !chars_equal(s.as_slice(), mine.as_slice()) {
            return Vote::Abstain;
        }
        let user = match token.user() {
            Some(u) => u,
            None => return Vote::Deny,
        };
        let roles = user.roles();
        let wanted = chars_of(self.role.as_str());
        let mut i: usize = 0;
        while i < roles.len()
            invariant
                0 <= i <= roles@.len(),
                wanted@ == self.role@,
                string_views(roles@) == user.spec_roles(),
                token.spec_user() == Some(*user),
                subject@ == self.subject@,
                forall|j: int| 0 <= j < i ==> (#[trigger] roles@[j])@ != self.role@,
            decreases roles@.len() - i,
        {
            let have = chars_of(roles[i].as_str());
            if chars_equal(have.as_slice(), wanted.as_slice()) {
                assert(user.spec_roles()[i as int] == self.role@);
                return Vote::Grant;
            }
            i = i + 1;
        }
        proof {
            if holds_role(user.spec_roles(), self.role@) {
                let j = choose|j: int| 0 <= j < user.spec_roles().len() && user.spec_roles()[j] == self.role@;
                assert(roles@[j]@ == self.role@);
            }
        }
        Vote::Deny
    }
}

} // verus!
