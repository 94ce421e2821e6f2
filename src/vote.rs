//! The vote record, its decoding from the fields of a notification, and the
//! check of the credential that came with it.

use crate::decimal::{decimal_u64, parse_id};
use crate::query::{parse_query, query_map};
use crate::query_map::QueryMap;
use vstd::prelude::*;

verus! {

/// Why a notification could not be decoded into a [`Vote`].
#[derive(Clone, Copy, Debug, PartialEq, Eq, Structural)]
pub enum DecodeError {
    /// A required field is missing, or both receiver fields are present.
    MalformedPayload,
    /// A receiver or voter identifier is not an unsigned 64-bit decimal.
    InvalidId,
}

/// The fields of a vote notification as they arrive, each `None` when absent.
#[derive(Clone, Debug)]
pub struct Payload {
    /// `bot`: the bot that was voted for.
    pub bot: Option<String>,
    /// `guild`: the server that was voted for.
    pub guild: Option<String>,
    /// `user`: the voter.
    pub user: Option<String>,
    /// `type`: the kind of vote; `test` for a test sent by the owner.
    pub vote_type: Option<String>,
    /// `isWeekend`: whether the weekend multiplier was active.
    pub is_weekend: Option<bool>,
    /// `query`: the query string of the vote page.
    pub query: Option<String>,
}

/// A dispatched vote for a bot or a server.
#[derive(Clone, Debug)]
pub struct Vote {
    /// The bot or server that received the vote.
    pub receiver_id: u64,
    /// The user who voted.
    pub voter_id: u64,
    /// Whether this vote is a test sent by the owner.
    pub is_test: bool,
    /// Whether the weekend multiplier was active (a single vote counts as two).
    pub is_weekend: bool,
    /// The query string parameters found on the vote page.
    pub query: QueryMap,
}

/// The mathematical content of a [`Vote`].
pub struct VoteModel {
    pub receiver_id: u64,
    pub voter_id: u64,
    pub is_test: bool,
    pub is_weekend: bool,
    pub query: Map<Seq<char>, Seq<char>>,
}

impl View for Vote {
    type V = VoteModel;

    open spec fn view(&self) -> VoteModel {
        VoteModel {
            receiver_id: self.receiver_id,
            voter_id: self.voter_id,
            is_test: self.is_test,
            is_weekend: self.is_weekend,
            query: self.query@,
        }
    }
}

/// The text `test`.
pub open spec fn test_type() -> Seq<char> {
    seq!['t', 'e', 's', 't']
}

/// The receiver identifier's text: the one of `bot` and `guild` that is
/// present; `None` when neither or both are.
pub open spec fn receiver_text(p: Payload) -> Option<Seq<char>> {
    match (p.bot, p.guild) {
        (Some(b), None) => Some(b@),
        (None, Some(g)) => Some(g@),
        _ => None,
    }
}

/// The payload has the fields that a vote needs.
pub open spec fn well_shaped(p: Payload) -> bool {
    &&& receiver_text(p) is Some
    &&& p.user is Some
    &&& p.vote_type is Some
}

/// Both identifiers of a well-shaped payload read as unsigned 64-bit decimals.
pub open spec fn ids_valid(p: Payload) -> bool {
    &&& decimal_u64(receiver_text(p)->0) is Some
    &&& decimal_u64(p.user->0@) is Some
}

/// What a payload decodes to.
pub open spec fn decoded_vote(p: Payload) -> Result<VoteModel, DecodeError> {
    if !well_shaped(p) {
        Err(DecodeError::MalformedPayload)
    } else if !ids_valid(p) {
        Err(DecodeError::InvalidId)
    } else {
        Ok(
            VoteModel {
                receiver_id: decimal_u64(receiver_text(p)->0)->0,
                voter_id: decimal_u64(p.user->0@)->0,
                is_test: p.vote_type->0@ == test_type(),
                is_weekend: match p.is_weekend {
                    Some(b) => b,
                    None => false,
                },
                query: match p.query {
                    Some(q) => query_map(q@),
                    None => Map::empty(),
                },
            },
        )
    }
}

/// Whether a vote's `type` marks it as a test: exactly the text `test`.
pub fn decode_is_test(s: &str) -> (r: bool)
    ensures
        r == (s@ == test_type()),
{
    let expected = "test".to_owned();
    proof {
        reveal_strlit("test");
        assert(expected@ =~= test_type());
    }
    s.to_owned() == expected
}

impl Vote {
    /// Decodes the fields of a notification into a vote, entirely or not at all.
    pub fn decode(p: &Payload) -> (r: Result<Vote, DecodeError>)
        ensures
            match r {
                Ok(v) => decoded_vote(*p) == Ok::<VoteModel, DecodeError>(v@) && v.query.wf(),
                Err(e) => decoded_vote(*p) == Err::<VoteModel, DecodeError>(e),
            },
    {
        let receiver = match (&p.bot, &p.guild) {
            (Some(b), None) => b,
            (None, Some(g)) => g,
            _ => {
                return Err(DecodeError::MalformedPayload);
            },
        };
        let (user, vote_type) = match (&p.user, &p.vote_type) {
            (Some(u), Some(t)) => (u, t),
            _ => {
                return Err(DecodeError::MalformedPayload);
            },
        };
        let receiver_id = match parse_id(receiver.as_str()) {
            Some(n) => n,
            None => {
                return Err(DecodeError::InvalidId);
            },
        };
        let voter_id = match parse_id(user.as_str()) {
            Some(n) => n,
            None => {
                return Err(DecodeError::InvalidId);
            },
        };
        let is_weekend = match p.is_weekend {
            Some(b) => b,
            None => false,
        };
        let query = match &p.query {
            Some(q) => parse_query(q.as_str()),
            None => QueryMap::new(),
        };
        let v = Vote {
            receiver_id,
            voter_id,
            is_test: decode_is_test(vote_type.as_str()),
            is_weekend,
            query,
        };
        assert(decoded_vote(*p) == Ok::<VoteModel, DecodeError>(v@));
        Ok(v)
    }
}

/// A decoded vote that has not been authenticated yet, with the credential
/// that the request presented.
#[derive(Clone)]
pub struct IncomingVote {
    pub(crate) authorization: String,
    pub(crate) vote: Vote,
}

impl IncomingVote {
    /// Pairs a vote with the credential presented alongside it.
    pub fn new(authorization: String, vote: Vote) -> (r: IncomingVote)
        ensures
            r.authorization() == authorization@,
            r.vote() == vote,
    {
        IncomingVote { authorization, vote }
    }

    /// The credential that was presented.
    pub closed spec fn authorization(&self) -> Seq<char> {
        self.authorization@
    }

    /// The vote that waits for authentication.
    pub closed spec fn vote(&self) -> Vote {
        self.vote
    }

    /// Hands out the vote when the presented credential equals `password`
    /// exactly; gives nothing otherwise.
    pub fn authenticate(self, password: &str) -> (r: Option<Vote>)
        ensures
            self.authorization() == password@ ==> r == Some(self.vote()),
            self.authorization() != password@ ==> r is None,
    {
        if self.authorization == password.to_owned() {
            Some(self.vote)
        } else {
            None
        }
    }
}

/// A payload that names its receiver under exactly one of `bot` and `guild`,
/// with readable identifiers, decodes, and the receiver is the value of
/// whichever of the two was present.
pub proof fn law_receiver_from_either_field(p: Payload)
    requires
        (p.bot is Some && p.guild is None) || (p.bot is None && p.guild is Some),
        p.user is Some,
        p.vote_type is Some,
        decimal_u64(p.user->0@) is Some,
        p.bot is Some ==> decimal_u64(p.bot->0@) is Some,
        p.guild is Some ==> decimal_u64(p.guild->0@) is Some,
    ensures
        decoded_vote(p) is Ok,
        p.bot is Some ==> decoded_vote(p)->Ok_0.receiver_id == decimal_u64(p.bot->0@)->0,
        p.guild is Some ==> decoded_vote(p)->Ok_0.receiver_id == decimal_u64(p.guild->0@)->0,
{
}

/// The `type` field never makes decoding fail, and a decoded vote is a test
/// exactly when that field reads `test`.
pub proof fn law_type_decides_test_only(p: Payload)
    requires
        p.vote_type is Some,
    ensures
        decoded_vote(p) is Ok <==> receiver_text(p) is Some && p.user is Some && ids_valid(p),
        decoded_vote(p) is Ok ==> (decoded_vote(p)->Ok_0.is_test <==> p.vote_type->0@ == test_type()),
{
}

/// Without an `isWeekend` field, a decoded vote has no weekend multiplier.
pub proof fn law_weekend_defaults_to_false(p: Payload)
    requires
        p.is_weekend is None,
    ensures
        decoded_vote(p) is Ok ==> !decoded_vote(p)->Ok_0.is_weekend,
{
}

/// Without a `query` field, a decoded vote's query mapping is empty.
pub proof fn law_query_defaults_to_empty(p: Payload)
    requires
        p.query is None,
    ensures
        decoded_vote(p) is Ok ==> decoded_vote(p)->Ok_0.query == Map::<Seq<char>, Seq<char>>::empty(),
{
}

/// A well-shaped payload whose receiver identifier is not a decimal number
/// fails with `InvalidId`.
pub proof fn law_unreadable_receiver_is_invalid_id(p: Payload)
    requires
        well_shaped(p),
        decimal_u64(receiver_text(p)->0) is None,
    ensures
        decoded_vote(p) == Err::<VoteModel, DecodeError>(DecodeError::InvalidId),
{
}

} // verus!
