use vstd::prelude::*;

use crate::entries::{same_text, Entry, EntryKind, EntryView, GameProposal, GameProposalView};

verus! {

/// What a write does to an entry.
#[derive(Clone, Copy, Debug, PartialEq, Eq, Structural)]
pub enum Operation {
    Create,
    Modify,
    Delete,
}

/// Why a validating node refused an entry or a link.
#[derive(Clone, Copy, Debug, PartialEq, Eq, Structural)]
pub enum Rejection {
    /// A proposal names an author that did not sign the commit.
    ForeignAuthor,
    /// A proposal may be created and deleted, never modified.
    ModifyForbidden,
    /// The schema declares no link of that type between those kinds of entry.
    UndeclaredLink,
}

pub open spec fn rejection_text(r: Rejection) -> Seq<char> {
    match r {
        Rejection::ForeignAuthor => "Cannot author a proposal from another agent"@,
        Rejection::ModifyForbidden => "Cannot modify, only create and delete"@,
        Rejection::UndeclaredLink => "Link type is not declared between these entry types"@,
    }
}

impl Rejection {
    /// The reason, in words, that is handed back to the caller.
    pub fn message(&self) -> (s: String)
        ensures
            s@ == rejection_text(*self),
    {
        match self {
            Rejection::ForeignAuthor => "Cannot author a proposal from another agent".to_owned(),
            Rejection::ModifyForbidden => "Cannot modify, only create and delete".to_owned(),
            Rejection::UndeclaredLink => "Link type is not declared between these entry types".to_owned(),
        }
    }
}

/// The identities that signed a commit, as character sequences.
pub open spec fn source_ids(sources: Seq<String>) -> Seq<Seq<char>> {
    sources.map_values(|s: String| s@)
}

/// The outcome that the proposal rule gives.
pub open spec fn proposal_verdict(
    op: Operation,
    p: GameProposalView,
    sources: Seq<Seq<char>>,
) -> Result<(), Rejection> {
    match op {
        Operation::Create => if sources.contains(p.agent) {
            Ok(())
        } else {
            Err(Rejection::ForeignAuthor)
        },
        Operation::Delete => Ok(()),
        Operation::Modify => Err(Rejection::ModifyForbidden),
    }
}

/// The outcome that the rule of the entry's kind gives.
pub open spec fn entry_verdict(op: Operation, e: EntryView, sources: Seq<Seq<char>>) -> Result<
    (),
    Rejection,
> {
    match e {
        EntryView::Proposal(p) => proposal_verdict(op, p, sources),
        EntryView::Game(_) => Ok(()),
        EntryView::Anchor(_) => Ok(()),
    }
}

/// Whether `agent` is among the signers.
pub fn signed_by(sources: &Vec<String>, agent: &String) -> (r: bool)
    ensures
        r == source_ids(sources@).contains(agent@),
{
    let mut i: usize = 0;
    while i < sources.len()
        invariant
            i <= sources@.len(),
            forall|j: int| 0 <= j < i ==> sources@[j]@ != agent@,
        decreases sources@.len() - i,
    {
        if sources[i] == *agent {
            assert(source_ids(sources@)[i as int] == agent@);
            return true;
        }
        i = i + 1;
    }
    proof {
        if source_ids(sources@).contains(agent@) {
            let k = choose|k: int|
                0 <= k < source_ids(sources@).len() && source_ids(sources@)[k] == agent@;
            assert(sources@[k]@ == agent@);
        }
    }
    false
}

/// The validation rule of a proposal: it is created by the agent it names, may be
/// deleted by anyone, and is never modified.
pub fn validate_proposal(op: Operation, proposal: &GameProposal, sources: &Vec<String>) -> (r:
    Result<(), Rejection>)
    ensures
        r == proposal_verdict(op, proposal@, source_ids(sources@)),
{
    match op {
        Operation::Create => if signed_by(sources, &proposal.agent) {
            Ok(())
        } else {
            Err(Rejection::ForeignAuthor)
        },
        Operation::Delete => Ok(()),
        Operation::Modify => Err(Rejection::ModifyForbidden),
    }
}

/// The validation rule of every entry, by its kind: games and anchors are always
/// accepted.
pub fn validate_entry(op: Operation, entry: &Entry, sources: &Vec<String>) -> (r: Result<
    (),
    Rejection,
>)
    ensures
        r == entry_verdict(op, entry@, source_ids(sources@)),
{
    match entry {
        Entry::Proposal(p) => validate_proposal(op, p, sources),
        Entry::Game(_) => Ok(()),
        Entry::Anchor(_) => Ok(()),
    }
}

/// The typed, directed edges that the schema allows.
#[derive(Clone, Copy, Debug, PartialEq, Eq, Structural)]
pub enum LinkType {
    /// From the anchor to a proposal.
    HasProposal,
    /// From a proposal to a game that accepted it.
    FromProposal,
}

pub open spec fn link_type_text(t: LinkType) -> Seq<char> {
    match t {
        LinkType::HasProposal => "has_proposal"@,
        LinkType::FromProposal => "from_proposal"@,
    }
}

impl LinkType {
    /// The token that names the link type on the wire.
    pub fn name(&self) -> (s: String)
        ensures
            s@ == link_type_text(*self),
    {
        match self {
            LinkType::HasProposal => "has_proposal".to_owned(),
            LinkType::FromProposal => "from_proposal".to_owned(),
        }
    }

    /// The link type that a token names, if any.
    pub fn from_name(s: &String) -> (r: Option<LinkType>)
        ensures
            r matches Some(t) ==> link_type_text(t) == s@,
            r is None ==> forall|t: LinkType| link_type_text(t) != s@,
    {
        let has = LinkType::HasProposal.name();
        let from = LinkType::FromProposal.name();
        if same_text(s, &has) {
            Some(LinkType::HasProposal)
        } else if same_text(s, &from) {
            Some(LinkType::FromProposal)
        } else {
            proof {
                assert forall|t: LinkType| link_type_text(t) != s@ by {
                    match t {
                        LinkType::HasProposal => {},
                        LinkType::FromProposal => {},
                    }
                }
            }
            None
        }
    }
}

/// The kinds of entry that a link of type `t` joins, base first.
pub open spec fn link_ends(t: LinkType) -> (EntryKind, EntryKind) {
    match t {
        LinkType::HasProposal => (EntryKind::Anchor, EntryKind::Proposal),
        LinkType::FromProposal => (EntryKind::Proposal, EntryKind::Game),
    }
}

/// The outcome that link validation gives.
pub open spec fn link_verdict(t: LinkType, base: EntryKind, target: EntryKind) -> Result<
    (),
    Rejection,
> {
    if link_ends(t) == (base, target) {
        Ok(())
    } else {
        Err(Rejection::UndeclaredLink)
    }
}

/// The validation rule of a link: a link of a declared type is accepted between
/// entries of the kinds that the schema declares for it, and on no other.
pub fn validate_link(t: LinkType, base: EntryKind, target: EntryKind) -> (r: Result<(), Rejection>)
    ensures
        r == link_verdict(t, base, target),
{
    let ok = match t {
        LinkType::HasProposal => base == EntryKind::Anchor && target == EntryKind::Proposal,
        LinkType::FromProposal => base == EntryKind::Proposal && target == EntryKind::Game,
    };
    if ok {
        Ok(())
    } else {
        Err(Rejection::UndeclaredLink)
    }
}

/// A proposal is accepted as a creation signed by the agent it names, and refused,
/// as the work of another agent, when signed by any other agent.
pub proof fn only_the_author_creates(p: GameProposalView, signer: Seq<char>)
    ensures
        proposal_verdict(Operation::Create, p, seq![signer]) == if signer == p.agent {
            Ok::<(), Rejection>(())
        } else {
            Err(Rejection::ForeignAuthor)
        },
{
    if signer == p.agent {
        assert(seq![signer][0] == p.agent);
    } else {
        assert(!seq![signer].contains(p.agent)) by {
            if seq![signer].contains(p.agent) {
                let k = choose|k: int| 0 <= k < 1 && seq![signer][k] == p.agent;
                assert(seq![signer][k] == signer);
            }
        }
    }
}

/// A modification of a proposal is refused, whoever signs it.
pub proof fn proposals_are_never_modified(p: GameProposalView, sources: Seq<Seq<char>>)
    ensures
        proposal_verdict(Operation::Modify, p, sources) == Err::<(), Rejection>(
            Rejection::ModifyForbidden,
        ),
{
}

} // verus!
