use vstd::prelude::*;

use crate::entries::EntryKind;
use crate::validation::{link_ends, LinkType};

verus! {

/// Where an entry is shared.
#[derive(Clone, Copy, Debug, PartialEq, Eq, Structural)]
pub enum Sharing {
    /// On the author's chain and on the shared store.
    Public,
    /// On the author's chain alone.
    Private,
}

/// Which end of a link the declaring entry kind stands at.
#[derive(Clone, Copy, Debug, PartialEq, Eq, Structural)]
pub enum LinkDirection {
    /// The declaring kind is the base; `other` is the target.
    To,
    /// The declaring kind is the target; `other` is the base.
    From,
}

/// A link type that an entry definition declares legal.
#[derive(Clone, Copy, Debug, PartialEq, Eq, Structural)]
pub struct LinkDefinition {
    pub direction: LinkDirection,
    pub other: EntryKind,
    pub link_type: LinkType,
}

/// The declaration of one kind of entry, read once by the validation engine.
pub struct EntryDefinition {
    pub kind: EntryKind,
    pub name: String,
    pub description: String,
    pub sharing: Sharing,
    pub links: Vec<LinkDefinition>,
}

/// The name under which entries of a kind are committed.
pub open spec fn kind_name(k: EntryKind) -> Seq<char> {
    match k {
        EntryKind::Proposal => "game_proposal"@,
        EntryKind::Game => "game"@,
        EntryKind::Anchor => "anchor"@,
    }
}

/// The links that the definition of kind `k` declares.
pub open spec fn declared_links(k: EntryKind) -> Seq<LinkDefinition> {
    match k {
        EntryKind::Proposal => seq![],
        EntryKind::Game => seq![
            LinkDefinition {
                direction: LinkDirection::From,
                other: EntryKind::Proposal,
                link_type: LinkType::FromProposal,
            },
        ],
        EntryKind::Anchor => seq![
            LinkDefinition {
                direction: LinkDirection::To,
                other: EntryKind::Proposal,
                link_type: LinkType::HasProposal,
            },
        ],
    }
}

/// The base and target kinds of a link declared on kind `k`.
pub open spec fn declared_ends(k: EntryKind, l: LinkDefinition) -> (EntryKind, EntryKind) {
    match l.direction {
        LinkDirection::To => (k, l.other),
        LinkDirection::From => (l.other, k),
    }
}

impl EntryDefinition {
    pub open spec fn declares(&self, k: EntryKind) -> bool {
        &&& self.kind == k
        &&& self.name@ == kind_name(k)
        &&& self.sharing == Sharing::Public
        &&& self.links@ == declared_links(k)
    }
}

/// A proposal to play: created only by its author, deleted by anyone, never modified.
pub fn game_proposal_def() -> (d: EntryDefinition)
    ensures
        d.declares(EntryKind::Proposal),
{
    EntryDefinition {
        kind: EntryKind::Proposal,
        name: "game_proposal".to_owned(),
        description: "Represents an agent advertizing they wish to play a game at this time".to_owned(),
        sharing: Sharing::Public,
        links: Vec::new(),
    }
}

/// A game, linked from the proposal that it accepted.
pub fn game_def() -> (d: EntryDefinition)
    ensures
        d.declares(EntryKind::Game),
{
    let mut links: Vec<LinkDefinition> = Vec::new();
    links.push(
        LinkDefinition {
            direction: LinkDirection::From,
            other: EntryKind::Proposal,
            link_type: LinkType::FromProposal,
        },
    );
    EntryDefinition {
        kind: EntryKind::Game,
        name: "game".to_owned(),
        description: "Represents the start of two agents playing a game".to_owned(),
        sharing: Sharing::Public,
        links,
    }
}

/// The well-known root that proposals are linked from.
pub fn anchor_def() -> (d: EntryDefinition)
    ensures
        d.declares(EntryKind::Anchor),
{
    let mut links: Vec<LinkDefinition> = Vec::new();
    links.push(
        LinkDefinition {
            direction: LinkDirection::To,
            other: EntryKind::Proposal,
            link_type: LinkType::HasProposal,
        },
    );
    EntryDefinition {
        kind: EntryKind::Anchor,
        name: "anchor".to_owned(),
        description: "Central known location to link from".to_owned(),
        sharing: Sharing::Public,
        links,
    }
}

/// Every entry definition, one per kind: proposal, game, anchor.
pub fn definitions_of() -> (r: Vec<EntryDefinition>)
    ensures
        r@.len() == 3,
        r@[0].declares(EntryKind::Proposal),
        r@[1].declares(EntryKind::Game),
        r@[2].declares(EntryKind::Anchor),
{
    let mut r: Vec<EntryDefinition> = Vec::new();
    r.push(game_proposal_def());
    r.push(game_def());
    r.push(anchor_def());
    r
}

/// The schema and link validation agree: a link type is accepted between exactly
/// the base and target kinds that some entry definition declares for it.
pub proof fn schema_declares_link_ends(t: LinkType, base: EntryKind, target: EntryKind)
    ensures
        link_ends(t) == (base, target) <==> exists|k: EntryKind, i: int|
            0 <= i < declared_links(k).len() && (#[trigger] declared_links(k)[i]).link_type == t
                && declared_ends(k, declared_links(k)[i]) == (base, target),
{
    match t {
        LinkType::HasProposal => {
            assert(declared_links(EntryKind::Anchor)[0].link_type == t);
        },
        LinkType::FromProposal => {
            assert(declared_links(EntryKind::Game)[0].link_type == t);
        },
    }
    if exists|k: EntryKind, i: int|
        0 <= i < declared_links(k).len() && (#[trigger] declared_links(k)[i]).link_type == t
            && declared_ends(k, declared_links(k)[i]) == (base, target) {
        let (k, i) = choose|k: EntryKind, i: int|
            0 <= i < declared_links(k).len() && (#[trigger] declared_links(k)[i]).link_type == t
                && declared_ends(k, declared_links(k)[i]) == (base, target);
        match k {
            EntryKind::Proposal => {},
            EntryKind::Game => {
                assert(i == 0);
            },
            EntryKind::Anchor => {
                assert(i == 0);
            },
        }
    }
}

} // verus!
