use vstd::prelude::*;

verus! {

/// An agent advertising that it wishes to play a game.
#[derive(Debug)]
pub struct GameProposal {
    pub agent: String,
    pub message: String,
    pub timestamp: Option<u32>,
}

pub struct GameProposalView {
    pub agent: Seq<char>,
    pub message: Seq<char>,
    pub timestamp: Option<u32>,
}

impl View for GameProposal {
    type V = GameProposalView;

    open spec fn view(&self) -> GameProposalView {
        GameProposalView { agent: self.agent@, message: self.message@, timestamp: self.timestamp }
    }
}

impl Clone for GameProposal {
    fn clone(&self) -> (r: Self)
        ensures
            r@ == self@,
    {
        GameProposal {
            agent: self.agent.clone(),
            message: self.message.clone(),
            timestamp: self.timestamp,
        }
    }
}

/// The start of a game between the accepting agent and the proposal's author.
#[derive(Debug)]
pub struct Game {
    pub player_1: String,
    pub player_2: String,
    pub created_at: u32,
}

pub struct GameView {
    pub player_1: Seq<char>,
    pub player_2: Seq<char>,
    pub created_at: u32,
}

impl View for Game {
    type V = GameView;

    open spec fn view(&self) -> GameView {
        GameView { player_1: self.player_1@, player_2: self.player_2@, created_at: self.created_at }
    }
}

impl Clone for Game {
    fn clone(&self) -> (r: Self)
        ensures
            r@ == self@,
    {
        Game {
            player_1: self.player_1.clone(),
            player_2: self.player_2.clone(),
            created_at: self.created_at,
        }
    }
}

/// The kinds of entry that the schema declares.
#[derive(Clone, Copy, Debug, PartialEq, Eq, Structural)]
pub enum EntryKind {
    Proposal,
    Game,
    Anchor,
}

/// An entry as it is committed to the store.
#[derive(Debug)]
pub enum Entry {
    Proposal(GameProposal),
    Game(Game),
    /// A well-known label, used as a root to link from.
    Anchor(String),
}

pub enum EntryView {
    Proposal(GameProposalView),
    Game(GameView),
    Anchor(Seq<char>),
}

impl View for Entry {
    type V = EntryView;

    open spec fn view(&self) -> EntryView {
        match self {
            Entry::Proposal(p) => EntryView::Proposal(p@),
            Entry::Game(g) => EntryView::Game(g@),
            Entry::Anchor(s) => EntryView::Anchor(s@),
        }
    }
}

impl Clone for Entry {
    fn clone(&self) -> (r: Self)
        ensures
            r@ == self@,
    {
        match self {
            Entry::Proposal(p) => Entry::Proposal(p.clone()),
            Entry::Game(g) => Entry::Game(g.clone()),
            Entry::Anchor(s) => Entry::Anchor(s.clone()),
        }
    }
}

impl EntryView {
    pub open spec fn kind(self) -> EntryKind {
        match self {
            EntryView::Proposal(_) => EntryKind::Proposal,
            EntryView::Game(_) => EntryKind::Game,
            EntryView::Anchor(_) => EntryKind::Anchor,
        }
    }
}

impl Entry {
    pub fn kind(&self) -> (k: EntryKind)
        ensures
            k == self@.kind(),
    {
        match self {
            Entry::Proposal(_) => EntryKind::Proposal,
            Entry::Game(_) => EntryKind::Game,
            Entry::Anchor(_) => EntryKind::Anchor,
        }
    }
}

/// Whether two strings hold the same characters.
pub fn same_text(a: &String, b: &String) -> (r: bool)
    ensures
        r == (a@ == b@),
{
    *a == *b
}

/// Whether two entries have the same content.
pub fn same_entry(a: &Entry, b: &Entry) -> (r: bool)
    ensures
        r == (a@ == b@),
{
    match (a, b) {
        (Entry::Proposal(p), Entry::Proposal(q)) => {
            same_text(&p.agent, &q.agent) && same_text(&p.message, &q.message) && p.timestamp
                == q.timestamp
        },
        (Entry::Game(g), Entry::Game(h)) => {
            same_text(&g.player_1, &h.player_1) && same_text(&g.player_2, &h.player_2)
                && g.created_at == h.created_at
        },
        (Entry::Anchor(s), Entry::Anchor(t)) => same_text(s, t),
        _ => false,
    }
}

} // verus!
