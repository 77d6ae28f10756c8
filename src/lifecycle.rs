use vstd::prelude::*;

use crate::dht::{lemma_with_entry_commits, lemma_with_entry_wf, lemma_with_link_links, lemma_without_entry_deletes, addresses_view, address_of, tombstone_of, Address, AddressView, Dht, DhtView, LinkView, ZomeError};
use crate::entries::{Entry, EntryView, Game, GameProposal, GameProposalView, GameView};
use crate::validation::{source_ids, LinkType, Rejection};

verus! {

/// The label of the anchor that every proposal is linked from.
pub open spec fn proposals_label() -> Seq<char> {
    "game_proposals"@
}

/// The address of the anchor with content `label`: a function of the label alone.
pub open spec fn anchor_address(label: Seq<char>) -> AddressView {
    address_of(EntryView::Anchor(label))
}

/// Whether `p` is reachable from the proposals anchor and still live.
pub open spec fn lists_proposal(v: DhtView, p: GameProposalView) -> bool {
    v.has_link(anchor_address(proposals_label()), address_of(EntryView::Proposal(p)), LinkType::HasProposal)
        && v.live(EntryView::Proposal(p))
}

/// Whether `g` is linked as a response from `proposal` and still live.
pub open spec fn responds_with(v: DhtView, proposal: AddressView, g: GameView) -> bool {
    v.has_link(proposal, address_of(EntryView::Game(g)), LinkType::FromProposal) && v.live(
        EntryView::Game(g),
    )
}

/// The store once proposal `p` is committed and linked from the proposals anchor.
pub open spec fn proposal_created(v: DhtView, p: GameProposalView) -> DhtView {
    v.with_entry(EntryView::Proposal(p)).with_entry(EntryView::Anchor(proposals_label())).with_link(
        LinkView {
            base: anchor_address(proposals_label()),
            target: address_of(EntryView::Proposal(p)),
            link_type: LinkType::HasProposal,
            tag: Seq::empty(),
        },
    )
}

/// The store once game `g` is committed and linked from `proposal`.
pub open spec fn game_started(v: DhtView, proposal: AddressView, g: GameView) -> DhtView {
    v.with_entry(EntryView::Game(g)).with_link(
        LinkView {
            base: proposal,
            target: address_of(EntryView::Game(g)),
            link_type: LinkType::FromProposal,
            tag: Seq::empty(),
        },
    )
}

/// The views of a sequence of proposals.
pub open spec fn proposals_view(s: Seq<GameProposal>) -> Seq<GameProposalView> {
    s.map_values(|p: GameProposal| p@)
}

/// The views of a sequence of games.
pub open spec fn games_view(s: Seq<Game>) -> Seq<GameView> {
    s.map_values(|g: Game| g@)
}

/// The signers of a call made by `agent` alone.
fn signers(agent: &String) -> (v: Vec<String>)
    ensures
        source_ids(v@) == seq![agent@],
{
    let mut v: Vec<String> = Vec::new();
    v.push(agent.clone());
    assert(source_ids(v@) =~= seq![agent@]);
    v
}

/// The label of the proposals anchor.
pub fn proposals_anchor_label() -> (s: String)
    ensures
        s@ == proposals_label(),
{
    "game_proposals".to_owned()
}

/// The address of the anchor with content `label`, computed without any write.
pub fn resolve(label: &String) -> (a: Address)
    ensures
        a@ == anchor_address(label@),
{
    Address { tombstone: false, entry: Entry::Anchor(label.clone()) }
}

/// Commits the anchor with content `label` on behalf of `agent`; committing it again
/// leaves the store as it was.
pub fn ensure_exists(dht: &mut Dht, agent: &String, label: &String) -> (r: Result<Address, ZomeError>)
    requires
        old(dht)@.wf(),
    ensures
        final(dht)@.wf(),
        r matches Ok(a) && a@ == anchor_address(label@),
        final(dht)@ == old(dht)@.with_entry(EntryView::Anchor(label@)),
{
    let sources = signers(agent);
    dht.commit_entry(&Entry::Anchor(label.clone()), &sources)
}

/// Lets the module start; there is nothing to set up.
pub fn genesis() -> (r: Result<(), String>)
    ensures
        r is Ok,
{
    Ok(())
}

/// Lets the module start; there is nothing to set up.
pub fn init() -> (r: Result<(), String>)
    ensures
        r is Ok,
{
    Ok(())
}

/// Accepts every agent that joins.
pub fn validate_agent(_agent: &String) -> (r: Result<(), Rejection>)
    ensures
        r is Ok,
{
    Ok(())
}

/// Publishes a proposal by `agent` and links it from the proposals anchor; returns
/// the proposal's address.
pub fn create_proposal(dht: &mut Dht, agent: &String, message: String, timestamp: Option<u32>) -> (r:
    Result<Address, ZomeError>)
    requires
        old(dht)@.wf(),
    ensures
        final(dht)@.wf(),
        r matches Ok(a) && a@ == address_of(
            EntryView::Proposal(
                GameProposalView { agent: agent@, message: message@, timestamp: timestamp },
            ),
        ),
        final(dht)@ == proposal_created(
            old(dht)@,
            GameProposalView { agent: agent@, message: message@, timestamp: timestamp },
        ),
{
    let sources = signers(agent);
    let proposal = GameProposal { agent: agent.clone(), message, timestamp };
    let entry = Entry::Proposal(proposal);
    assert(source_ids(sources@)[0] == agent@);
    let proposal_address = match dht.commit_entry(&entry, &sources) {
        Ok(a) => a,
        Err(e) => return Err(e),
    };
    let label = proposals_anchor_label();
    let anchor_address = match ensure_exists(dht, agent, &label) {
        Ok(a) => a,
        Err(e) => return Err(e),
    };
    proof {
        lemma_with_entry_commits(old(dht)@, entry@, entry@);
        lemma_with_entry_commits(
            old(dht)@.with_entry(entry@),
            EntryView::Anchor(proposals_label()),
            entry@,
        );
    }
    match dht.link_entries(&anchor_address, &proposal_address, LinkType::HasProposal, &String::new()) {
        Ok(()) => Ok(proposal_address),
        Err(e) => Err(e),
    }
}

/// The live proposals linked from the proposals anchor, in no promised order.
pub fn get_proposals(dht: &Dht) -> (r: Vec<GameProposal>)
    ensures
        forall|p: GameProposalView|
            #[trigger] proposals_view(r@).contains(p) <==> lists_proposal(dht@, p),
{
    let label = proposals_anchor_label();
    let anchor = resolve(&label);
    let targets = dht.get_links(&anchor, LinkType::HasProposal);
    let ghost tv = addresses_view(targets@);
    let mut r: Vec<GameProposal> = Vec::new();
    let mut i: usize = 0;
    while i < targets.len()
        invariant
            i <= targets@.len(),
            tv == addresses_view(targets@),
            forall|a: AddressView| tv.contains(a) <==> dht@.has_link(anchor@, a, LinkType::HasProposal),
            anchor@ == anchor_address(proposals_label()),
            forall|p: GameProposalView|
                #[trigger] proposals_view(r@).contains(p) <==> (exists|k: int|
                    0 <= k < i && tv[k] == address_of(EntryView::Proposal(p))) && dht@.live(
                    EntryView::Proposal(p),
                ),
        decreases targets@.len() - i,
    {
        let ghost r0 = proposals_view(r@);
        match dht.get_entry(&targets[i]) {
            Some(Entry::Proposal(p)) => {
                r.push(p);
                proof {
                    let r1 = proposals_view(r@);
                    assert(r1 =~= r0.push(p@));
                    assert forall|q: GameProposalView| #[trigger] r1.contains(q) <==> (exists|k: int|
                        0 <= k < i + 1 && tv[k] == address_of(EntryView::Proposal(q))) && dht@.live(
                        EntryView::Proposal(q),
                    ) by {
                        assert(tv[i as int] == address_of(EntryView::Proposal(p@)));
                        assert(r1[r0.len() as int] == p@);
                        if r1.contains(q) && q != p@ {
                            let k = choose|k: int| 0 <= k < r1.len() && r1[k] == q;
                            assert(r0[k] == q);
                        }
                        if r0.contains(q) {
                            let k = choose|k: int| 0 <= k < r0.len() && r0[k] == q;
                            assert(r1[k] == q);
                        }
                        if (exists|k: int| 0 <= k < i + 1 && tv[k] == address_of(EntryView::Proposal(q)))
                            && q != p@ {
                            let k = choose|k: int|
                                0 <= k < i + 1 && tv[k] == address_of(EntryView::Proposal(q));
                            assert(k != i);
                        }
                    }
                }
            },
            _ => {
                proof {
                    assert forall|q: GameProposalView| #[trigger] r0.contains(q) <==> (exists|k: int|
                        0 <= k < i + 1 && tv[k] == address_of(EntryView::Proposal(q))) && dht@.live(
                        EntryView::Proposal(q),
                    ) by {
                        if (exists|k: int| 0 <= k < i + 1 && tv[k] == address_of(EntryView::Proposal(q)))
                            && dht@.live(EntryView::Proposal(q)) {
                            let k = choose|k: int|
                                0 <= k < i + 1 && tv[k] == address_of(EntryView::Proposal(q));
                            if k == i {
                                assert(dht@.resolve(tv[k]) == Some(EntryView::Proposal(q)));
                            }
                        }
                    }
                }
            },
        }
        i = i + 1;
    }
    proof {
        assert forall|p: GameProposalView| #[trigger] proposals_view(r@).contains(p) <==> lists_proposal(dht@, p) by {
            let a = address_of(EntryView::Proposal(p));
            if tv.contains(a) {
                let k = choose|k: int| 0 <= k < tv.len() && tv[k] == a;
                assert(0 <= k < i && tv[k] == a);
            }
        }
    }
    r
}

/// Starts a game between `agent` and the author of the live proposal at
/// `proposal_addr`, and links it from the proposal; returns the game's address.
/// Nothing keeps several agents from accepting the same proposal.
pub fn accept_proposal(dht: &mut Dht, agent: &String, proposal_addr: &Address, created_at: u32) -> (r:
    Result<Address, ZomeError>)
    requires
        old(dht)@.wf(),
    ensures
        final(dht)@.wf(),
        match old(dht)@.resolve(proposal_addr@) {
            Some(EntryView::Proposal(p)) => {
                let g = GameView { player_1: agent@, player_2: p.agent, created_at: created_at };
                &&& r matches Ok(a) && a@ == address_of(EntryView::Game(g))
                &&& final(dht)@ == game_started(old(dht)@, proposal_addr@, g)
            },
            _ => r == Err::<Address, ZomeError>(ZomeError::NotFound) && final(dht)@ == old(dht)@,
        },
{
    let proposal = match dht.get_entry(proposal_addr) {
        Some(Entry::Proposal(p)) => p,
        _ => return Err(ZomeError::NotFound),
    };
    let game = Game { player_1: agent.clone(), player_2: proposal.agent, created_at };
    let entry = Entry::Game(game);
    let sources = signers(agent);
    let game_addr = match dht.commit_entry(&entry, &sources) {
        Ok(a) => a,
        Err(e) => return Err(e),
    };
    proof {
        lemma_with_entry_commits(old(dht)@, entry@, entry@);
        lemma_with_entry_commits(old(dht)@, entry@, proposal_addr@.entry);
    }
    match dht.link_entries(proposal_addr, &game_addr, LinkType::FromProposal, &String::new()) {
        Ok(()) => Ok(game_addr),
        Err(e) => Err(e),
    }
}

/// The live games linked as responses from `proposal_addr`, in no promised order.
pub fn check_responses(dht: &Dht, proposal_addr: &Address) -> (r: Vec<Game>)
    ensures
        forall|g: GameView| #[trigger] games_view(r@).contains(g) <==> responds_with(dht@, proposal_addr@, g),
{
    let targets = dht.get_links(proposal_addr, LinkType::FromProposal);
    let ghost tv = addresses_view(targets@);
    let mut r: Vec<Game> = Vec::new();
    let mut i: usize = 0;
    while i < targets.len()
        invariant
            i <= targets@.len(),
            tv == addresses_view(targets@),
            forall|a: AddressView|
                tv.contains(a) <==> dht@.has_link(proposal_addr@, a, LinkType::FromProposal),
            forall|g: GameView|
                #[trigger] games_view(r@).contains(g) <==> (exists|k: int|
                    0 <= k < i && tv[k] == address_of(EntryView::Game(g))) && dht@.live(
                    EntryView::Game(g),
                ),
        decreases targets@.len() - i,
    {
        let ghost r0 = games_view(r@);
        match dht.get_entry(&targets[i]) {
            Some(Entry::Game(g)) => {
                r.push(g);
                proof {
                    let r1 = games_view(r@);
                    assert(r1 =~= r0.push(g@));
                    assert forall|q: GameView| #[trigger] r1.contains(q) <==> (exists|k: int|
                        0 <= k < i + 1 && tv[k] == address_of(EntryView::Game(q))) && dht@.live(
                        EntryView::Game(q),
                    ) by {
                        assert(tv[i as int] == address_of(EntryView::Game(g@)));
                        assert(r1[r0.len() as int] == g@);
                        if r1.contains(q) && q != g@ {
                            let k = choose|k: int| 0 <= k < r1.len() && r1[k] == q;
                            assert(r0[k] == q);
                        }
                        if r0.contains(q) {
                            let k = choose|k: int| 0 <= k < r0.len() && r0[k] == q;
                            assert(r1[k] == q);
                        }
                        if (exists|k: int| 0 <= k < i + 1 && tv[k] == address_of(EntryView::Game(q)))
                            && q != g@ {
                            let k = choose|k: int|
                                0 <= k < i + 1 && tv[k] == address_of(EntryView::Game(q));
                            assert(k != i);
                        }
                    }
                }
            },
            _ => {
                proof {
                    assert forall|q: GameView| #[trigger] r0.contains(q) <==> (exists|k: int|
                        0 <= k < i + 1 && tv[k] == address_of(EntryView::Game(q))) && dht@.live(
                        EntryView::Game(q),
                    ) by {
                        if (exists|k: int| 0 <= k < i + 1 && tv[k] == address_of(EntryView::Game(q)))
                            && dht@.live(EntryView::Game(q)) {
                            let k = choose|k: int|
                                0 <= k < i + 1 && tv[k] == address_of(EntryView::Game(q));
                            if k == i {
                                assert(dht@.resolve(tv[k]) == Some(EntryView::Game(q)));
                            }
                        }
                    }
                }
            },
        }
        i = i + 1;
    }
    proof {
        assert forall|g: GameView| #[trigger] games_view(r@).contains(g) <==> responds_with(dht@, proposal_addr@, g) by {
            let a = address_of(EntryView::Game(g));
            if tv.contains(a) {
                let k = choose|k: int| 0 <= k < tv.len() && tv[k] == a;
                assert(0 <= k < i && tv[k] == a);
            }
        }
    }
    r
}

/// Withdraws the entry at `proposal_addr` on behalf of `agent`, whoever authored it;
/// returns the address of the deletion record.
pub fn remove_proposal(dht: &mut Dht, agent: &String, proposal_addr: &Address) -> (r: Result<
    Address,
    ZomeError,
>)
    requires
        old(dht)@.wf(),
    ensures
        final(dht)@.wf(),
        old(dht)@.resolve(proposal_addr@) is None ==> r == Err::<Address, ZomeError>(ZomeError::NotFound)
            && final(dht)@ == old(dht)@,
        old(dht)@.resolve(proposal_addr@) is Some ==> (r matches Ok(t) && t@ == tombstone_of(
            proposal_addr@.entry,
        ) && final(dht)@ == old(dht)@.without_entry(proposal_addr@.entry)),
{
    let sources = signers(agent);
    dht.remove_entry(proposal_addr, &sources)
}

/// Whether `e` is held exactly once in `s`.
pub open spec fn held_once(s: Seq<EntryView>, e: EntryView) -> bool {
    &&& s.contains(e)
    &&& forall|i: int, j: int|
        0 <= i < s.len() && 0 <= j < s.len() && s[i] == e && s[j] == e ==> i == j
}

/// The anchor's address is derived from its label alone: the same label gives the
/// same address, in any store and with no write, and different labels differ.
pub proof fn anchor_address_depends_on_label_alone(a: Seq<char>, b: Seq<char>)
    ensures
        anchor_address(a) == address_of(EntryView::Anchor(a)),
        anchor_address(a) == anchor_address(b) <==> a == b,
{
    if anchor_address(a) == anchor_address(b) {
        assert(anchor_address(a).entry == anchor_address(b).entry);
    }
}

/// Ensuring an anchor twice gives the store that ensuring it once gives, and that
/// store holds exactly one anchor entry with the label.
pub proof fn anchor_is_created_once(v: DhtView, label: Seq<char>)
    requires
        v.wf(),
    ensures
        v.with_entry(EntryView::Anchor(label)).with_entry(EntryView::Anchor(label)) == v.with_entry(
            EntryView::Anchor(label),
        ),
        v.with_entry(EntryView::Anchor(label)).wf(),
        held_once(v.with_entry(EntryView::Anchor(label)).entries, EntryView::Anchor(label)),
{
    let e = EntryView::Anchor(label);
    lemma_with_entry_commits(v, e, e);
    lemma_with_entry_wf(v, e);
}

/// Once an entry is withdrawn its address reads as nothing, so accepting it then
/// fails with `NotFound` and commits no game.
pub proof fn withdrawn_entry_is_not_found(v: DhtView, e: EntryView)
    ensures
        v.without_entry(e).resolve(address_of(e)) is None,
{
    lemma_without_entry_deletes(v, e);
}

/// A withdrawn proposal is not listed.
pub proof fn withdrawn_proposal_is_not_listed(v: DhtView, p: GameProposalView)
    ensures
        !lists_proposal(v.without_entry(EntryView::Proposal(p)), p),
{
    lemma_without_entry_deletes(v, EntryView::Proposal(p));
}

/// A created proposal is listed, reachable from the proposals anchor, unless the
/// same content was withdrawn before.
pub proof fn created_proposal_is_listed(v: DhtView, p: GameProposalView)
    requires
        !v.deleted.contains(EntryView::Proposal(p)),
    ensures
        lists_proposal(proposal_created(v, p), p),
{
    let e = EntryView::Proposal(p);
    let anchor = EntryView::Anchor(proposals_label());
    let l = LinkView {
        base: anchor_address(proposals_label()),
        target: address_of(e),
        link_type: LinkType::HasProposal,
        tag: Seq::empty(),
    };
    lemma_with_entry_commits(v, e, e);
    lemma_with_entry_commits(v.with_entry(e), anchor, e);
    lemma_with_link_links(v.with_entry(e).with_entry(anchor), l, l.base, l.target, l.link_type);
}

/// Every acceptance of a proposal stays among its responses: two games started from
/// one proposal are both found.
pub proof fn every_acceptance_responds(v: DhtView, proposal: AddressView, g1: GameView, g2: GameView)
    requires
        !v.deleted.contains(EntryView::Game(g1)),
        !v.deleted.contains(EntryView::Game(g2)),
    ensures
        responds_with(game_started(game_started(v, proposal, g1), proposal, g2), proposal, g1),
        responds_with(game_started(game_started(v, proposal, g1), proposal, g2), proposal, g2),
{
    let e1 = EntryView::Game(g1);
    let e2 = EntryView::Game(g2);
    let l1 = LinkView {
        base: proposal,
        target: address_of(e1),
        link_type: LinkType::FromProposal,
        tag: Seq::empty(),
    };
    let l2 = LinkView {
        base: proposal,
        target: address_of(e2),
        link_type: LinkType::FromProposal,
        tag: Seq::empty(),
    };
    let w1 = v.with_entry(e1);
    lemma_with_entry_commits(v, e1, e1);
    lemma_with_link_links(w1, l1, l1.base, l1.target, l1.link_type);
    let u1 = w1.with_link(l1);
    lemma_with_entry_commits(u1, e2, e2);
    lemma_with_entry_commits(u1, e2, e1);
    let w2 = u1.with_entry(e2);
    lemma_with_link_links(w2, l2, l1.base, l1.target, l1.link_type);
}

} // verus!
