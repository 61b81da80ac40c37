//! Data shapes for one overlay "setup" (two players, match metadata,
//! commentary) and the full multi-setup state, together with their
//! mathematical views and the built-in default values.
use vstd::prelude::*;

verus! {

/// One player slot as shown on the overlay.
#[derive(Clone, Debug, PartialEq, Eq)]
pub struct PlayerState {
    pub side: String,
    pub port: Option<u8>,
    pub tag: String,
    pub sponsor: Option<String>,
    pub handle: Option<String>,
    pub character: String,
    pub character_color: String,
    pub score: u32,
    pub country_code: Option<String>,
}

/// One commentary-booth entry.
#[derive(Clone, Debug, PartialEq, Eq)]
pub struct CommentaryState {
    pub name: String,
    pub handle: Option<String>,
    pub active: Option<bool>,
}

/// Metadata of the match currently on the overlay.
#[derive(Clone, Debug, PartialEq, Eq)]
pub struct MatchMeta {
    pub tournament: Option<String>,
    pub round: String,
    pub best_of: u8,
    pub game_number: Option<u32>,
    pub stage: Option<String>,
    pub notes: Option<String>,
}

/// One full overlay configuration ("setup").
#[derive(Clone, Debug, PartialEq, Eq)]
pub struct OverlayState {
    pub p1: PlayerState,
    pub p2: PlayerState,
    pub meta: MatchMeta,
    pub commentators: Vec<CommentaryState>,
}

/// The whole managed state: an ordered sequence of setups (four by
/// convention).
#[derive(Clone, Debug, PartialEq, Eq)]
pub struct AllSetupsState {
    pub setups: Vec<OverlayState>,
}

/// Mathematical value of a [`PlayerState`].
#[verifier::ext_equal]
pub ghost struct SpecPlayer {
    pub side: Seq<char>,
    pub port: Option<u8>,
    pub tag: Seq<char>,
    pub sponsor: Option<Seq<char>>,
    pub handle: Option<Seq<char>>,
    pub character: Seq<char>,
    pub character_color: Seq<char>,
    pub score: u32,
    pub country_code: Option<Seq<char>>,
}

/// Mathematical value of a [`CommentaryState`].
#[verifier::ext_equal]
pub ghost struct SpecCommentary {
    pub name: Seq<char>,
    pub handle: Option<Seq<char>>,
    pub active: Option<bool>,
}

/// Mathematical value of a [`MatchMeta`].
#[verifier::ext_equal]
pub ghost struct SpecMeta {
    pub tournament: Option<Seq<char>>,
    pub round: Seq<char>,
    pub best_of: u8,
    pub game_number: Option<u32>,
    pub stage: Option<Seq<char>>,
    pub notes: Option<Seq<char>>,
}

/// Mathematical value of an [`OverlayState`].
#[verifier::ext_equal]
pub ghost struct SpecOverlay {
    pub p1: SpecPlayer,
    pub p2: SpecPlayer,
    pub meta: SpecMeta,
    pub commentators: Seq<SpecCommentary>,
}

/// Mathematical value of an [`AllSetupsState`].
#[verifier::ext_equal]
pub ghost struct SpecAll {
    pub setups: Seq<SpecOverlay>,
}

pub open spec fn view_opt_string(o: Option<String>) -> Option<Seq<char>> {
    match o {
        Some(s) => Some(s@),
        None => None,
    }
}

impl View for PlayerState {
    type V = SpecPlayer;

    open spec fn view(&self) -> SpecPlayer {
        SpecPlayer {
            side: self.side@,
            port: self.port,
            tag: self.tag@,
            sponsor: view_opt_string(self.sponsor),
            handle: view_opt_string(self.handle),
            character: self.character@,
            character_color: self.character_color@,
            score: self.score,
            country_code: view_opt_string(self.country_code),
        }
    }
}

impl View for CommentaryState {
    type V = SpecCommentary;

    open spec fn view(&self) -> SpecCommentary {
        SpecCommentary {
            name: self.name@,
            handle: view_opt_string(self.handle),
            active: self.active,
        }
    }
}

impl View for MatchMeta {
    type V = SpecMeta;

    open spec fn view(&self) -> SpecMeta {
        SpecMeta {
            tournament: view_opt_string(self.tournament),
            round: self.round@,
            best_of: self.best_of,
            game_number: self.game_number,
            stage: view_opt_string(self.stage),
            notes: view_opt_string(self.notes),
        }
    }
}

impl View for OverlayState {
    type V = SpecOverlay;

    open spec fn view(&self) -> SpecOverlay {
        SpecOverlay {
            p1: self.p1@,
            p2: self.p2@,
            meta: self.meta@,
            commentators: self.commentators@.map_values(|c: CommentaryState| c@),
        }
    }
}

impl View for AllSetupsState {
    type V = SpecAll;

    open spec fn view(&self) -> SpecAll {
        SpecAll { setups: self.setups@.map_values(|o: OverlayState| o@) }
    }
}

fn clone_opt_string(o: &Option<String>) -> (r: Option<String>)
    ensures
        view_opt_string(r) == view_opt_string(*o),
{
    match o {
        Some(s) => Some(s.clone()),
        None => None,
    }
}

impl PlayerState {
    /// An exact copy, field by field.
    pub fn duplicate(&self) -> (r: PlayerState)
        ensures
            r@ == self@,
    {
        let r = PlayerState {
            side: self.side.clone(),
            port: self.port,
            tag: self.tag.clone(),
            sponsor: clone_opt_string(&self.sponsor),
            handle: clone_opt_string(&self.handle),
            character: self.character.clone(),
            character_color: self.character_color.clone(),
            score: self.score,
            country_code: clone_opt_string(&self.country_code),
        };
        assert(r@ =~= self@);
        r
    }
}

impl CommentaryState {
    /// An exact copy, field by field.
    pub fn duplicate(&self) -> (r: CommentaryState)
        ensures
            r@ == self@,
    {
        let r = CommentaryState {
            name: self.name.clone(),
            handle: clone_opt_string(&self.handle),
            active: self.active,
        };
        assert(r@ =~= self@);
        r
    }
}

impl MatchMeta {
    /// An exact copy, field by field.
    pub fn duplicate(&self) -> (r: MatchMeta)
        ensures
            r@ == self@,
    {
        let r = MatchMeta {
            tournament: clone_opt_string(&self.tournament),
            round: self.round.clone(),
            best_of: self.best_of,
            game_number: self.game_number,
            stage: clone_opt_string(&self.stage),
            notes: clone_opt_string(&self.notes),
        };
        assert(r@ =~= self@);
        r
    }
}

impl OverlayState {
    /// An exact copy, field by field.
    pub fn duplicate(&self) -> (r: OverlayState)
        ensures
            r@ == self@,
    {
        let mut commentators: Vec<CommentaryState> = Vec::new();
        let mut i: usize = 0;
        while i < self.commentators.len()
            invariant
                i <= self.commentators.len(),
                commentators@.len() == i,
                forall|j: int| 0 <= j < i ==> commentators@[j]@ == self.commentators@[j]@,
            decreases self.commentators.len() - i,
        {
            commentators.push(self.commentators[i].duplicate());
            i += 1;
        }
        let r = OverlayState {
            p1: self.p1.duplicate(),
            p2: self.p2.duplicate(),
            meta: self.meta.duplicate(),
            commentators,
        };
        assert(r@.commentators =~= self@.commentators);
        assert(r@ =~= self@);
        r
    }
}

impl AllSetupsState {
    /// An exact copy, field by field.
    pub fn duplicate(&self) -> (r: AllSetupsState)
        ensures
            r@ == self@,
    {
        let mut setups: Vec<OverlayState> = Vec::new();
        let mut i: usize = 0;
        while i < self.setups.len()
            invariant
                i <= self.setups.len(),
                setups@.len() == i,
                forall|j: int| 0 <= j < i ==> setups@[j]@ == self.setups@[j]@,
            decreases self.setups.len() - i,
        {
            setups.push(self.setups[i].duplicate());
            i += 1;
        }
        let r = AllSetupsState { setups };
        assert(r@.setups =~= self@.setups);
        assert(r@ =~= self@);
        r
    }
}

/// The built-in first player of a fresh setup.
pub open spec fn spec_default_p1() -> SpecPlayer {
    SpecPlayer {
        side: "left"@,
        port: Some(1u8),
        tag: "Player 1"@,
        sponsor: None,
        handle: None,
        character: "Falco"@,
        character_color: "Blue"@,
        score: 0u32,
        country_code: None,
    }
}

/// The built-in second player of a fresh setup.
pub open spec fn spec_default_p2() -> SpecPlayer {
    SpecPlayer {
        side: "right"@,
        port: Some(2u8),
        tag: "Player 2"@,
        sponsor: None,
        handle: None,
        character: "Marth"@,
        character_color: "Red"@,
        score: 0u32,
        country_code: None,
    }
}

/// The built-in match metadata of a fresh setup.
pub open spec fn spec_default_meta() -> SpecMeta {
    SpecMeta {
        tournament: Some("Melee Local"@),
        round: "WF"@,
        best_of: 5u8,
        game_number: Some(1u32),
        stage: None,
        notes: None,
    }
}

/// The built-in setup used wherever a slot has no saved content.
pub open spec fn spec_default_setup() -> SpecOverlay {
    SpecOverlay {
        p1: spec_default_p1(),
        p2: spec_default_p2(),
        meta: spec_default_meta(),
        commentators: Seq::empty(),
    }
}

/// The built-in whole state: the default setup in all four slots.
pub open spec fn spec_default_state() -> SpecAll {
    SpecAll {
        setups: seq![
            spec_default_setup(),
            spec_default_setup(),
            spec_default_setup(),
            spec_default_setup(),
        ],
    }
}

/// A fresh setup with the built-in players and metadata.
pub fn default_setup() -> (r: OverlayState)
    ensures
        r@ == spec_default_setup(),
{
    let r = OverlayState {
        p1: PlayerState {
            side: "left".to_owned(),
            port: Some(1),
            tag: "Player 1".to_owned(),
            sponsor: None,
            handle: None,
            character: "Falco".to_owned(),
            character_color: "Blue".to_owned(),
            score: 0,
            country_code: None,
        },
        p2: PlayerState {
            side: "right".to_owned(),
            port: Some(2),
            tag: "Player 2".to_owned(),
            sponsor: None,
            handle: None,
            character: "Marth".to_owned(),
            character_color: "Red".to_owned(),
            score: 0,
            country_code: None,
        },
        meta: MatchMeta {
            tournament: Some("Melee Local".to_owned()),
            round: "WF".to_owned(),
            best_of: 5,
            game_number: Some(1),
            stage: None,
            notes: None,
        },
        commentators: Vec::new(),
    };
    assert(r@.commentators =~= spec_default_setup().commentators);
    assert(r@ =~= spec_default_setup());
    r
}

/// A fresh whole state: four default setups.
pub fn default_state() -> (r: AllSetupsState)
    ensures
        r@ == spec_default_state(),
{
    let mut setups: Vec<OverlayState> = Vec::new();
    setups.push(default_setup());
    setups.push(default_setup());
    setups.push(default_setup());
    setups.push(default_setup());
    let r = AllSetupsState { setups };
    assert(r@.setups =~= spec_default_state().setups);
    assert(r@ =~= spec_default_state());
    r
}

} // verus!
