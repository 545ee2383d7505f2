//! All games of the process, one for each group that has played, and the
//! routing of what participants submit to the game that it is meant for.

use crate::lists::exactly_one;
use crate::werewolf::game::{
    continue_game,
    step,
    walk,
    Action,
    ActionError,
    Directive,
    Event,
    GameModel,
    GameState,
    SignupError,
};
use crate::werewolf::laws::{
    lemma_accept,
    lemma_continue_game,
    lemma_sign_out,
    lemma_sign_up,
    lemma_step,
};
use vstd::prelude::*;

verus! {

/// Some game belongs to the group.
pub open spec fn has_game(games: Seq<GameModel>, guild: u64) -> bool {
    exists|i: int| 0 <= i < games.len() && (#[trigger] games[i]).guild == guild
}

/// The place of the group's game among the games.
pub open spec fn index_of(games: Seq<GameModel>, guild: u64) -> int {
    choose|i: int| 0 <= i < games.len() && (#[trigger] games[i]).guild == guild
}

/// The game of another group holds `who`: as enrolled or as a player.
pub open spec fn held_elsewhere(games: Seq<GameModel>, guild: u64, who: u64) -> bool {
    exists|i: int|
        0 <= i < games.len() && (#[trigger] games[i]).guild != guild
            && games[i].phase.participants().contains(who)
}

/// Nobody is held to the games of two groups.
pub open spec fn exclusive(games: Seq<GameModel>) -> bool {
    forall|i: int, j: int, who: u64|
        0 <= i < games.len() && 0 <= j < games.len() && i != j && #[trigger] holds(games, i, who)
            ==> !#[trigger] holds(games, j, who)
}

/// The game at place `at` holds `who` to it.
pub open spec fn holds(games: Seq<GameModel>, at: int, who: u64) -> bool {
    games[at].phase.participants().contains(who)
}

/// Each game is well formed, each group has one game at most, and nobody is
/// held to the games of two groups.
pub open spec fn registry_wf(games: Seq<GameModel>) -> bool {
    &&& forall|i: int| 0 <= i < games.len() ==> (#[trigger] games[i]).wf()
    &&& forall|i: int, j: int|
        0 <= i < j < games.len() ==> (#[trigger] games[i]).guild != (#[trigger] games[j]).guild
    &&& exclusive(games)
}

/// The games with a new game for the group where it had none.
pub open spec fn with_game(games: Seq<GameModel>, guild: u64) -> Seq<GameModel> {
    if has_game(games, guild) {
        games
    } else {
        games.push(GameModel::initial(guild))
    }
}

/// The places, among the first `upto` games, of those in which `who` may
/// act, in ascending order.
pub open spec fn candidates(games: Seq<GameModel>, who: u64, upto: int) -> Seq<usize>
    decreases upto,
{
    if upto <= 0 {
        Seq::empty()
    } else if games[upto - 1].phase.admits(who) {
        candidates(games, who, upto - 1).push((upto - 1) as usize)
    } else {
        candidates(games, who, upto - 1)
    }
}

/// The place of the one game in which `who` may act; nothing where there is
/// no such game, or more than one.
pub open spec fn located(games: Seq<GameModel>, who: u64) -> Option<usize> {
    let found = candidates(games, who, games.len() as int);
    if found.len() == 1 {
        Some(found[0])
    } else {
        None
    }
}

/// The places, among the first `upto` games, of the running games that
/// `who` is a player of, in ascending order.
pub open spec fn played(games: Seq<GameModel>, who: u64, upto: int) -> Seq<usize>
    decreases upto,
{
    if upto <= 0 {
        Seq::empty()
    } else if plays(games[upto - 1], who) {
        played(games, who, upto - 1).push((upto - 1) as usize)
    } else {
        played(games, who, upto - 1)
    }
}

/// `who` is a player of the game, which is running.
pub open spec fn plays(game: GameModel, who: u64) -> bool {
    game.phase.secret_ids() is Some && game.phase.secret_ids()->0.contains(who)
}

/// The place of the one running game that `who` is a player of; nothing
/// where there is no such game, or more than one.
pub open spec fn playing_at(games: Seq<GameModel>, who: u64) -> Option<usize> {
    let found = played(games, who, games.len() as int);
    if found.len() == 1 {
        Some(found[0])
    } else {
        None
    }
}

/// The games after `who` has tried to enroll in the game of the group:
/// nothing changes where another group's game holds him; otherwise the
/// group has a game and that game has taken the enrollment.
pub open spec fn signed_up(games: Seq<GameModel>, guild: u64, who: u64) -> Seq<GameModel> {
    if held_elsewhere(games, guild, who) {
        games
    } else {
        let all = with_game(games, guild);
        all.update(index_of(all, guild), all[index_of(all, guild)].sign_up(who))
    }
}

/// Why `who` cannot enroll in the game of the group, where he cannot.
pub open spec fn sign_up_error(games: Seq<GameModel>, guild: u64, who: u64) -> Option<
    SignupError,
> {
    if held_elsewhere(games, guild, who) {
        Some(SignupError::InOtherGame)
    } else {
        let all = with_game(games, guild);
        all[index_of(all, guild)].sign_up_error(who)
    }
}

/// The games after `who` has tried to withdraw from the game of the group.
pub open spec fn signed_out(games: Seq<GameModel>, guild: u64, who: u64) -> Seq<GameModel> {
    let all = with_game(games, guild);
    all.update(index_of(all, guild), all[index_of(all, guild)].sign_out(who))
}

/// Why `who` cannot withdraw from the game of the group, where he cannot.
pub open spec fn sign_out_error(games: Seq<GameModel>, guild: u64, who: u64) -> Option<
    SignupError,
> {
    let all = with_game(games, guild);
    all[index_of(all, guild)].sign_out_error(who)
}

/// The group whose game takes the action, or why no game takes it.
pub open spec fn routed(games: Seq<GameModel>, action: Action) -> Result<u64, ActionError> {
    match located(games, action.source()) {
        None => Err(ActionError::NotInOneGame),
        Some(at) => match games[at as int].accept(action) {
            Ok(_) => Ok(games[at as int].guild),
            Err(error) => Err(error),
        },
    }
}

/// The games after the action was routed: the one game in which its source
/// may act has taken it, if it could.
pub open spec fn after_action(games: Seq<GameModel>, action: Action) -> Seq<GameModel> {
    match located(games, action.source()) {
        None => games,
        Some(at) => match games[at as int].accept(action) {
            Ok(game) => games.update(at as int, game),
            Err(_) => games,
        },
    }
}

/// The game of the group has taken the step that the event stands for, with
/// the coin `healer`: `next` are the games after it and `out` is what it
/// hands back.
pub open spec fn taken(
    games: Seq<GameModel>,
    guild: u64,
    event: crate::werewolf::game::EventModel,
    healer: bool,
    next: Seq<GameModel>,
    out: crate::werewolf::game::DirectiveModel,
) -> bool {
    let at = index_of(games, guild);
    let step = games[at].step(event, healer);
    next == games.update(at, step.game) && out == step.out
}

/// A game may be replaced by one of the same group that is well formed and
/// holds nobody new.
pub proof fn lemma_replace(games: Seq<GameModel>, at: int, game: GameModel)
    requires
        registry_wf(games),
        0 <= at < games.len(),
        game.wf(),
        game.guild == games[at].guild,
        game.phase.participants().subset_of(games[at].phase.participants()),
    ensures
        registry_wf(games.update(at, game)),
{
    let next = games.update(at, game);
    assert forall|i: int, j: int, who: u64|
        0 <= i < next.len() && 0 <= j < next.len() && i != j && #[trigger] holds(
            next,
            i,
            who,
        ) implies !#[trigger] holds(next, j, who) by {
        assert(holds(games, i, who));
        if holds(next, j, who) {
            assert(holds(games, j, who));
        }
    }
}

/// A game may take the enrollment of somebody whom no other group's game
/// holds.
pub proof fn lemma_enroll(games: Seq<GameModel>, at: int, who: u64, game: GameModel)
    requires
        registry_wf(games),
        0 <= at < games.len(),
        !held_elsewhere(games, games[at].guild, who),
        game.wf(),
        game.guild == games[at].guild,
        game.phase.participants().subset_of(games[at].phase.participants().insert(who)),
    ensures
        registry_wf(games.update(at, game)),
{
    let next = games.update(at, game);
    assert forall|i: int, j: int, x: u64|
        0 <= i < next.len() && 0 <= j < next.len() && i != j && #[trigger] holds(
            next,
            i,
            x,
        ) implies !#[trigger] holds(next, j, x) by {
        if holds(next, j, x) {
            if i == at {
                if j < at {
                    assert(games[j].guild != games[at].guild);
                } else {
                    assert(games[at].guild != games[j].guild);
                }
                if x != who {
                    assert(holds(games, i, x));
                    assert(holds(games, j, x));
                }
            } else if j == at {
                if i < at {
                    assert(games[i].guild != games[at].guild);
                } else {
                    assert(games[at].guild != games[i].guild);
                }
                if x != who {
                    assert(holds(games, j, x));
                    assert(holds(games, i, x));
                }
            } else {
                assert(holds(games, i, x));
                assert(holds(games, j, x));
            }
        }
    }
}

/// A group without a game may get a new one.
pub proof fn lemma_new_game(games: Seq<GameModel>, guild: u64)
    requires
        registry_wf(games),
        !has_game(games, guild),
    ensures
        registry_wf(games.push(GameModel::initial(guild))),
        index_of(games.push(GameModel::initial(guild)), guild) == games.len(),
        has_game(games.push(GameModel::initial(guild)), guild),
{
    let next = games.push(GameModel::initial(guild));
    assert(next[games.len() as int].guild == guild);
    assert forall|i: int, j: int| 0 <= i < j < next.len() implies (#[trigger] next[i]).guild != (
    #[trigger] next[j]).guild by {
        if j == games.len() {
            assert(games[i].guild != guild);
        }
    }
    assert forall|i: int, j: int, who: u64|
        0 <= i < next.len() && 0 <= j < next.len() && i != j && #[trigger] holds(
            next,
            i,
            who,
        ) implies !#[trigger] holds(next, j, who) by {
        if i < games.len() && j < games.len() {
            assert(holds(games, i, who));
            if holds(next, j, who) {
                assert(holds(games, j, who));
            }
        }
    }
    let at = index_of(next, guild);
    if at < games.len() {
        assert(games[at].guild == guild);
    }
}

/// In a registry that is well formed nobody is enrolled, a player or alive
/// in the games of two groups.
pub proof fn lemma_one_game_each(games: Seq<GameModel>, i: int, j: int, who: u64)
    requires
        registry_wf(games),
        0 <= i < games.len(),
        0 <= j < games.len(),
        i != j,
    ensures
        games[i].guild != games[j].guild,
        !(held_by(games[i], who) && held_by(games[j], who)),
{
    if held_by(games[i], who) && held_by(games[j], who) {
        lemma_held(games[i], who);
        lemma_held(games[j], who);
        assert(holds(games, i, who));
        assert(holds(games, j, who));
    }
    if i < j {
        assert(games[i].guild != games[j].guild);
    } else {
        assert(games[j].guild != games[i].guild);
    }
}

/// The game lists `who`: as enrolled, as a player or as alive.
pub open spec fn held_by(game: GameModel, who: u64) -> bool {
    ||| game.phase is Signups && game.phase->enrolled.contains(who)
    ||| game.phase.secret_ids() is Some && game.phase.secret_ids()->0.contains(who)
    ||| game.phase.alive() is Some && game.phase.alive()->0.contains(who)
}

proof fn lemma_held(game: GameModel, who: u64)
    requires
        game.wf(),
        held_by(game, who),
    ensures
        game.phase.participants().contains(who),
{
    if game.phase.alive() is Some && game.phase.alive()->0.contains(who) {
        let alive = game.phase.alive()->0;
        let i = choose|i: int| 0 <= i < alive.len() && alive[i] == who;
        assert(game.phase.secret_ids()->0.contains(alive[i]));
    }
}

/// Nobody may act in the games of two groups: at most one game is found
/// for a participant.
pub proof fn lemma_one_candidate(games: Seq<GameModel>, who: u64, upto: int)
    requires
        registry_wf(games),
        0 <= upto <= games.len() <= usize::MAX,
    ensures
        candidates(games, who, upto).len() <= 1,
        candidates(games, who, upto).len() == 1 ==> candidates(games, who, upto)[0] < upto
            && games[candidates(games, who, upto)[0] as int].phase.admits(who),
    decreases upto,
{
    if upto > 0 {
        lemma_one_candidate(games, who, upto - 1);
        let before = candidates(games, who, upto - 1);
        if games[upto - 1].phase.admits(who) && before.len() == 1 {
            let other = before[0] as int;
            assert(held_by(games[upto - 1], who));
            assert(held_by(games[other], who));
            lemma_one_game_each(games, other, upto - 1, who);
        }
    }
}

/// The games of all groups.
#[derive(Debug)]
pub struct Registry {
    games: Vec<GameState>,
}

impl View for Registry {
    type V = Seq<GameModel>;

    closed spec fn view(&self) -> Seq<GameModel> {
        Seq::new(self.games@.len(), |i: int| self.games@[i]@)
    }
}

impl Registry {
    /// A registry without games.
    pub fn new() -> (registry: Registry)
        ensures
            registry@ == Seq::<GameModel>::empty(),
            registry_wf(registry@),
    {
        let registry = Registry { games: Vec::new() };
        assert(registry@ =~= Seq::<GameModel>::empty());
        registry
    }

    /// The number of games.
    pub fn len(&self) -> (n: usize)
        ensures
            n == self@.len(),
    {
        self.games.len()
    }

    fn find(&self, guild: u64) -> (at: Option<usize>)
        requires
            registry_wf(self@),
        ensures
            at is Some == has_game(self@, guild),
            at is Some ==> at->0 == index_of(self@, guild) && at->0 < self.games@.len(),
    {
        let mut i: usize = 0;
        while i < self.games.len()
            invariant
                registry_wf(self@),
                i <= self.games@.len(),
                forall|k: int| 0 <= k < i ==> (#[trigger] self@[k]).guild != guild,
            decreases self.games@.len() - i,
        {
            if self.games[i].guild() == guild {
                proof {
                    assert(self@[i as int].guild == guild);
                    let at = index_of(self@, guild);
                    if at < i {
                        assert(self@[at].guild != self@[i as int].guild);
                    }
                    if i < at {
                        assert(self@[i as int].guild != self@[at].guild);
                    }
                }
                return Some(i);
            }
            i += 1;
        }
        None
    }

    /// Whether the group has a game.
    pub fn has_game(&self, guild: u64) -> (found: bool)
        requires
            registry_wf(self@),
        ensures
            found == has_game(self@, guild),
    {
        self.find(guild).is_some()
    }

    /// The game of the group, where it has one.
    pub fn game(&self, guild: u64) -> (game: Option<&GameState>)
        requires
            registry_wf(self@),
        ensures
            game is Some == has_game(self@, guild),
            game is Some ==> game->0@ == self@[index_of(self@, guild)],
    {
        match self.find(guild) {
            Some(at) => Some(&self.games[at]),
            None => None,
        }
    }

    /// Whether the game of another group holds `who`.
    fn held_elsewhere(&self, guild: u64, who: u64) -> (held: bool)
        ensures
            held == held_elsewhere(self@, guild, who),
    {
        let mut i: usize = 0;
        while i < self.games.len()
            invariant
                i <= self.games@.len(),
                forall|k: int|
                    0 <= k < i ==> !((#[trigger] self@[k]).guild != guild
                        && self@[k].phase.participants().contains(who)),
            decreases self.games@.len() - i,
        {
            if self.games[i].guild() != guild && self.games[i].phase().holds(who) {
                assert(self@[i as int].guild != guild);
                return true;
            }
            i += 1;
        }
        false
    }

    /// The place of the group's game, which is made where there is none.
    fn ensure_game(&mut self, guild: u64) -> (at: usize)
        requires
            registry_wf(old(self)@),
        ensures
            final(self)@ == with_game(old(self)@, guild),
            registry_wf(final(self)@),
            at == index_of(final(self)@, guild),
            at < final(self)@.len(),
            final(self)@[at as int].guild == guild,
    {
        match self.find(guild) {
            Some(at) => at,
            None => {
                proof {
                    lemma_new_game(self@, guild);
                }
                let at = self.games.len();
                self.games.push(GameState::new(guild));
                assert(self@ =~= old(self)@.push(GameModel::initial(guild)));
                at
            },
        }
    }

    /// The place of the one game in which `who` may act.
    fn locate_at(&self, who: u64) -> (at: Option<usize>)
        ensures
            at == located(self@, who),
            at is Some ==> at->0 < self@.len(),
    {
        let mut found: Vec<usize> = Vec::new();
        let mut i: usize = 0;
        while i < self.games.len()
            invariant
                i <= self.games@.len(),
                found@ == candidates(self@, who, i as int),
                forall|k: int| 0 <= k < found@.len() ==> found@[k] < i,
            decreases self.games@.len() - i,
        {
            if self.games[i].phase().admits(who) {
                found.push(i);
            }
            i += 1;
        }
        exactly_one(found)
    }

    /// The group of the one game in which `who` may act: as a player at
    /// night, as a living player by day.
    pub fn locate(&self, who: u64) -> (guild: Option<u64>)
        ensures
            guild == match located(self@, who) {
                Some(at) => Some(self@[at as int].guild),
                None => None,
            },
    {
        match self.locate_at(who) {
            Some(at) => Some(self.games[at].guild()),
            None => None,
        }
    }

    /// The place of the one running game that `who` is a player of.
    fn playing_at(&self, who: u64) -> (at: Option<usize>)
        ensures
            at == playing_at(self@, who),
            at is Some ==> at->0 < self@.len() && plays(self@[at->0 as int], who),
    {
        let mut found: Vec<usize> = Vec::new();
        let mut i: usize = 0;
        while i < self.games.len()
            invariant
                i <= self.games@.len(),
                found@ == played(self@, who, i as int),
                forall|k: int|
                    0 <= k < found@.len() ==> (#[trigger] found@[k]) < i && plays(
                        self@[found@[k] as int],
                        who,
                    ),
            decreases self.games@.len() - i,
        {
            if self.games[i].phase().is_player(who) {
                found.push(i);
            }
            i += 1;
        }
        exactly_one(found)
    }

    /// The one running game that `who` is a player of.
    pub fn playing_in(&self, who: u64) -> (game: Option<&GameState>)
        ensures
            game is Some == playing_at(self@, who) is Some,
            game is Some ==> game->0@ == self@[playing_at(self@, who)->0 as int] && plays(
                game->0@,
                who,
            ),
    {
        match self.playing_at(who) {
            Some(at) => Some(&self.games[at]),
            None => None,
        }
    }

    /// Takes the game of the group one step. The group has to have a game.
    pub fn step(&mut self, guild: u64, event: Event) -> (out: Directive)
        requires
            registry_wf(old(self)@),
            has_game(old(self)@, guild),
        ensures
            registry_wf(final(self)@),
            taken(old(self)@, guild, event@, true, final(self)@, out@) || taken(
                old(self)@,
                guild,
                event@,
                false,
                final(self)@,
                out@,
            ),
    {
        let at = self.find(guild).unwrap();
        let ghost before = self@;
        let mut game = self.games.remove(at);
        assert(game@ == before[at as int]);
        let out = step(&mut game, event);
        let ghost healer = walk(game@, out@) == before[at as int].step(event@, true);
        proof {
            lemma_step(before[at as int], event@, healer);
            lemma_replace(before, at as int, game@);
        }
        self.games.insert(at, game);
        assert(self@ =~= before.update(at as int, before[at as int].step(event@, healer).game));
        out
    }
}

/// Enrolls `who` in the game of the group, which is made where the group
/// has none. Who is held to the game of another group cannot enroll.
pub fn command_in(registry: &mut Registry, guild: u64, who: u64) -> (result: Result<
    (),
    SignupError,
>)
    requires
        registry_wf(old(registry)@),
    ensures
        final(registry)@ == signed_up(old(registry)@, guild, who),
        match sign_up_error(old(registry)@, guild, who) {
            Some(error) => result == Err::<(), SignupError>(error),
            None => result is Ok,
        },
        registry_wf(final(registry)@),
{
    if registry.held_elsewhere(guild, who) {
        return Err(SignupError::InOtherGame);
    }
    let at = registry.ensure_game(guild);
    let ghost all = registry@;
    proof {
        if !has_game(old(registry)@, guild) {
            assert forall|i: int|
                0 <= i < all.len() && (#[trigger] all[i]).guild != guild implies !all[i].phase.participants().contains(
                who,
            ) by {
                if i < old(registry)@.len() {
                    assert(old(registry)@[i].guild != guild);
                }
            }
        }
        assert(!held_elsewhere(all, guild, who));
    }
    let mut game = registry.games.remove(at);
    let result = game.sign_up(who);
    proof {
        lemma_sign_up(all[at as int], who);
        lemma_enroll(all, at as int, who, game@);
    }
    registry.games.insert(at, game);
    assert(registry@ =~= all.update(at as int, all[at as int].sign_up(who)));
    result
}

/// Withdraws the enrollment of `who` from the game of the group, which is
/// made where the group has none.
pub fn command_out(registry: &mut Registry, guild: u64, who: u64) -> (result: Result<
    (),
    SignupError,
>)
    requires
        registry_wf(old(registry)@),
    ensures
        final(registry)@ == signed_out(old(registry)@, guild, who),
        match sign_out_error(old(registry)@, guild, who) {
            Some(error) => result == Err::<(), SignupError>(error),
            None => result is Ok,
        },
        registry_wf(final(registry)@),
{
    let at = registry.ensure_game(guild);
    let ghost all = registry@;
    let mut game = registry.games.remove(at);
    let result = game.sign_out(who);
    proof {
        lemma_sign_out(all[at as int], who);
        lemma_replace(all, at as int, game@);
    }
    registry.games.insert(at, game);
    assert(registry@ =~= all.update(at as int, all[at as int].sign_out(who)));
    result
}

/// Routes what a participant submits to the one game in which he may act,
/// and hands back the group of that game. Who may act in no game, or in
/// several, is told so; otherwise the game decides.
///
/// This only routes the action and has the game take it: the phase of the
/// game is not looked at. After an action that was taken, the game's step
/// for a change has to follow at once (`Registry::step` with
/// `Event::Changed`); `submit` does both.
pub fn handle_action(registry: &mut Registry, action: Action) -> (result: Result<u64, ActionError>)
    requires
        registry_wf(old(registry)@),
    ensures
        result == routed(old(registry)@, action),
        final(registry)@ == after_action(old(registry)@, action),
        registry_wf(final(registry)@),
{
    let at = match registry.locate_at(action.src()) {
        Some(at) => at,
        None => {
            return Err(ActionError::NotInOneGame);
        },
    };
    let ghost all = registry@;
    let mut game = registry.games.remove(at);
    let guild = game.guild();
    let taken = game.accept(action);
    proof {
        if all[at as int].accept(action) is Ok {
            lemma_accept(all[at as int], action);
            lemma_replace(all, at as int, game@);
        }
    }
    registry.games.insert(at, game);
    match taken {
        Ok(()) => {
            assert(registry@ =~= all.update(at as int, all[at as int].accept(action)->Ok_0));
            Ok(guild)
        },
        Err(error) => {
            assert(registry@ =~= all);
            Err(error)
        },
    }
}

/// The games after an action was routed and, where a game has taken it, the
/// phase of that game was looked at.
pub open spec fn after_submit(games: Seq<GameModel>, action: Action, complete: bool) -> Seq<
    GameModel,
> {
    if routed(games, action) is Ok {
        let at = located(games, action.source())->0 as int;
        let taken = after_action(games, action);
        taken.update(at, taken[at].continue_game(complete).game)
    } else {
        games
    }
}

/// Routes what a participant submits, as `handle_action` does, and where a
/// game takes it looks at the phase of that game at once: a night that is
/// complete with the action, or a day that the ballot decides, is to be
/// resolved without waiting for its timer. `complete` says whether the
/// rules take the night as complete once the action is held.
pub fn submit(registry: &mut Registry, action: Action, complete: bool) -> (result: Result<
    (u64, Directive),
    ActionError,
>)
    requires
        registry_wf(old(registry)@),
    ensures
        final(registry)@ == after_submit(old(registry)@, action, complete),
        registry_wf(final(registry)@),
        match routed(old(registry)@, action) {
            Ok(guild) => result is Ok && result->Ok_0.0 == guild && result->Ok_0.1@ == after_action(
                old(registry)@,
                action,
            )[located(old(registry)@, action.source())->0 as int].continue_game(complete).out,
            Err(error) => result is Err && result->Err_0 == error,
        },
{
    let at = match registry.locate_at(action.src()) {
        Some(at) => at,
        None => {
            return Err(ActionError::NotInOneGame);
        },
    };
    let ghost all = registry@;
    let mut game = registry.games.remove(at);
    let guild = game.guild();
    match game.accept(action) {
        Ok(()) => {
            let ghost held = game@;
            let out = continue_game(&mut game, complete);
            proof {
                lemma_accept(all[at as int], action);
                lemma_continue_game(held, complete);
                lemma_replace(all, at as int, game@);
            }
            let ghost stepped = game@;
            registry.games.insert(at, game);
            assert(registry@ =~= all.update(at as int, stepped));
            assert(registry@ =~= after_submit(all, action, complete));
            Ok((guild, out))
        },
        Err(error) => {
            registry.games.insert(at, game);
            assert(registry@ =~= all);
            Err(error)
        },
    }
}

/// Whether `user` is a player of the running game of the group.
pub fn player_in_game(registry: &Registry, user: u64, guild: u64) -> (playing: bool)
    requires
        registry_wf(registry@),
    ensures
        playing == (has_game(registry@, guild) && {
            let phase = registry@[index_of(registry@, guild)].phase;
            phase.secret_ids() is Some && phase.secret_ids()->0.contains(user)
        }),
{
    match registry.game(guild) {
        Some(game) => game.phase().is_player(user),
        None => false,
    }
}

} // verus!
