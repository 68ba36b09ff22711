use vstd::prelude::*;

use crate::actions::{Actions, Outcome};
use crate::board::{is_match_result, GamePlan, MatchOutcome};
use crate::errors::ActionError;
use crate::player::{action_effect, action_fits, Player, PlayerView};

verus! {

/// How a player's turn goes on after one confirmed action.
#[derive(Clone, PartialEq, Eq, Debug)]
pub enum RoundStep {
    /// The player quit: the match ends after this round.
    QuitGame,
    /// The action was carried out and the turn is over.
    Finished(Outcome),
    /// The action was refused and nothing changed: the player picks again.
    Rejected(ActionError),
}

/// Decides the whole match from the battlefield.
pub fn evaluate_game(game_plan: &GamePlan) -> (r: MatchOutcome)
    ensures
        is_match_result(game_plan@.fields, r),
{
    game_plan.evaluate()
}

/// Plays one confirmed action in a player's turn: quitting ends the
/// player's game and changes nothing; otherwise the action is carried out,
/// which either finishes the turn or is refused with nothing changed.
pub fn play_round(player: &mut Player, game_plan: &mut GamePlan, action: Actions) -> (r: RoundStep)
    requires
        old(player).wf(),
        old(game_plan).wf(),
        action_fits(old(player)@, action),
    ensures
        final(player).wf(),
        final(game_plan).wf(),
        action == Actions::Quit ==> r == RoundStep::QuitGame && final(player)@ == old(player)@
            && final(game_plan)@ == old(game_plan)@,
        action != Actions::Quit ==> match action_effect(old(player)@, old(game_plan)@, action) {
            Ok((p, plan, out)) => r == RoundStep::Finished(out) && final(player)@ == p
                && final(game_plan)@ == plan,
            Err(e) => r == RoundStep::Rejected(e) && final(player)@ == old(player)@
                && final(game_plan)@ == old(game_plan)@,
        },
{
    if action == Actions::Quit {
        return RoundStep::QuitGame;
    }
    match player.perform_action(action, game_plan) {
        Ok(outcome) => RoundStep::Finished(outcome),
        Err(error) => RoundStep::Rejected(error),
    }
}

/// Creates a player named `player_nick`, unless one of `players` already
/// has that name.
pub fn create_player(player_nick: &str, players: &[Player]) -> (r: Result<Player, ActionError>)
    ensures
        match r {
            Ok(p) => {
                &&& p.wf()
                &&& p@ == (PlayerView {
                    nick: player_nick@,
                    buildings: Seq::empty(),
                    archers: 0,
                    warriors: 0,
                    wood: 0,
                    gold: 0,
                })
                &&& forall|i: int| 0 <= i < players@.len() ==> (#[trigger] players@[i])@.nick != player_nick@
            },
            Err(e) => {
                &&& e matches ActionError::DuplicateActorName { name } && name@ == player_nick@
                &&& exists|i: int| 0 <= i < players@.len() && (#[trigger] players@[i])@.nick == player_nick@
            },
        },
{
    let wanted = player_nick.to_owned();
    let mut i: usize = 0;
    while i < players.len()
        invariant
            i <= players@.len(),
            wanted@ == player_nick@,
            forall|k: int| 0 <= k < i ==> (#[trigger] players@[k])@.nick != player_nick@,
        decreases players@.len() - i,
    {
        if *players[i].nick() == wanted {
            return Err(ActionError::DuplicateActorName { name: wanted });
        }
        i = i + 1;
    }
    Ok(Player::new(player_nick))
}

} // verus!
