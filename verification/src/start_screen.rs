//! Rule selection state shown before a game starts.

use vstd::prelude::*;

verus! {

/// The cellular-automaton rules the player can choose from.
#[derive(Clone, Copy, Debug, PartialEq, Eq, Structural)]
pub enum RuleType {
    /// Conway's Game of Life (B3/S23).
    Conway,
    /// HighLife (B36/S23).
    HighLife,
    /// Seeds (B2/S0).
    Seeds,
    /// Brian's Brain (three states).
    Brian,
    /// WireWorld (digital circuits).
    WireWorld,
    /// Immigration (two competing species).
    Immigration,
    /// Mazectric (B3/S1234).
    Mazectric,
    /// Coral (B3/S45678).
    Coral,
    /// Gnarl (B1/S1).
    Gnarl,
    /// Replicator (B1357/S1357).
    Replicator,
}

impl RuleType {
    /// All selectable rules, in display order.
    pub fn all() -> (r: Vec<RuleType>)
        ensures
            r@.len() == 10,
            r@[0] == RuleType::Conway,
    {
        let mut v: Vec<RuleType> = Vec::new();
        v.push(RuleType::Conway);
        v.push(RuleType::HighLife);
        v.push(RuleType::Seeds);
        v.push(RuleType::Brian);
        v.push(RuleType::WireWorld);
        v.push(RuleType::Immigration);
        v.push(RuleType::Mazectric);
        v.push(RuleType::Coral);
        v.push(RuleType::Gnarl);
        v.push(RuleType::Replicator);
        v
    }

    /// Display name of the rule.
    pub fn name(&self) -> (r: &'static str)
    {
        match self {
            RuleType::Conway => "Conway's Life",
            RuleType::HighLife => "HighLife",
            RuleType::Seeds => "Seeds",
            RuleType::Brian => "Brian's Brain",
            RuleType::WireWorld => "WireWorld",
            RuleType::Immigration => "Immigration",
            RuleType::Mazectric => "Mazectric",
            RuleType::Coral => "Coral",
            RuleType::Gnarl => "Gnarl",
            RuleType::Replicator => "Replicator",
        }
    }

    /// One-line description of the rule.
    pub fn description(&self) -> (r: &'static str)
    {
        match self {
            RuleType::Conway => "B3/S23 - Classic Game of Life",
            RuleType::HighLife => "B36/S23 - Conway + birth on 6",
            RuleType::Seeds => "B2/S0 - No survival, birth on 2",
            RuleType::Brian => "3-state firing and refractory cells",
            RuleType::WireWorld => "4-state digital circuit simulation",
            RuleType::Immigration => "B3/S23 with two competing species",
            RuleType::Mazectric => "B3/S1234 - Intricate maze patterns",
            RuleType::Coral => "B3/S45678 - Coral-like growth",
            RuleType::Gnarl => "B1/S1 - Chaotic explosive growth",
            RuleType::Replicator => "B1357/S1357 - Self-replication",
        }
    }
}

impl Default for RuleType {
    fn default() -> (r: Self)
        ensures
            r == RuleType::Conway,
    {
        RuleType::Conway
    }
}

/// Top-level flow of the application.
#[derive(Clone, Copy, Debug, PartialEq, Eq, Structural)]
pub enum GameState {
    /// The rule-selection screen.
    StartScreen,
    /// The running simulation.
    InGame,
}

impl Default for GameState {
    fn default() -> (r: Self)
        ensures
            r == GameState::StartScreen,
    {
        GameState::StartScreen
    }
}

/// The rule currently highlighted on the start screen.
#[derive(Clone, Copy, Debug, PartialEq, Eq, Structural)]
pub struct SelectedRule {
    /// The highlighted rule.
    pub rule_type: RuleType,
}

impl Default for SelectedRule {
    fn default() -> (r: Self)
        ensures
            r == (SelectedRule { rule_type: RuleType::Conway }),
    {
        SelectedRule { rule_type: RuleType::Conway }
    }
}

} // verus!
