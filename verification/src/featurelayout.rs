//! The feature index that AI tools use to discover what the repository
//! offers.

use vstd::prelude::*;

verus! {

/// Top-level container for the feature index.
#[derive(Debug, Clone)]
pub struct FeatureLayout {
    /// Repository this index describes.
    pub repo: String,
    /// Schema version for forward compatibility.
    pub version: String,
    /// Discoverable features.
    pub features: Vec<FeatureEntry>,
}

/// A single feature that AI can discover and use.
#[derive(Debug, Clone)]
pub struct FeatureEntry {
    /// Globally unique, dot-separated identifier.
    pub id: String,
    /// Human-readable title.
    pub title: String,
    /// What this feature does.
    pub description: Option<String>,
    /// Controlled vocabulary tags for semantic queries.
    pub tags: Vec<FeatureTag>,
    /// Knowledge-graph system nodes that implement this feature.
    pub systems: Vec<String>,
    /// JSON Schema files that define contracts for this feature.
    pub schemas: Vec<String>,
    /// Example files demonstrating usage.
    pub examples: Vec<String>,
    /// Recommended CLI invocations for common tasks.
    pub commands: Vec<String>,
    /// High-level capability labels for role-based discovery.
    pub roles: Vec<FeatureRole>,
    /// Session conditions under which this feature is shown.
    pub session_tags: Vec<SessionTag>,
}

/// Controlled vocabulary for feature tagging.
#[derive(Debug, Clone, Copy, PartialEq, Eq, Structural)]
pub enum FeatureTag {
    Nintendoor64,
    Starzip,
    Sonia,
    Conk64,
    BondFPS,
    RetroNES,
    RetroSNES,
    RetroN64,
    RetroPS1,
    Deterministic,
    PatchSynthesizer,
    ScenarioDirector,
    NarrativeCartographer,
    BudgetPlanner,
    SchemaDesigner,
    BinarySafe,
    LuaFacing,
    ArenaShooter,
    FantasyFPS,
    ThirdPersonShooter,
    DestructionBrawler,
    Platformer2D,
    KnowledgeGraph,
    CIIntegrated,
    AIFacing,
}

/// High-level roles for coarse-grained discovery.
#[derive(Debug, Clone, Copy, PartialEq, Eq, Structural)]
pub enum FeatureRole {
    /// Generates or modifies binary ROM/ISO patches.
    PatchSynthesizer,
    /// Defines mission objectives and trigger logic.
    ScenarioDirector,
    /// Manages branching narrative structures.
    NarrativeCartographer,
    /// Analyzes and suggests resource optimizations.
    BudgetPlanner,
    /// Defines and validates JSON Schema contracts.
    SchemaDesigner,
    /// Provides AI navigation over repo structure.
    FeatureNavigator,
    /// Manages artifact lifecycle and validation.
    ArtifactManager,
}

/// Conditions under which a feature should be visible to AI.
#[derive(Debug, Clone, Copy, PartialEq, Eq, Structural)]
pub enum SessionTag {
    /// Requires the N64 toolchain to be active.
    RequiresN64,
    /// Requires the PS1 toolchain to be active.
    RequiresPS1,
    /// Only valid when the determinism invariant is enabled.
    RequiresDeterminism,
    /// Requires the retro-backend feature flag.
    RequiresRetroBackend,
    /// Experimental; requires opt-in.
    Experimental,
}

} // verus!
