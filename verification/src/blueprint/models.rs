//! Blueprint data model: taxonomy enums, the blueprint node, the tiered
//! response, and the request and query types.

use vstd::prelude::*;
use crate::text::{chars_of, eq_str, extend_str, replaced, string_of};
use crate::unicode::{lowercase, str_to_lowercase, str_to_uppercase, uppercase};
use crate::ids::{Timestamp, new_uuid_v4, utc_now};

verus! {

// ============================================================================
// Enums
// ============================================================================

/// Taxonomy scope: what level of work a blueprint addresses.
#[derive(Debug, Clone, Copy, PartialEq, Eq, Hash, Structural)]
pub enum BlueprintScope {
    /// App-level: project kickoff, architecture decisions
    Scaffolding,
    /// Feature-level: OAuth, push notifications, payments
    Feature,
    /// Code-level: AsyncNotifier, ViewModel, service layer
    Pattern,
    /// Workflow-level: PR strategy, release checklist, CI/CD
    Process,
}

/// Domain category, matching the folder structure of the blueprint repo.
#[derive(Debug, Clone, Copy, PartialEq, Eq, Hash, Structural)]
pub enum BlueprintCategory {
    /// project-setup/
    ProjectSetup,
    /// ci-cd/
    CiCd,
    /// architecture/
    Architecture,
    /// workflow/
    Workflow,
    /// patterns/
    Patterns,
    /// testing/
    Testing,
}

/// Lifecycle status of a blueprint.
#[derive(Debug, Clone, Copy, PartialEq, Eq, Hash, Structural)]
pub enum BlueprintStatus {
    /// Newly ingested, not yet reviewed
    Draft,
    /// Validated and available for agent use
    Active,
    /// Removed or superseded, preserved for history
    Archived,
}

/// Type of relation between two blueprints.
#[derive(Debug, Clone, Copy, PartialEq, Eq, Hash, Structural)]
pub enum BlueprintRelationType {
    /// Blueprint A requires Blueprint B (transitive in resolution)
    DependsOn,
    /// Blueprint A complements Blueprint B (suggested together)
    PairsWith,
}

/// Difficulty level of a blueprint.
#[derive(Debug, Clone, Copy, PartialEq, Eq, Hash, Structural)]
pub enum BlueprintDifficulty {
    Beginner,
    Intermediate,
    Advanced,
}

// ---------------------------------------------------------------------------
// Names
// ---------------------------------------------------------------------------

/// The name a scope is written with.
pub open spec fn scope_name(s: BlueprintScope) -> Seq<char> {
    match s {
        BlueprintScope::Scaffolding => "scaffolding"@,
        BlueprintScope::Feature => "feature"@,
        BlueprintScope::Pattern => "pattern"@,
        BlueprintScope::Process => "process"@,
    }
}

/// The scope a (lowercased) name stands for.
pub open spec fn scope_from_name(n: Seq<char>) -> Option<BlueprintScope> {
    if n == "scaffolding"@ {
        Some(BlueprintScope::Scaffolding)
    } else if n == "feature"@ {
        Some(BlueprintScope::Feature)
    } else if n == "pattern"@ {
        Some(BlueprintScope::Pattern)
    } else if n == "process"@ {
        Some(BlueprintScope::Process)
    } else {
        None
    }
}

/// The name a category is written with.
pub open spec fn category_name(c: BlueprintCategory) -> Seq<char> {
    match c {
        BlueprintCategory::ProjectSetup => "project_setup"@,
        BlueprintCategory::CiCd => "ci_cd"@,
        BlueprintCategory::Architecture => "architecture"@,
        BlueprintCategory::Workflow => "workflow"@,
        BlueprintCategory::Patterns => "patterns"@,
        BlueprintCategory::Testing => "testing"@,
    }
}

/// The category a name stands for, once lowercased and with `-` turned
/// into `_`.
pub open spec fn category_from_name(n: Seq<char>) -> Option<BlueprintCategory> {
    if n == "project_setup"@ || n == "project-setup"@ {
        Some(BlueprintCategory::ProjectSetup)
    } else if n == "ci_cd"@ || n == "ci-cd"@ {
        Some(BlueprintCategory::CiCd)
    } else if n == "architecture"@ {
        Some(BlueprintCategory::Architecture)
    } else if n == "workflow"@ {
        Some(BlueprintCategory::Workflow)
    } else if n == "patterns"@ {
        Some(BlueprintCategory::Patterns)
    } else if n == "testing"@ {
        Some(BlueprintCategory::Testing)
    } else {
        None
    }
}

/// The normal form of a category name: lowercased, `-` replaced by `_`.
pub open spec fn category_key(s: Seq<char>) -> Seq<char> {
    crate::text::replace_char(lowercase(s), '-', '_')
}

/// The name a status is written with.
pub open spec fn status_name(s: BlueprintStatus) -> Seq<char> {
    match s {
        BlueprintStatus::Draft => "draft"@,
        BlueprintStatus::Active => "active"@,
        BlueprintStatus::Archived => "archived"@,
    }
}

/// The status a (lowercased) name stands for.
pub open spec fn status_from_name(n: Seq<char>) -> Option<BlueprintStatus> {
    if n == "draft"@ {
        Some(BlueprintStatus::Draft)
    } else if n == "active"@ {
        Some(BlueprintStatus::Active)
    } else if n == "archived"@ {
        Some(BlueprintStatus::Archived)
    } else {
        None
    }
}

/// The name a relation type is written with (its graph relationship type).
pub open spec fn relation_name(r: BlueprintRelationType) -> Seq<char> {
    match r {
        BlueprintRelationType::DependsOn => "DEPENDS_ON"@,
        BlueprintRelationType::PairsWith => "PAIRS_WITH"@,
    }
}

/// The relation type an (uppercased) name stands for.
pub open spec fn relation_from_name(n: Seq<char>) -> Option<BlueprintRelationType> {
    if n == "DEPENDS_ON"@ || n == "depends_on"@ {
        Some(BlueprintRelationType::DependsOn)
    } else if n == "PAIRS_WITH"@ || n == "pairs_with"@ {
        Some(BlueprintRelationType::PairsWith)
    } else {
        None
    }
}

/// The name a difficulty is written with.
pub open spec fn difficulty_name(d: BlueprintDifficulty) -> Seq<char> {
    match d {
        BlueprintDifficulty::Beginner => "beginner"@,
        BlueprintDifficulty::Intermediate => "intermediate"@,
        BlueprintDifficulty::Advanced => "advanced"@,
    }
}

/// The difficulty a (lowercased) name stands for.
pub open spec fn difficulty_from_name(n: Seq<char>) -> Option<BlueprintDifficulty> {
    if n == "beginner"@ {
        Some(BlueprintDifficulty::Beginner)
    } else if n == "intermediate"@ {
        Some(BlueprintDifficulty::Intermediate)
    } else if n == "advanced"@ {
        Some(BlueprintDifficulty::Advanced)
    } else {
        None
    }
}

/// `prefix` followed by the characters of `s`, as a `String`.
fn prefixed_message(prefix: &str, s: &str) -> (r: String)
    ensures
        r@ == prefix@ + s@,
{
    let mut v: Vec<char> = Vec::new();
    extend_str(&mut v, prefix);
    extend_str(&mut v, s);
    string_of(v.as_slice())
}

impl BlueprintScope {
    /// The scope's name.
    pub fn as_str(&self) -> (r: &'static str)
        ensures
            r@ == scope_name(*self),
    {
        match self {
            BlueprintScope::Scaffolding => "scaffolding",
            BlueprintScope::Feature => "feature",
            BlueprintScope::Pattern => "pattern",
            BlueprintScope::Process => "process",
        }
    }

    /// The scope's name, as a `String`.
    pub fn to_string(&self) -> (r: String)
        ensures
            r@ == scope_name(*self),
    {
        self.as_str().to_owned()
    }

    /// The scope named by `s`, compared without regard to case.
    pub fn from_str(s: &str) -> (r: Result<BlueprintScope, String>)
        ensures
            match scope_from_name(lowercase(s@)) {
                Some(v) => r == Ok::<BlueprintScope, String>(v),
                None => r matches Err(e) && e@ == "Unknown blueprint scope: "@ + s@,
            },
    {
        let low = str_to_lowercase(s);
        let l = low.as_str();
        if eq_str(l, "scaffolding") {
            Ok(BlueprintScope::Scaffolding)
        } else if eq_str(l, "feature") {
            Ok(BlueprintScope::Feature)
        } else if eq_str(l, "pattern") {
            Ok(BlueprintScope::Pattern)
        } else if eq_str(l, "process") {
            Ok(BlueprintScope::Process)
        } else {
            Err(prefixed_message("Unknown blueprint scope: ", s))
        }
    }

    /// The default scope, `Pattern`.
    pub fn default() -> (r: BlueprintScope)
        ensures
            r == BlueprintScope::Pattern,
    {
        BlueprintScope::Pattern
    }
}

impl BlueprintCategory {
    /// The category's name.
    pub fn as_str(&self) -> (r: &'static str)
        ensures
            r@ == category_name(*self),
    {
        match self {
            BlueprintCategory::ProjectSetup => "project_setup",
            BlueprintCategory::CiCd => "ci_cd",
            BlueprintCategory::Architecture => "architecture",
            BlueprintCategory::Workflow => "workflow",
            BlueprintCategory::Patterns => "patterns",
            BlueprintCategory::Testing => "testing",
        }
    }

    /// The category's name, as a `String`.
    pub fn to_string(&self) -> (r: String)
        ensures
            r@ == category_name(*self),
    {
        self.as_str().to_owned()
    }

    /// The category named by `s`, compared without regard to case and with
    /// `-` and `_` alike.
    pub fn from_str(s: &str) -> (r: Result<BlueprintCategory, String>)
        ensures
            match category_from_name(category_key(s@)) {
                Some(v) => r == Ok::<BlueprintCategory, String>(v),
                None => r matches Err(e) && e@ == "Unknown blueprint category: "@ + s@,
            },
    {
        let low = str_to_lowercase(s);
        let lc = chars_of(low.as_str());
        let key_chars = replaced(lc.as_slice(), '-', '_');
        let key_string = string_of(key_chars.as_slice());
        let k = key_string.as_str();
        if eq_str(k, "project_setup") || eq_str(k, "project-setup") {
            Ok(BlueprintCategory::ProjectSetup)
        } else if eq_str(k, "ci_cd") || eq_str(k, "ci-cd") {
            Ok(BlueprintCategory::CiCd)
        } else if eq_str(k, "architecture") {
            Ok(BlueprintCategory::Architecture)
        } else if eq_str(k, "workflow") {
            Ok(BlueprintCategory::Workflow)
        } else if eq_str(k, "patterns") {
            Ok(BlueprintCategory::Patterns)
        } else if eq_str(k, "testing") {
            Ok(BlueprintCategory::Testing)
        } else {
            Err(prefixed_message("Unknown blueprint category: ", s))
        }
    }

    /// The default category, `Patterns`.
    pub fn default() -> (r: BlueprintCategory)
        ensures
            r == BlueprintCategory::Patterns,
    {
        BlueprintCategory::Patterns
    }
}

impl BlueprintStatus {
    /// The status's name.
    pub fn as_str(&self) -> (r: &'static str)
        ensures
            r@ == status_name(*self),
    {
        match self {
            BlueprintStatus::Draft => "draft",
            BlueprintStatus::Active => "active",
            BlueprintStatus::Archived => "archived",
        }
    }

    /// The status's name, as a `String`.
    pub fn to_string(&self) -> (r: String)
        ensures
            r@ == status_name(*self),
    {
        self.as_str().to_owned()
    }

    /// The status named by `s`, compared without regard to case.
    pub fn from_str(s: &str) -> (r: Result<BlueprintStatus, String>)
        ensures
            match status_from_name(lowercase(s@)) {
                Some(v) => r == Ok::<BlueprintStatus, String>(v),
                None => r matches Err(e) && e@ == "Unknown blueprint status: "@ + s@,
            },
    {
        let low = str_to_lowercase(s);
        let l = low.as_str();
        if eq_str(l, "draft") {
            Ok(BlueprintStatus::Draft)
        } else if eq_str(l, "active") {
            Ok(BlueprintStatus::Active)
        } else if eq_str(l, "archived") {
            Ok(BlueprintStatus::Archived)
        } else {
            Err(prefixed_message("Unknown blueprint status: ", s))
        }
    }

    /// The default status, `Draft`.
    pub fn default() -> (r: BlueprintStatus)
        ensures
            r == BlueprintStatus::Draft,
    {
        BlueprintStatus::Draft
    }

    /// Whether moving from `self` to `to` is allowed: staying put always is;
    /// otherwise only Draft → Active, Draft → Archived and Active → Archived.
    pub fn can_transition_to(self, to: BlueprintStatus) -> (r: bool)
        ensures
            r == transition_allowed(self, to),
    {
        if self == to {
            return true;
        }
        match (self, to) {
            (BlueprintStatus::Draft, BlueprintStatus::Active) => true,
            (BlueprintStatus::Draft, BlueprintStatus::Archived) => true,
            (BlueprintStatus::Active, BlueprintStatus::Archived) => true,
            _ => false,
        }
    }
}

/// The allowed status transitions.
pub open spec fn transition_allowed(from: BlueprintStatus, to: BlueprintStatus) -> bool {
    ||| from == to
    ||| (from == BlueprintStatus::Draft && to == BlueprintStatus::Active)
    ||| (from == BlueprintStatus::Draft && to == BlueprintStatus::Archived)
    ||| (from == BlueprintStatus::Active && to == BlueprintStatus::Archived)
}

/// The rank of a status in the lifecycle: Draft, then Active, then Archived.
pub open spec fn status_rank(s: BlueprintStatus) -> int {
    match s {
        BlueprintStatus::Draft => 0,
        BlueprintStatus::Active => 1,
        BlueprintStatus::Archived => 2,
    }
}

/// The lifecycle only moves forward: an allowed transition never lowers the
/// rank, so no status can be left and come back.
pub proof fn lemma_transitions_move_forward(from: BlueprintStatus, to: BlueprintStatus)
    requires
        transition_allowed(from, to),
    ensures
        status_rank(from) <= status_rank(to),
        transition_allowed(to, from) ==> from == to,
{
}

/// Allowed transitions compose: two allowed steps make an allowed step.
pub proof fn lemma_transitions_compose(a: BlueprintStatus, b: BlueprintStatus, c: BlueprintStatus)
    requires
        transition_allowed(a, b),
        transition_allowed(b, c),
    ensures
        transition_allowed(a, c),
{
}

/// An archived blueprint stays archived.
pub proof fn lemma_archived_is_final(to: BlueprintStatus)
    requires
        transition_allowed(BlueprintStatus::Archived, to),
    ensures
        to == BlueprintStatus::Archived,
{
}

impl BlueprintRelationType {
    /// The relation's name.
    pub fn as_str(&self) -> (r: &'static str)
        ensures
            r@ == relation_name(*self),
    {
        match self {
            BlueprintRelationType::DependsOn => "DEPENDS_ON",
            BlueprintRelationType::PairsWith => "PAIRS_WITH",
        }
    }

    /// The relation's name, as a `String`.
    pub fn to_string(&self) -> (r: String)
        ensures
            r@ == relation_name(*self),
    {
        self.as_str().to_owned()
    }

    /// The relation type named by `s`, compared without regard to case.
    pub fn from_str(s: &str) -> (r: Result<BlueprintRelationType, String>)
        ensures
            match relation_from_name(uppercase(s@)) {
                Some(v) => r == Ok::<BlueprintRelationType, String>(v),
                None => r matches Err(e) && e@ == "Unknown blueprint relation type: "@ + s@,
            },
    {
        let up = str_to_uppercase(s);
        let u = up.as_str();
        if eq_str(u, "DEPENDS_ON") || eq_str(u, "depends_on") {
            Ok(BlueprintRelationType::DependsOn)
        } else if eq_str(u, "PAIRS_WITH") || eq_str(u, "pairs_with") {
            Ok(BlueprintRelationType::PairsWith)
        } else {
            Err(prefixed_message("Unknown blueprint relation type: ", s))
        }
    }
}

impl BlueprintDifficulty {
    /// The difficulty's name.
    pub fn as_str(&self) -> (r: &'static str)
        ensures
            r@ == difficulty_name(*self),
    {
        match self {
            BlueprintDifficulty::Beginner => "beginner",
            BlueprintDifficulty::Intermediate => "intermediate",
            BlueprintDifficulty::Advanced => "advanced",
        }
    }

    /// The difficulty's name, as a `String`.
    pub fn to_string(&self) -> (r: String)
        ensures
            r@ == difficulty_name(*self),
    {
        self.as_str().to_owned()
    }

    /// The difficulty named by `s`, compared without regard to case.
    pub fn from_str(s: &str) -> (r: Result<BlueprintDifficulty, String>)
        ensures
            match difficulty_from_name(lowercase(s@)) {
                Some(v) => r == Ok::<BlueprintDifficulty, String>(v),
                None => r matches Err(e) && e@ == "Unknown difficulty: "@ + s@,
            },
    {
        let low = str_to_lowercase(s);
        let l = low.as_str();
        if eq_str(l, "beginner") {
            Ok(BlueprintDifficulty::Beginner)
        } else if eq_str(l, "intermediate") {
            Ok(BlueprintDifficulty::Intermediate)
        } else if eq_str(l, "advanced") {
            Ok(BlueprintDifficulty::Advanced)
        } else {
            Err(prefixed_message("Unknown difficulty: ", s))
        }
    }

    /// The default difficulty, `Intermediate`.
    pub fn default() -> (r: BlueprintDifficulty)
        ensures
            r == BlueprintDifficulty::Intermediate,
    {
        BlueprintDifficulty::Intermediate
    }
}

/// Writing a scope's name and reading it back gives the scope.
pub proof fn lemma_scope_name_roundtrip(s: BlueprintScope)
    ensures
        scope_from_name(scope_name(s)) == Some(s),
{
    reveal_strlit("scaffolding");
    reveal_strlit("feature");
    reveal_strlit("pattern");
    reveal_strlit("process");
    assert("feature"@[0] != "pattern"@[0]);
    assert("feature"@[0] != "process"@[0]);
    assert("pattern"@[1] != "process"@[1]);
}

/// Writing a category's name and reading it back gives the category.
pub proof fn lemma_category_name_roundtrip(c: BlueprintCategory)
    ensures
        category_from_name(category_name(c)) == Some(c),
{
    reveal_strlit("project_setup");
    reveal_strlit("project-setup");
    reveal_strlit("ci_cd");
    reveal_strlit("ci-cd");
    reveal_strlit("architecture");
    reveal_strlit("workflow");
    reveal_strlit("patterns");
    reveal_strlit("testing");
    assert("project_setup"@[7] != "project-setup"@[7]);
    assert("ci_cd"@[2] != "ci-cd"@[2]);
    assert("workflow"@[0] != "patterns"@[0]);
    let names = seq![
        "project_setup"@,
        "project-setup"@,
        "ci_cd"@,
        "ci-cd"@,
        "architecture"@,
        "workflow"@,
        "patterns"@,
        "testing"@,
    ];
    assert("project_setup"@[1] != "patterns"@[1]);
    assert("project-setup"@[1] != "patterns"@[1]);
    assert forall|i: int, j: int| 0 <= i < j < 8 && names[i][0] != names[j][0] implies names[i]
        != names[j] by {}
}

/// Writing a status's name and reading it back gives the status.
pub proof fn lemma_status_name_roundtrip(s: BlueprintStatus)
    ensures
        status_from_name(status_name(s)) == Some(s),
{
    reveal_strlit("draft");
    reveal_strlit("active");
    reveal_strlit("archived");
    assert("draft"@[0] != "active"@[0]);
    assert("draft"@[0] != "archived"@[0]);
    assert("active"@[1] != "archived"@[1]);
}

/// Writing a relation type's name and reading it back gives the type.
pub proof fn lemma_relation_name_roundtrip(r: BlueprintRelationType)
    ensures
        relation_from_name(relation_name(r)) == Some(r),
{
    reveal_strlit("DEPENDS_ON");
    reveal_strlit("depends_on");
    reveal_strlit("PAIRS_WITH");
    reveal_strlit("pairs_with");
    assert("DEPENDS_ON"@[0] != "depends_on"@[0]);
    assert("DEPENDS_ON"@[0] != "PAIRS_WITH"@[0]);
    assert("DEPENDS_ON"@[0] != "pairs_with"@[0]);
    assert("depends_on"@[0] != "PAIRS_WITH"@[0]);
    assert("depends_on"@[0] != "pairs_with"@[0]);
    assert("PAIRS_WITH"@[0] != "pairs_with"@[0]);
}

/// Writing a difficulty's name and reading it back gives the difficulty.
pub proof fn lemma_difficulty_name_roundtrip(d: BlueprintDifficulty)
    ensures
        difficulty_from_name(difficulty_name(d)) == Some(d),
{
    reveal_strlit("beginner");
    reveal_strlit("intermediate");
    reveal_strlit("advanced");
    assert("beginner"@[0] != "advanced"@[0]);
}


// ============================================================================
// The blueprint node
// ============================================================================

/// The schema version a blueprint starts at.
pub fn default_version() -> (r: i64)
    ensures
        r == 1,
{
    1
}

/// The strings of `v`, cloned one by one.
pub fn clone_strings(v: &Vec<String>) -> (r: Vec<String>)
    ensures
        r@ == v@,
{
    let r = v.clone();
    assert(r@ =~= v@) by {
        assert forall|i: int| 0 <= i < v@.len() implies r@[i] == v@[i] by {
            assert(cloned::<String>(v[i], r[i]));
        }
    }
    r
}

/// A blueprint: a reusable engineering pattern with three tiers of content.
#[derive(Debug, Clone)]
pub struct BlueprintNode {
    /// The UUID, as its 128-bit value.
    pub id: u128,
    /// Unique slug derived from the file name (e.g. `riverpod-provider-wiring`).
    pub slug: String,
    /// Human-readable name (the markdown title).
    pub name: String,
    /// One-line description (the first blockquote).
    pub description: String,
    /// Taxonomy scope.
    pub scope: BlueprintScope,
    /// Domain category.
    pub category: BlueprintCategory,
    /// Difficulty level.
    pub difficulty: BlueprintDifficulty,
    /// Estimated time to apply (e.g. `2-4h`).
    pub estimated_time: String,
    /// Technology stack tags (e.g. `flutter`, `riverpod`).
    pub stack: Vec<String>,
    /// Tier 1: name and description.
    pub tier1: String,
    /// Tier 2: TL;DR and the gotcha titles.
    pub tier2: String,
    /// Tier 3: the full markdown content.
    pub tier3_content: String,
    /// Path of the source file in the blueprint repository.
    pub source_file: String,
    /// SHA-256 of the source file content.
    pub content_hash: String,
    /// Lifecycle status.
    pub status: BlueprintStatus,
    /// Schema version, bumped on content updates.
    pub version: i64,
    /// Free-form tags.
    pub tags: Vec<String>,
    /// Number of projects whose manifest has this blueprint.
    pub usage_count: i64,
    /// When the blueprint was first ingested.
    pub created_at: Timestamp,
    /// Last modification.
    pub updated_at: Timestamp,
}

impl BlueprintNode {
    /// A new draft blueprint with the given slug and name, every other field
    /// empty or at its default, created now.
    pub fn new(slug: String, name: String) -> (b: BlueprintNode)
        ensures
            b.slug == slug,
            b.name == name,
            b.description@.len() == 0,
            b.scope == BlueprintScope::Pattern,
            b.category == BlueprintCategory::Patterns,
            b.difficulty == BlueprintDifficulty::Intermediate,
            b.estimated_time@.len() == 0,
            b.stack@.len() == 0,
            b.tier1@.len() == 0,
            b.tier2@.len() == 0,
            b.tier3_content@.len() == 0,
            b.source_file@.len() == 0,
            b.content_hash@.len() == 0,
            b.status == BlueprintStatus::Draft,
            b.version == 1,
            b.tags@.len() == 0,
            b.usage_count == 0,
            b.created_at == b.updated_at,
    {
        let now = utc_now();
        BlueprintNode {
            id: new_uuid_v4(),
            slug,
            name,
            description: String::new(),
            scope: BlueprintScope::default(),
            category: BlueprintCategory::default(),
            difficulty: BlueprintDifficulty::default(),
            estimated_time: String::new(),
            stack: Vec::new(),
            tier1: String::new(),
            tier2: String::new(),
            tier3_content: String::new(),
            source_file: String::new(),
            content_hash: String::new(),
            status: BlueprintStatus::Draft,
            version: 1,
            tags: Vec::new(),
            usage_count: 0,
            created_at: now,
            updated_at: now,
        }
    }

    /// The response at the requested tier: tier 2 and tier 3 give their
    /// content, any other tier the tier-1 content; the tier reported is
    /// the requested one clamped to 1..=3.
    pub fn to_response(&self, tier: i32) -> (r: BlueprintResponse)
        ensures
            r.content == (if tier == 2 {
                self.tier2
            } else if tier == 3 {
                self.tier3_content
            } else {
                self.tier1
            }),
            r.tier == (if tier < 1 {
                1
            } else if tier > 3 {
                3
            } else {
                tier
            }),
            r.id == self.id,
            r.slug == self.slug,
            r.name == self.name,
            r.scope == self.scope,
            r.category == self.category,
            r.difficulty == self.difficulty,
            r.estimated_time == self.estimated_time,
            r.stack@ == self.stack@,
            r.status == self.status,
            r.tags@ == self.tags@,
            r.usage_count == self.usage_count,
            r.version == self.version,
            r.created_at == self.created_at,
            r.updated_at == self.updated_at,
    {
        let content = if tier == 2 {
            self.tier2.clone()
        } else if tier == 3 {
            self.tier3_content.clone()
        } else {
            self.tier1.clone()
        };
        let clamped: i32 = if tier < 1 {
            1
        } else if tier > 3 {
            3
        } else {
            tier
        };
        BlueprintResponse {
            id: self.id,
            slug: self.slug.clone(),
            name: self.name.clone(),
            scope: self.scope,
            category: self.category,
            difficulty: self.difficulty,
            estimated_time: self.estimated_time.clone(),
            stack: clone_strings(&self.stack),
            status: self.status,
            tags: clone_strings(&self.tags),
            usage_count: self.usage_count,
            version: self.version,
            content,
            tier: clamped,
            created_at: self.created_at,
            updated_at: self.updated_at,
        }
    }
}

/// A directed relation between two blueprints.
#[derive(Debug, Clone, Copy)]
pub struct BlueprintRelation {
    /// The source blueprint's UUID.
    pub from_id: u128,
    /// The target blueprint's UUID.
    pub to_id: u128,
    /// The kind of relation.
    pub relation_type: BlueprintRelationType,
    /// When the relation was created.
    pub created_at: Timestamp,
}

// ============================================================================
// Requests and responses
// ============================================================================

/// Request to create a blueprint by hand (sync creates them automatically).
#[derive(Debug, Clone)]
pub struct CreateBlueprintRequest {
    pub slug: String,
    pub name: String,
    pub description: Option<String>,
    pub scope: Option<BlueprintScope>,
    pub category: Option<BlueprintCategory>,
    pub difficulty: Option<BlueprintDifficulty>,
    pub estimated_time: Option<String>,
    pub stack: Option<Vec<String>>,
    pub tier1: Option<String>,
    pub tier2: Option<String>,
    pub tier3_content: Option<String>,
    pub source_file: Option<String>,
    pub content_hash: Option<String>,
    pub tags: Option<Vec<String>>,
}

/// Request to update a blueprint: only the fields given change.
#[derive(Debug, Clone)]
pub struct UpdateBlueprintRequest {
    pub name: Option<String>,
    pub description: Option<String>,
    pub scope: Option<BlueprintScope>,
    pub category: Option<BlueprintCategory>,
    pub difficulty: Option<BlueprintDifficulty>,
    pub estimated_time: Option<String>,
    pub stack: Option<Vec<String>>,
    pub tier1: Option<String>,
    pub tier2: Option<String>,
    pub tier3_content: Option<String>,
    pub source_file: Option<String>,
    pub content_hash: Option<String>,
    pub status: Option<BlueprintStatus>,
    pub tags: Option<Vec<String>>,
}

impl UpdateBlueprintRequest {
    /// A request that changes nothing.
    pub fn default() -> (r: UpdateBlueprintRequest)
        ensures
            r.name is None && r.description is None && r.scope is None && r.category is None
                && r.difficulty is None && r.estimated_time is None && r.stack is None
                && r.tier1 is None && r.tier2 is None && r.tier3_content is None
                && r.source_file is None && r.content_hash is None && r.status is None
                && r.tags is None,
    {
        UpdateBlueprintRequest {
            name: None,
            description: None,
            scope: None,
            category: None,
            difficulty: None,
            estimated_time: None,
            stack: None,
            tier1: None,
            tier2: None,
            tier3_content: None,
            source_file: None,
            content_hash: None,
            status: None,
            tags: None,
        }
    }
}

/// The tier a listing returns when none is asked for.
pub fn default_tier() -> (r: i32)
    ensures
        r == 1,
{
    1
}

/// The page size of a listing when none is asked for.
pub fn default_limit() -> (r: usize)
    ensures
        r == 50,
{
    50
}

/// Filters and pagination for listing blueprints.
#[derive(Debug, Clone)]
pub struct ListBlueprintsQuery {
    /// Only this scope.
    pub scope: Option<BlueprintScope>,
    /// Only this category.
    pub category: Option<BlueprintCategory>,
    /// Only blueprints whose stack has this entry.
    pub stack: Option<String>,
    /// Only this status.
    pub status: Option<BlueprintStatus>,
    /// Text searched in name and description, without regard to case.
    pub search: Option<String>,
    /// Content tier to return (1, 2 or 3).
    pub tier: i32,
    /// Page size.
    pub limit: usize,
    /// Page start.
    pub offset: usize,
}

impl ListBlueprintsQuery {
    /// No filter and every number zero (a deserialized query that leaves
    /// them out gets `default_tier` and `default_limit` instead).
    pub fn default() -> (q: ListBlueprintsQuery)
        ensures
            q.scope is None && q.category is None && q.stack is None && q.status is None
                && q.search is None,
            q.tier == 0 && q.limit == 0 && q.offset == 0,
    {
        ListBlueprintsQuery {
            scope: None,
            category: None,
            stack: None,
            status: None,
            search: None,
            tier: 0,
            limit: 0,
            offset: 0,
        }
    }
}

/// A blueprint at one content tier.
#[derive(Debug, Clone)]
pub struct BlueprintResponse {
    pub id: u128,
    pub slug: String,
    pub name: String,
    pub scope: BlueprintScope,
    pub category: BlueprintCategory,
    pub difficulty: BlueprintDifficulty,
    pub estimated_time: String,
    pub stack: Vec<String>,
    pub status: BlueprintStatus,
    pub tags: Vec<String>,
    pub usage_count: i64,
    pub version: i64,
    /// The content at the requested tier.
    pub content: String,
    /// The tier returned.
    pub tier: i32,
    pub created_at: Timestamp,
    pub updated_at: Timestamp,
}

} // verus!
