//! Graph queries on blueprints: the Cypher text and parameters of each
//! create, update, list and relation query, and the blueprint read back from
//! a node's properties. Sending the queries is left to the caller.

use vstd::prelude::*;
use crate::blueprint::models::{
    category_from_name, category_name, clone_strings, difficulty_from_name, difficulty_name,
    relation_name, scope_from_name, scope_name, status_from_name, status_name, BlueprintCategory,
    BlueprintDifficulty, BlueprintNode, BlueprintRelationType, BlueprintScope, BlueprintStatus,
    CreateBlueprintRequest, ListBlueprintsQuery, UpdateBlueprintRequest,
};
use crate::ids::{
    parse_timestamp, parse_uuid, parsed_timestamp, parsed_uuid, utc_now, uuid_text, uuid_to_string,
    Timestamp,
};
use crate::text::{extend_chars, extend_str, join, join_chars, string_of, string_views, views};
use crate::unicode::lowercase;

verus! {

// ============================================================================
// Queries and their parameters
// ============================================================================

/// The value of a query parameter.
#[derive(Debug, Clone)]
pub enum ParamValue {
    /// A string.
    Text(String),
    /// A list of strings.
    List(Vec<String>),
    /// An integer.
    Int(i64),
}

/// A named query parameter (`$name` in the Cypher text).
#[derive(Debug, Clone)]
pub struct QueryParam {
    /// The name, without the `$`.
    pub name: String,
    /// The value.
    pub value: ParamValue,
}

/// A Cypher query with its parameters, in the order they are bound.
#[derive(Debug, Clone)]
pub struct CypherQuery {
    /// The Cypher text.
    pub text: String,
    /// The parameters.
    pub params: Vec<QueryParam>,
}

/// A parameter value as plain data.
pub ghost enum ParamData {
    Text(Seq<char>),
    List(Seq<Seq<char>>),
    Int(int),
}

/// A parameter as its name and plain value.
pub open spec fn param_view(p: QueryParam) -> (Seq<char>, ParamData) {
    (p.name@, match p.value {
        ParamValue::Text(s) => ParamData::Text(s@),
        ParamValue::List(v) => ParamData::List(string_views(v@)),
        ParamValue::Int(i) => ParamData::Int(i as int),
    })
}

/// The parameters of a query as plain data.
pub open spec fn params_view(ps: Seq<QueryParam>) -> Seq<(Seq<char>, ParamData)> {
    ps.map_values(|p: QueryParam| param_view(p))
}

/// A list of one item where `c` holds, else an empty list.
pub open spec fn when<T>(c: bool, x: T) -> Seq<T> {
    if c {
        seq![x]
    } else {
        seq![]
    }
}

/// Appends `clause` to `v` where `c` holds.
fn push_clause_if(v: &mut Vec<Vec<char>>, c: bool, clause: &str)
    ensures
        views(final(v)@) == views(old(v)@) + when(c, clause@),
{
    let ghost before = views(v@);
    if c {
        let cs = crate::text::chars_of(clause);
        v.push(cs);
        proof {
            assert(views(v@) =~= before + when(c, clause@));
        }
    } else {
        proof {
            assert(views(v@) =~= before + when(c, clause@));
        }
    }
}

/// A text parameter.
fn text_param(name: &str, value: String) -> (p: QueryParam)
    ensures
        param_view(p) == (name@, ParamData::Text(value@)),
{
    QueryParam { name: name.to_string(), value: ParamValue::Text(value) }
}

/// A list parameter.
fn list_param(name: &str, value: Vec<String>) -> (p: QueryParam)
    ensures
        param_view(p) == (name@, ParamData::List(string_views(value@))),
{
    QueryParam { name: name.to_string(), value: ParamValue::List(value) }
}

/// Appends a parameter, where the value is given.
fn push_param_if(ps: &mut Vec<QueryParam>, p: Option<QueryParam>)
    ensures
        params_view(final(ps)@) == params_view(old(ps)@) + (match p {
            Some(q) => seq![param_view(q)],
            None => seq![],
        }),
{
    let ghost before = params_view(ps@);
    match p {
        Some(q) => {
            ps.push(q);
            proof {
                assert(params_view(ps@) =~= before + seq![param_view(q)]);
            }
        },
        None => {
            proof {
                assert(params_view(ps@) =~= before + Seq::<(Seq<char>, ParamData)>::empty());
            }
        },
    }
}

/// The plain data of an optional text parameter.
pub open spec fn opt_text(name: Seq<char>, v: Option<String>) -> Seq<(Seq<char>, ParamData)> {
    match v {
        Some(s) => seq![(name, ParamData::Text(s@))],
        None => seq![],
    }
}

/// The plain data of an optional list parameter.
pub open spec fn opt_list(name: Seq<char>, v: Option<Vec<String>>) -> Seq<(Seq<char>, ParamData)> {
    match v {
        Some(l) => seq![(name, ParamData::List(string_views(l@)))],
        None => seq![],
    }
}

/// The plain data of an optional parameter given by name.
pub open spec fn opt_named(name: Seq<char>, v: Option<Seq<char>>) -> Seq<(Seq<char>, ParamData)> {
    match v {
        Some(s) => seq![(name, ParamData::Text(s))],
        None => seq![],
    }
}

fn opt_text_param(name: &str, v: &Option<String>) -> (p: Option<QueryParam>)
    ensures
        (match p {
            Some(q) => seq![param_view(q)],
            None => seq![],
        }) == opt_text(name@, *v),
{
    match v {
        Some(s) => Some(text_param(name, s.clone())),
        None => None,
    }
}

fn opt_list_param(name: &str, v: &Option<Vec<String>>) -> (p: Option<QueryParam>)
    ensures
        (match p {
            Some(q) => seq![param_view(q)],
            None => seq![],
        }) == opt_list(name@, *v),
{
    match v {
        Some(l) => Some(list_param(name, clone_strings(l))),
        None => None,
    }
}

// ============================================================================
// Update
// ============================================================================

/// The request changes the content: one of the tiers or the content hash.
pub open spec fn content_update(req: UpdateBlueprintRequest) -> bool {
    req.tier1 is Some || req.tier2 is Some || req.tier3_content is Some || req.content_hash is Some
}

/// The SET clauses of an update: the update time, then each field the
/// request gives, then, on a content update, the version bumped by one.
pub open spec fn update_set_clauses(req: UpdateBlueprintRequest) -> Seq<Seq<char>> {
    seq!["b.updated_at = $updated_at"@] + when(req.name is Some, "b.name = $name"@) + when(
        req.description is Some,
        "b.description = $description"@,
    ) + when(req.scope is Some, "b.scope = $scope"@) + when(
        req.category is Some,
        "b.category = $category"@,
    ) + when(req.difficulty is Some, "b.difficulty = $difficulty"@) + when(
        req.estimated_time is Some,
        "b.estimated_time = $estimated_time"@,
    ) + when(req.stack is Some, "b.stack = $stack"@) + when(req.tags is Some, "b.tags = $tags"@)
        + when(req.status is Some, "b.status = $status"@) + when(
        req.tier1 is Some,
        "b.tier1 = $tier1"@,
    ) + when(req.tier2 is Some, "b.tier2 = $tier2"@) + when(
        req.tier3_content is Some,
        "b.tier3_content = $tier3_content"@,
    ) + when(req.source_file is Some, "b.source_file = $source_file"@) + when(
        req.content_hash is Some,
        "b.content_hash = $content_hash"@,
    ) + when(content_update(req), "b.version = b.version + 1"@)
}

/// The Cypher text of an update.
pub open spec fn update_cypher(req: UpdateBlueprintRequest) -> Seq<char> {
    "MATCH (b:Blueprint {id: $id}) SET "@ + join(update_set_clauses(req), ", "@) + " RETURN b"@
}

/// The parameters of an update: the id and update time, then the value of
/// each field the request gives, enums by name.
pub open spec fn update_params(
    id: Seq<char>,
    updated_at: Seq<char>,
    req: UpdateBlueprintRequest,
) -> Seq<(Seq<char>, ParamData)> {
    seq![("id"@, ParamData::Text(id)), ("updated_at"@, ParamData::Text(updated_at))] + opt_text(
        "name"@,
        req.name,
    ) + opt_text("description"@, req.description) + opt_named(
        "scope"@,
        match req.scope {
            Some(s) => Some(scope_name(s)),
            None => None,
        },
    ) + opt_named(
        "category"@,
        match req.category {
            Some(c) => Some(category_name(c)),
            None => None,
        },
    ) + opt_named(
        "difficulty"@,
        match req.difficulty {
            Some(d) => Some(difficulty_name(d)),
            None => None,
        },
    ) + opt_text("estimated_time"@, req.estimated_time) + opt_list("stack"@, req.stack) + opt_list(
        "tags"@,
        req.tags,
    ) + opt_named(
        "status"@,
        match req.status {
            Some(s) => Some(status_name(s)),
            None => None,
        },
    ) + opt_text("tier1"@, req.tier1) + opt_text("tier2"@, req.tier2) + opt_text(
        "tier3_content"@,
        req.tier3_content,
    ) + opt_text("source_file"@, req.source_file) + opt_text("content_hash"@, req.content_hash)
}

/// The Cypher text of the update that `req` asks for.
fn update_cypher_text(req: &UpdateBlueprintRequest) -> (r: String)
    ensures
        r@ == update_cypher(*req),
{
    let first = crate::text::chars_of("b.updated_at = $updated_at");
    let mut sets: Vec<Vec<char>> = Vec::new();
    sets.push(first);
    proof {
        assert(views(sets@) =~= seq!["b.updated_at = $updated_at"@]);
    }
    push_clause_if(&mut sets, req.name.is_some(), "b.name = $name");
    push_clause_if(&mut sets, req.description.is_some(), "b.description = $description");
    push_clause_if(&mut sets, req.scope.is_some(), "b.scope = $scope");
    push_clause_if(&mut sets, req.category.is_some(), "b.category = $category");
    push_clause_if(&mut sets, req.difficulty.is_some(), "b.difficulty = $difficulty");
    push_clause_if(&mut sets, req.estimated_time.is_some(), "b.estimated_time = $estimated_time");
    push_clause_if(&mut sets, req.stack.is_some(), "b.stack = $stack");
    push_clause_if(&mut sets, req.tags.is_some(), "b.tags = $tags");
    push_clause_if(&mut sets, req.status.is_some(), "b.status = $status");
    push_clause_if(&mut sets, req.tier1.is_some(), "b.tier1 = $tier1");
    push_clause_if(&mut sets, req.tier2.is_some(), "b.tier2 = $tier2");
    push_clause_if(&mut sets, req.tier3_content.is_some(), "b.tier3_content = $tier3_content");
    push_clause_if(&mut sets, req.source_file.is_some(), "b.source_file = $source_file");
    push_clause_if(&mut sets, req.content_hash.is_some(), "b.content_hash = $content_hash");
    let content = req.tier1.is_some() || req.tier2.is_some() || req.tier3_content.is_some()
        || req.content_hash.is_some();
    push_clause_if(&mut sets, content, "b.version = b.version + 1");
    let sep = crate::text::chars_of(", ");
    let joined = join_chars(&sets, sep.as_slice());
    let mut text: Vec<char> = Vec::new();
    extend_str(&mut text, "MATCH (b:Blueprint {id: $id}) SET ");
    extend_chars(&mut text, joined.as_slice());
    extend_str(&mut text, " RETURN b");
    proof {
        assert(text@ =~= update_cypher(*req));
    }
    string_of(text.as_slice())
}

/// The optional parameter of an enum field, by name.
fn opt_named_param(name: &str, v: Option<String>) -> (p: Option<QueryParam>)
    ensures
        (match p {
            Some(q) => seq![param_view(q)],
            None => seq![],
        }) == opt_named(
            name@,
            match v {
                Some(s) => Some(s@),
                None => None,
            },
        ),
{
    match v {
        Some(s) => Some(text_param(name, s)),
        None => None,
    }
}

/// The parameters of the update of `id` that `req` asks for.
#[verifier::spinoff_prover]
#[verifier::rlimit(80)]
fn update_param_list(id: &str, req: &UpdateBlueprintRequest, updated_at: &str) -> (ps: Vec<
    QueryParam,
>)
    ensures
        params_view(ps@) == update_params(id@, updated_at@, *req),
{
    let mut ps: Vec<QueryParam> = Vec::new();
    ps.push(text_param("id", id.to_string()));
    ps.push(text_param("updated_at", updated_at.to_string()));
    proof {
        assert(params_view(ps@) =~= seq![
            ("id"@, ParamData::Text(id@)),
            ("updated_at"@, ParamData::Text(updated_at@)),
        ]);
    }
    push_param_if(&mut ps, opt_text_param("name", &req.name));
    push_param_if(&mut ps, opt_text_param("description", &req.description));
    let scope = match req.scope {
        Some(s) => Some(s.to_string()),
        None => None,
    };
    push_param_if(&mut ps, opt_named_param("scope", scope));
    let category = match req.category {
        Some(c) => Some(c.to_string()),
        None => None,
    };
    push_param_if(&mut ps, opt_named_param("category", category));
    let difficulty = match req.difficulty {
        Some(d) => Some(d.to_string()),
        None => None,
    };
    push_param_if(&mut ps, opt_named_param("difficulty", difficulty));
    push_param_if(&mut ps, opt_text_param("estimated_time", &req.estimated_time));
    push_param_if(&mut ps, opt_list_param("stack", &req.stack));
    push_param_if(&mut ps, opt_list_param("tags", &req.tags));
    let status = match req.status {
        Some(s) => Some(s.to_string()),
        None => None,
    };
    push_param_if(&mut ps, opt_named_param("status", status));
    push_param_if(&mut ps, opt_text_param("tier1", &req.tier1));
    push_param_if(&mut ps, opt_text_param("tier2", &req.tier2));
    push_param_if(&mut ps, opt_text_param("tier3_content", &req.tier3_content));
    push_param_if(&mut ps, opt_text_param("source_file", &req.source_file));
    push_param_if(&mut ps, opt_text_param("content_hash", &req.content_hash));
    ps
}

/// The query that updates the blueprint `id` with the fields `req` gives,
/// and the update time `updated_at`, and returns the node.
pub fn update_blueprint_query(id: &str, req: &UpdateBlueprintRequest, updated_at: &str) -> (q:
    CypherQuery)
    ensures
        q.text@ == update_cypher(*req),
        params_view(q.params@) == update_params(id@, updated_at@, *req),
{
    CypherQuery { text: update_cypher_text(req), params: update_param_list(id, req, updated_at) }
}

// ============================================================================
// List
// ============================================================================

/// The WHERE conditions of a listing: one for each filter given.
pub open spec fn list_conditions(q: ListBlueprintsQuery) -> Seq<Seq<char>> {
    when(q.scope is Some, "b.scope = $scope"@) + when(q.category is Some, "b.category = $category"@)
        + when(q.stack is Some, "$stack_filter IN b.stack"@) + when(
        q.status is Some,
        "b.status = $status"@,
    ) + when(
        q.search is Some,
        "(toLower(b.name) CONTAINS toLower($search) OR toLower(b.description) CONTAINS toLower($search))"@,
    )
}

/// The WHERE clause of a listing: empty without filters.
pub open spec fn list_where(q: ListBlueprintsQuery) -> Seq<char> {
    if list_conditions(q).len() == 0 {
        seq![]
    } else {
        "WHERE "@ + join(list_conditions(q), " AND "@)
    }
}

/// The Cypher text of a listing, ordered by scope, category and name.
pub open spec fn list_cypher(q: ListBlueprintsQuery) -> Seq<char> {
    "MATCH (b:Blueprint)\n            "@ + list_where(q)
        + "\n            RETURN b\n            ORDER BY b.scope ASC, b.category ASC, b.name ASC\n            SKIP $offset\n            LIMIT $limit"@
}

/// The parameters of a listing: each filter given, then offset and limit.
pub open spec fn list_params(q: ListBlueprintsQuery) -> Seq<(Seq<char>, ParamData)> {
    opt_named(
        "scope"@,
        match q.scope {
            Some(s) => Some(scope_name(s)),
            None => None,
        },
    ) + opt_named(
        "category"@,
        match q.category {
            Some(c) => Some(category_name(c)),
            None => None,
        },
    ) + opt_text("stack_filter"@, q.stack) + opt_named(
        "status"@,
        match q.status {
            Some(s) => Some(status_name(s)),
            None => None,
        },
    ) + opt_text("search"@, q.search) + seq![
        ("offset"@, ParamData::Int(q.offset as i64 as int)),
        ("limit"@, ParamData::Int(q.limit as i64 as int)),
    ]
}

fn list_cypher_text(q: &ListBlueprintsQuery) -> (r: String)
    ensures
        r@ == list_cypher(*q),
{
    let mut conds: Vec<Vec<char>> = Vec::new();
    proof {
        assert(views(conds@) =~= Seq::<Seq<char>>::empty());
    }
    push_clause_if(&mut conds, q.scope.is_some(), "b.scope = $scope");
    proof {
        assert(views(conds@) =~= when(q.scope is Some, "b.scope = $scope"@));
    }
    push_clause_if(&mut conds, q.category.is_some(), "b.category = $category");
    push_clause_if(&mut conds, q.stack.is_some(), "$stack_filter IN b.stack");
    push_clause_if(&mut conds, q.status.is_some(), "b.status = $status");
    push_clause_if(
        &mut conds,
        q.search.is_some(),
        "(toLower(b.name) CONTAINS toLower($search) OR toLower(b.description) CONTAINS toLower($search))",
    );
    let mut text: Vec<char> = Vec::new();
    extend_str(&mut text, "MATCH (b:Blueprint)\n            ");
    if conds.len() > 0 {
        let sep = crate::text::chars_of(" AND ");
        let joined = join_chars(&conds, sep.as_slice());
        extend_str(&mut text, "WHERE ");
        extend_chars(&mut text, joined.as_slice());
    }
    extend_str(
        &mut text,
        "\n            RETURN b\n            ORDER BY b.scope ASC, b.category ASC, b.name ASC\n            SKIP $offset\n            LIMIT $limit",
    );
    proof {
        assert(views(conds@).len() == conds@.len());
        assert(text@ =~= list_cypher(*q));
    }
    string_of(text.as_slice())
}

fn list_param_list(q: &ListBlueprintsQuery) -> (ps: Vec<QueryParam>)
    ensures
        params_view(ps@) == list_params(*q),
{
    let mut ps: Vec<QueryParam> = Vec::new();
    let scope = match q.scope {
        Some(s) => Some(s.to_string()),
        None => None,
    };
    push_param_if(&mut ps, opt_named_param("scope", scope));
    proof {
        assert(params_view(ps@) =~= opt_named(
            "scope"@,
            match q.scope {
                Some(s) => Some(scope_name(s)),
                None => None,
            },
        ));
    }
    let category = match q.category {
        Some(c) => Some(c.to_string()),
        None => None,
    };
    push_param_if(&mut ps, opt_named_param("category", category));
    push_param_if(&mut ps, opt_text_param("stack_filter", &q.stack));
    let status = match q.status {
        Some(s) => Some(s.to_string()),
        None => None,
    };
    push_param_if(&mut ps, opt_named_param("status", status));
    push_param_if(&mut ps, opt_text_param("search", &q.search));
    let ghost before = params_view(ps@);
    ps.push(QueryParam { name: "offset".to_string(), value: ParamValue::Int(q.offset as i64) });
    ps.push(QueryParam { name: "limit".to_string(), value: ParamValue::Int(q.limit as i64) });
    proof {
        assert(params_view(ps@) =~= before + seq![
            ("offset"@, ParamData::Int(q.offset as i64 as int)),
            ("limit"@, ParamData::Int(q.limit as i64 as int)),
        ]);
    }
    ps
}

/// The query that lists the blueprints `q` selects, one page of them.
pub fn list_blueprints_query(q: &ListBlueprintsQuery) -> (r: CypherQuery)
    ensures
        r.text@ == list_cypher(*q),
        params_view(r.params@) == list_params(*q),
{
    CypherQuery { text: list_cypher_text(q), params: list_param_list(q) }
}

// ============================================================================
// Create
// ============================================================================

/// The Cypher text that creates a blueprint node and returns it.
pub open spec fn create_cypher() -> Seq<char> {
    "\n            CREATE (b:Blueprint {\n                id: $id,\n                slug: $slug,\n                name: $name,\n                description: $description,\n                scope: $scope,\n                category: $category,\n                difficulty: $difficulty,\n                estimated_time: $estimated_time,\n                stack: $stack,\n                tier1: $tier1,\n                tier2: $tier2,\n                tier3_content: $tier3_content,\n                source_file: $source_file,\n                content_hash: $content_hash,\n                status: $status,\n                version: 1,\n                tags: $tags,\n                usage_count: 0,\n                created_at: $created_at,\n                updated_at: $updated_at\n            })\n            RETURN b\n            "@
}

/// The text of an optional string, empty where it is not given.
pub open spec fn text_or_empty(v: Option<String>) -> Seq<char> {
    match v {
        Some(s) => s@,
        None => seq![],
    }
}

/// The strings of an optional list, none where it is not given.
pub open spec fn list_or_empty(v: Option<Vec<String>>) -> Seq<Seq<char>> {
    match v {
        Some(l) => string_views(l@),
        None => seq![],
    }
}

/// The parameters of a creation: every field, a missing one empty or at its
/// default; the status is `active`; both times are `now`.
pub open spec fn create_params(id: u128, now: Seq<char>, req: CreateBlueprintRequest) -> Seq<
    (Seq<char>, ParamData),
> {
    seq![
        ("id"@, ParamData::Text(uuid_text(id))),
        ("slug"@, ParamData::Text(req.slug@)),
        ("name"@, ParamData::Text(req.name@)),
        ("description"@, ParamData::Text(text_or_empty(req.description))),
        ("scope"@, ParamData::Text(scope_name(match req.scope {
            Some(s) => s,
            None => BlueprintScope::Pattern,
        }))),
        ("category"@, ParamData::Text(category_name(match req.category {
            Some(c) => c,
            None => BlueprintCategory::Patterns,
        }))),
        ("difficulty"@, ParamData::Text(difficulty_name(match req.difficulty {
            Some(d) => d,
            None => BlueprintDifficulty::Intermediate,
        }))),
        ("estimated_time"@, ParamData::Text(text_or_empty(req.estimated_time))),
        ("stack"@, ParamData::List(list_or_empty(req.stack))),
        ("tier1"@, ParamData::Text(text_or_empty(req.tier1))),
        ("tier2"@, ParamData::Text(text_or_empty(req.tier2))),
        ("tier3_content"@, ParamData::Text(text_or_empty(req.tier3_content))),
        ("source_file"@, ParamData::Text(text_or_empty(req.source_file))),
        ("content_hash"@, ParamData::Text(text_or_empty(req.content_hash))),
        ("status"@, ParamData::Text(status_name(BlueprintStatus::Active))),
        ("tags"@, ParamData::List(list_or_empty(req.tags))),
        ("created_at"@, ParamData::Text(now)),
        ("updated_at"@, ParamData::Text(now)),
    ]
}

fn string_or_empty(v: &Option<String>) -> (r: String)
    ensures
        r@ == text_or_empty(*v),
{
    match v {
        Some(s) => s.clone(),
        None => String::new(),
    }
}

fn strings_or_empty(v: &Option<Vec<String>>) -> (r: Vec<String>)
    ensures
        string_views(r@) == list_or_empty(*v),
{
    match v {
        Some(l) => clone_strings(l),
        None => {
            let r: Vec<String> = Vec::new();
            assert(string_views(r@) =~= Seq::<Seq<char>>::empty());
            r
        },
    }
}

/// The query that creates a blueprint with UUID `id` from `req` at time
/// `now`, and returns the node.
pub fn create_blueprint_query(req: &CreateBlueprintRequest, id: u128, now: &str) -> (q: CypherQuery)
    ensures
        q.text@ == create_cypher(),
        params_view(q.params@) == create_params(id, now@, *req),
{
    let scope = match req.scope {
        Some(s) => s,
        None => BlueprintScope::default(),
    };
    let category = match req.category {
        Some(c) => c,
        None => BlueprintCategory::default(),
    };
    let difficulty = match req.difficulty {
        Some(d) => d,
        None => BlueprintDifficulty::default(),
    };
    let mut ps: Vec<QueryParam> = Vec::new();
    ps.push(text_param("id", uuid_to_string(id)));
    ps.push(text_param("slug", req.slug.clone()));
    ps.push(text_param("name", req.name.clone()));
    ps.push(text_param("description", string_or_empty(&req.description)));
    ps.push(text_param("scope", scope.to_string()));
    ps.push(text_param("category", category.to_string()));
    ps.push(text_param("difficulty", difficulty.to_string()));
    ps.push(text_param("estimated_time", string_or_empty(&req.estimated_time)));
    ps.push(list_param("stack", strings_or_empty(&req.stack)));
    ps.push(text_param("tier1", string_or_empty(&req.tier1)));
    ps.push(text_param("tier2", string_or_empty(&req.tier2)));
    ps.push(text_param("tier3_content", string_or_empty(&req.tier3_content)));
    ps.push(text_param("source_file", string_or_empty(&req.source_file)));
    ps.push(text_param("content_hash", string_or_empty(&req.content_hash)));
    ps.push(text_param("status", BlueprintStatus::Active.to_string()));
    ps.push(list_param("tags", strings_or_empty(&req.tags)));
    ps.push(text_param("created_at", now.to_string()));
    ps.push(text_param("updated_at", now.to_string()));
    proof {
        assert(params_view(ps@) =~= create_params(id, now@, *req));
    }
    let text = "\n            CREATE (b:Blueprint {\n                id: $id,\n                slug: $slug,\n                name: $name,\n                description: $description,\n                scope: $scope,\n                category: $category,\n                difficulty: $difficulty,\n                estimated_time: $estimated_time,\n                stack: $stack,\n                tier1: $tier1,\n                tier2: $tier2,\n                tier3_content: $tier3_content,\n                source_file: $source_file,\n                content_hash: $content_hash,\n                status: $status,\n                version: 1,\n                tags: $tags,\n                usage_count: 0,\n                created_at: $created_at,\n                updated_at: $updated_at\n            })\n            RETURN b\n            ".to_string();
    CypherQuery { text, params: ps }
}

// ============================================================================
// Relations between blueprints
// ============================================================================

/// The Cypher text that merges a relation of the given type between the
/// blueprints `$from_slug` and `$to_slug`.
pub open spec fn add_relation_cypher(r: BlueprintRelationType) -> Seq<char> {
    "\n            MATCH (a:Blueprint {slug: $from_slug})\n            MATCH (b:Blueprint {slug: $to_slug})\n            MERGE (a)-[r:"@
        + relation_name(r)
        + "]->(b)\n            ON CREATE SET r.created_at = $created_at\n            RETURN type(r) AS rel_type\n            "@
}

/// The Cypher text that deletes a relation of the given type between the
/// blueprints `$from_slug` and `$to_slug`.
pub open spec fn remove_relation_cypher(r: BlueprintRelationType) -> Seq<char> {
    "\n            MATCH (a:Blueprint {slug: $from_slug})-[r:"@ + relation_name(r)
        + "]->(b:Blueprint {slug: $to_slug})\n            DELETE r\n            "@
}

/// The query that adds a relation from `from_slug` to `to_slug`, created at
/// `now`.
pub fn add_relation_query(
    from_slug: &str,
    to_slug: &str,
    relation_type: BlueprintRelationType,
    now: &str,
) -> (q: CypherQuery)
    ensures
        q.text@ == add_relation_cypher(relation_type),
        params_view(q.params@) == seq![
            ("from_slug"@, ParamData::Text(from_slug@)),
            ("to_slug"@, ParamData::Text(to_slug@)),
            ("created_at"@, ParamData::Text(now@)),
        ],
{
    let mut text: Vec<char> = Vec::new();
    extend_str(
        &mut text,
        "\n            MATCH (a:Blueprint {slug: $from_slug})\n            MATCH (b:Blueprint {slug: $to_slug})\n            MERGE (a)-[r:",
    );
    extend_str(&mut text, relation_type.as_str());
    extend_str(
        &mut text,
        "]->(b)\n            ON CREATE SET r.created_at = $created_at\n            RETURN type(r) AS rel_type\n            ",
    );
    let mut ps: Vec<QueryParam> = Vec::new();
    ps.push(text_param("from_slug", from_slug.to_string()));
    ps.push(text_param("to_slug", to_slug.to_string()));
    ps.push(text_param("created_at", now.to_string()));
    proof {
        assert(text@ =~= add_relation_cypher(relation_type));
        assert(params_view(ps@) =~= seq![
            ("from_slug"@, ParamData::Text(from_slug@)),
            ("to_slug"@, ParamData::Text(to_slug@)),
            ("created_at"@, ParamData::Text(now@)),
        ]);
    }
    CypherQuery { text: string_of(text.as_slice()), params: ps }
}

/// The query that removes the relation from `from_slug` to `to_slug`.
pub fn remove_relation_query(from_slug: &str, to_slug: &str, relation_type: BlueprintRelationType) -> (q:
    CypherQuery)
    ensures
        q.text@ == remove_relation_cypher(relation_type),
        params_view(q.params@) == seq![
            ("from_slug"@, ParamData::Text(from_slug@)),
            ("to_slug"@, ParamData::Text(to_slug@)),
        ],
{
    let mut text: Vec<char> = Vec::new();
    extend_str(&mut text, "\n            MATCH (a:Blueprint {slug: $from_slug})-[r:");
    extend_str(&mut text, relation_type.as_str());
    extend_str(&mut text, "]->(b:Blueprint {slug: $to_slug})\n            DELETE r\n            ");
    let mut ps: Vec<QueryParam> = Vec::new();
    ps.push(text_param("from_slug", from_slug.to_string()));
    ps.push(text_param("to_slug", to_slug.to_string()));
    proof {
        assert(text@ =~= remove_relation_cypher(relation_type));
        assert(params_view(ps@) =~= seq![
            ("from_slug"@, ParamData::Text(from_slug@)),
            ("to_slug"@, ParamData::Text(to_slug@)),
        ]);
    }
    CypherQuery { text: string_of(text.as_slice()), params: ps }
}

// ============================================================================
// A blueprint read back from a node
// ============================================================================

/// The properties of a blueprint node as stored, each `None` where the node
/// lacks it or holds a value of another type.
#[derive(Debug, Clone)]
pub struct BlueprintRecord {
    pub id: Option<String>,
    pub slug: Option<String>,
    pub name: Option<String>,
    pub description: Option<String>,
    pub scope: Option<String>,
    pub category: Option<String>,
    pub difficulty: Option<String>,
    pub estimated_time: Option<String>,
    pub stack: Option<Vec<String>>,
    pub tier1: Option<String>,
    pub tier2: Option<String>,
    pub tier3_content: Option<String>,
    pub source_file: Option<String>,
    pub content_hash: Option<String>,
    pub status: Option<String>,
    pub version: Option<i64>,
    pub tags: Option<Vec<String>>,
    pub usage_count: Option<i64>,
    pub created_at: Option<String>,
    pub updated_at: Option<String>,
}

/// Why a node is not a blueprint.
#[derive(Debug, Clone, PartialEq, Eq, Structural)]
pub enum RecordError {
    /// It has no `id` string.
    MissingId,
    /// Its `id` is not a UUID.
    InvalidId,
    /// It has no `name` string.
    MissingName,
}

/// A scope read from its stored name; `Pattern` where there is none or it
/// names no scope.
pub open spec fn scope_or_default(v: Option<String>) -> BlueprintScope {
    match v {
        Some(s) => match scope_from_name(lowercase(s@)) {
            Some(x) => x,
            None => BlueprintScope::Pattern,
        },
        None => BlueprintScope::Pattern,
    }
}

/// A category read from its stored name; `Patterns` where there is none or
/// it names no category.
pub open spec fn category_or_default(v: Option<String>) -> BlueprintCategory {
    match v {
        Some(s) => match category_from_name(crate::blueprint::models::category_key(s@)) {
            Some(x) => x,
            None => BlueprintCategory::Patterns,
        },
        None => BlueprintCategory::Patterns,
    }
}

/// A difficulty read from its stored name; `Intermediate` where there is
/// none or it names no difficulty.
pub open spec fn difficulty_or_default(v: Option<String>) -> BlueprintDifficulty {
    match v {
        Some(s) => match difficulty_from_name(lowercase(s@)) {
            Some(x) => x,
            None => BlueprintDifficulty::Intermediate,
        },
        None => BlueprintDifficulty::Intermediate,
    }
}

/// A status read from its stored name; `Draft` where there is none or it
/// names no status.
pub open spec fn status_or_default(v: Option<String>) -> BlueprintStatus {
    match v {
        Some(s) => match status_from_name(lowercase(s@)) {
            Some(x) => x,
            None => BlueprintStatus::Draft,
        },
        None => BlueprintStatus::Draft,
    }
}

/// A stored time that parses, if there is one.
pub open spec fn stored_time(v: Option<String>) -> Option<(i64, u32)> {
    match v {
        Some(s) => parsed_timestamp(s@),
        None => None,
    }
}

/// What a blueprint node's properties say: an error where the id is missing
/// or no UUID, or the name is missing (in that order); else a blueprint
/// whose every other field is the stored value or its default.
pub open spec fn record_outcome(rec: BlueprintRecord, b: Result<BlueprintNode, RecordError>) -> bool {
    match rec.id {
        None => b == Err::<BlueprintNode, RecordError>(RecordError::MissingId),
        Some(id) => match parsed_uuid(id@) {
            None => b == Err::<BlueprintNode, RecordError>(RecordError::InvalidId),
            Some(uuid) => match rec.name {
                None => b == Err::<BlueprintNode, RecordError>(RecordError::MissingName),
                Some(name) => b matches Ok(n) && {
                    &&& n.id == uuid
                    &&& n.name@ == name@
                    &&& n.slug@ == text_or_empty(rec.slug)
                    &&& n.description@ == text_or_empty(rec.description)
                    &&& n.scope == scope_or_default(rec.scope)
                    &&& n.category == category_or_default(rec.category)
                    &&& n.difficulty == difficulty_or_default(rec.difficulty)
                    &&& n.estimated_time@ == text_or_empty(rec.estimated_time)
                    &&& string_views(n.stack@) == list_or_empty(rec.stack)
                    &&& n.tier1@ == text_or_empty(rec.tier1)
                    &&& n.tier2@ == text_or_empty(rec.tier2)
                    &&& n.tier3_content@ == text_or_empty(rec.tier3_content)
                    &&& n.source_file@ == text_or_empty(rec.source_file)
                    &&& n.content_hash@ == text_or_empty(rec.content_hash)
                    &&& n.status == status_or_default(rec.status)
                    &&& n.version == (match rec.version {
                        Some(v) => v,
                        None => 1,
                    })
                    &&& string_views(n.tags@) == list_or_empty(rec.tags)
                    &&& n.usage_count == (match rec.usage_count {
                        Some(v) => v,
                        None => 0,
                    })
                    &&& stored_time(rec.created_at) matches Some(t) ==> (n.created_at.secs, n.created_at.nanos) == t
                    &&& stored_time(rec.updated_at) matches Some(t) ==> (n.updated_at.secs, n.updated_at.nanos) == t
                },
            },
        },
    }
}

fn scope_from_stored(v: &Option<String>) -> (r: BlueprintScope)
    ensures
        r == scope_or_default(*v),
{
    match v {
        Some(s) => match BlueprintScope::from_str(s.as_str()) {
            Ok(x) => x,
            Err(_) => BlueprintScope::default(),
        },
        None => BlueprintScope::default(),
    }
}

fn category_from_stored(v: &Option<String>) -> (r: BlueprintCategory)
    ensures
        r == category_or_default(*v),
{
    match v {
        Some(s) => match BlueprintCategory::from_str(s.as_str()) {
            Ok(x) => x,
            Err(_) => BlueprintCategory::default(),
        },
        None => BlueprintCategory::default(),
    }
}

fn difficulty_from_stored(v: &Option<String>) -> (r: BlueprintDifficulty)
    ensures
        r == difficulty_or_default(*v),
{
    match v {
        Some(s) => match BlueprintDifficulty::from_str(s.as_str()) {
            Ok(x) => x,
            Err(_) => BlueprintDifficulty::default(),
        },
        None => BlueprintDifficulty::default(),
    }
}

fn status_from_stored(v: &Option<String>) -> (r: BlueprintStatus)
    ensures
        r == status_or_default(*v),
{
    match v {
        Some(s) => match BlueprintStatus::from_str(s.as_str()) {
            Ok(x) => x,
            Err(_) => BlueprintStatus::default(),
        },
        None => BlueprintStatus::default(),
    }
}

/// A stored time, or the current time where there is none or it does not
/// parse.
fn time_from_stored(v: &Option<String>) -> (t: Timestamp)
    ensures
        stored_time(*v) matches Some(p) ==> (t.secs, t.nanos) == p,
{
    match v {
        Some(s) => match parse_timestamp(s.as_str()) {
            Some(t) => t,
            None => utc_now(),
        },
        None => utc_now(),
    }
}

/// The blueprint a node's properties describe.
pub fn blueprint_from_record(rec: &BlueprintRecord) -> (b: Result<BlueprintNode, RecordError>)
    ensures
        record_outcome(*rec, b),
{
    let id = match &rec.id {
        Some(s) => match parse_uuid(s.as_str()) {
            Some(u) => u,
            None => {
                return Err(RecordError::InvalidId);
            },
        },
        None => {
            return Err(RecordError::MissingId);
        },
    };
    let name = match &rec.name {
        Some(n) => n.clone(),
        None => {
            return Err(RecordError::MissingName);
        },
    };
    let node = BlueprintNode {
        id,
        slug: string_or_empty(&rec.slug),
        name,
        description: string_or_empty(&rec.description),
        scope: scope_from_stored(&rec.scope),
        category: category_from_stored(&rec.category),
        difficulty: difficulty_from_stored(&rec.difficulty),
        estimated_time: string_or_empty(&rec.estimated_time),
        stack: strings_or_empty(&rec.stack),
        tier1: string_or_empty(&rec.tier1),
        tier2: string_or_empty(&rec.tier2),
        tier3_content: string_or_empty(&rec.tier3_content),
        source_file: string_or_empty(&rec.source_file),
        content_hash: string_or_empty(&rec.content_hash),
        status: status_from_stored(&rec.status),
        version: match rec.version {
            Some(v) => v,
            None => 1,
        },
        tags: strings_or_empty(&rec.tags),
        usage_count: match rec.usage_count {
            Some(v) => v,
            None => 0,
        },
        created_at: time_from_stored(&rec.created_at),
        updated_at: time_from_stored(&rec.updated_at),
    };
    Ok(node)
}

/// Why an update gives no blueprint.
#[derive(Debug, Clone, PartialEq, Eq)]
pub enum UpdateError {
    /// No node has the id; the message names it.
    NotFound(String),
    /// The node returned is not a blueprint.
    Record(RecordError),
}

/// The outcome of an update from the row the query returned: no row means
/// no blueprint has the id, and the error says `Blueprint not found: ` and
/// the id; a row is read back as a blueprint.
pub open spec fn update_outcome(
    id: Seq<char>,
    row: Option<BlueprintRecord>,
    r: Result<BlueprintNode, UpdateError>,
) -> bool {
    match row {
        None => r matches Err(UpdateError::NotFound(m)) && m@ == "Blueprint not found: "@ + id,
        Some(rec) => match r {
            Ok(n) => record_outcome(rec, Ok(n)),
            Err(UpdateError::Record(e)) => record_outcome(rec, Err(e)),
            Err(UpdateError::NotFound(_)) => false,
        },
    }
}

/// The result of the update of blueprint `id`, from the row its query
/// returned (`None` where no node matched).
pub fn update_result(id: &str, row: Option<&BlueprintRecord>) -> (r: Result<
    BlueprintNode,
    UpdateError,
>)
    ensures
        update_outcome(
            id@,
            match row {
                Some(rec) => Some(*rec),
                None => None,
            },
            r,
        ),
{
    match row {
        None => {
            let mut v: Vec<char> = Vec::new();
            extend_str(&mut v, "Blueprint not found: ");
            extend_str(&mut v, id);
            Err(UpdateError::NotFound(string_of(v.as_slice())))
        },
        Some(rec) => match blueprint_from_record(rec) {
            Ok(n) => Ok(n),
            Err(e) => Err(UpdateError::Record(e)),
        },
    }
}

// ============================================================================
// Lookups by id or slug
// ============================================================================

/// A query with one text parameter.
fn one_param_query(text: &str, name: &str, value: &str) -> (q: CypherQuery)
    ensures
        q.text@ == text@,
        params_view(q.params@) == seq![(name@, ParamData::Text(value@))],
{
    let mut ps: Vec<QueryParam> = Vec::new();
    ps.push(text_param(name, value.to_string()));
    proof {
        assert(params_view(ps@) =~= seq![(name@, ParamData::Text(value@))]);
    }
    CypherQuery { text: text.to_string(), params: ps }
}

/// The query that returns the blueprint with UUID text `id`.
pub fn get_blueprint_query(id: &str) -> (q: CypherQuery)
    ensures
        q.text@ == "MATCH (b:Blueprint {id: $id}) RETURN b"@,
        params_view(q.params@) == seq![("id"@, ParamData::Text(id@))],
{
    one_param_query("MATCH (b:Blueprint {id: $id}) RETURN b", "id", id)
}

/// The query that returns the blueprint with slug `slug`.
pub fn get_blueprint_by_slug_query(slug: &str) -> (q: CypherQuery)
    ensures
        q.text@ == "MATCH (b:Blueprint {slug: $slug}) RETURN b"@,
        params_view(q.params@) == seq![("slug"@, ParamData::Text(slug@))],
{
    one_param_query("MATCH (b:Blueprint {slug: $slug}) RETURN b", "slug", slug)
}

/// The query that deletes the blueprint with UUID text `id` and its
/// relations.
pub fn delete_blueprint_query(id: &str) -> (q: CypherQuery)
    ensures
        q.text@ == "\n            MATCH (b:Blueprint {id: $id})\n            DETACH DELETE b\n            "@,
        params_view(q.params@) == seq![("id"@, ParamData::Text(id@))],
{
    one_param_query(
        "\n            MATCH (b:Blueprint {id: $id})\n            DETACH DELETE b\n            ",
        "id",
        id,
    )
}

/// The query that returns the blueprints `slug` depends on, up to three
/// steps away, leaving archived ones out.
pub fn dependencies_query(slug: &str) -> (q: CypherQuery)
    ensures
        q.text@ == "\n            MATCH (b:Blueprint {slug: $slug})-[:DEPENDS_ON*1..3]->(dep:Blueprint)\n            WHERE dep.status <> 'archived'\n            RETURN DISTINCT dep\n            "@,
        params_view(q.params@) == seq![("slug"@, ParamData::Text(slug@))],
{
    one_param_query(
        "\n            MATCH (b:Blueprint {slug: $slug})-[:DEPENDS_ON*1..3]->(dep:Blueprint)\n            WHERE dep.status <> 'archived'\n            RETURN DISTINCT dep\n            ",
        "slug",
        slug,
    )
}

/// The query that returns the blueprints that depend on `slug`, up to three
/// steps away, leaving archived ones out.
pub fn dependents_query(slug: &str) -> (q: CypherQuery)
    ensures
        q.text@ == "\n            MATCH (b:Blueprint {slug: $slug})<-[:DEPENDS_ON*1..3]-(dep:Blueprint)\n            WHERE dep.status <> 'archived'\n            RETURN DISTINCT dep\n            "@,
        params_view(q.params@) == seq![("slug"@, ParamData::Text(slug@))],
{
    one_param_query(
        "\n            MATCH (b:Blueprint {slug: $slug})<-[:DEPENDS_ON*1..3]-(dep:Blueprint)\n            WHERE dep.status <> 'archived'\n            RETURN DISTINCT dep\n            ",
        "slug",
        slug,
    )
}

/// The query that returns the blueprints paired with `slug` either way,
/// leaving archived ones out.
pub fn pairs_query(slug: &str) -> (q: CypherQuery)
    ensures
        q.text@ == "\n            MATCH (b:Blueprint {slug: $slug})-[:PAIRS_WITH]-(pair:Blueprint)\n            WHERE pair.status <> 'archived'\n            RETURN DISTINCT pair\n            "@,
        params_view(q.params@) == seq![("slug"@, ParamData::Text(slug@))],
{
    one_param_query(
        "\n            MATCH (b:Blueprint {slug: $slug})-[:PAIRS_WITH]-(pair:Blueprint)\n            WHERE pair.status <> 'archived'\n            RETURN DISTINCT pair\n            ",
        "slug",
        slug,
    )
}

/// The query that returns the blueprints applied to a project, most
/// relevant first, leaving archived ones out.
pub fn project_blueprints_query(project_id: &str) -> (q: CypherQuery)
    ensures
        q.text@ == "\n            MATCH (b:Blueprint)-[r:APPLIES_TO]->(p:Project {id: $project_id})\n            WHERE b.status <> 'archived'\n            RETURN b, r.relevance AS relevance\n            ORDER BY r.relevance DESC\n            "@,
        params_view(q.params@) == seq![("project_id"@, ParamData::Text(project_id@))],
{
    one_param_query(
        "\n            MATCH (b:Blueprint)-[r:APPLIES_TO]->(p:Project {id: $project_id})\n            WHERE b.status <> 'archived'\n            RETURN b, r.relevance AS relevance\n            ORDER BY r.relevance DESC\n            ",
        "project_id",
        project_id,
    )
}

/// The query that removes a blueprint's link to a project.
pub fn unlink_from_project_query(slug: &str, project_id: &str) -> (q: CypherQuery)
    ensures
        q.text@ == "\n            MATCH (b:Blueprint {slug: $slug})-[r:APPLIES_TO]->(p:Project {id: $project_id})\n            DELETE r\n            "@,
        params_view(q.params@) == seq![
            ("slug"@, ParamData::Text(slug@)),
            ("project_id"@, ParamData::Text(project_id@)),
        ],
{
    let mut ps: Vec<QueryParam> = Vec::new();
    ps.push(text_param("slug", slug.to_string()));
    ps.push(text_param("project_id", project_id.to_string()));
    proof {
        assert(params_view(ps@) =~= seq![
            ("slug"@, ParamData::Text(slug@)),
            ("project_id"@, ParamData::Text(project_id@)),
        ]);
    }
    CypherQuery {
        text: "\n            MATCH (b:Blueprint {slug: $slug})-[r:APPLIES_TO]->(p:Project {id: $project_id})\n            DELETE r\n            ".to_string(),
        params: ps,
    }
}

} // verus!
