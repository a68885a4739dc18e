//! Graph queries on retrospectives that depend on their filters, and the
//! paging the retrospective endpoints apply.

use vstd::prelude::*;
use crate::blueprint::queries::{params_view, CypherQuery, ParamData, ParamValue, QueryParam};
use crate::ids::{uuid_text, uuid_to_string};
use crate::blueprint::models::clone_strings;
use crate::text::{extend_str, string_of, string_views};

verus! {

/// The Cypher text of a retrospective listing: the filters given, newest
/// first, one page.
pub open spec fn list_retrospectives_cypher(has_project: bool, has_outcome: bool) -> Seq<char> {
    "MATCH (r:TaskRetrospective) WHERE true "@ + (if has_project {
        "AND r.project_id = $project_id "@
    } else {
        seq![]
    }) + (if has_outcome {
        "AND r.outcome = $outcome "@
    } else {
        seq![]
    }) + "RETURN r ORDER BY r.created_at DESC SKIP $offset LIMIT $limit"@
}

/// The parameters of a retrospective listing: the page, then each filter
/// given.
pub open spec fn list_retrospectives_params(
    project_id: Option<u128>,
    outcome: Option<Seq<char>>,
    limit: i64,
    offset: i64,
) -> Seq<(Seq<char>, ParamData)> {
    seq![("limit"@, ParamData::Int(limit as int)), ("offset"@, ParamData::Int(offset as int))] + (
    match project_id {
        Some(p) => seq![("project_id"@, ParamData::Text(uuid_text(p)))],
        None => seq![],
    }) + (match outcome {
        Some(o) => seq![("outcome"@, ParamData::Text(o))],
        None => seq![],
    })
}

/// The query that lists one page of retrospectives, of a project and with
/// an outcome where these are given.
pub fn list_retrospectives_query(
    project_id: Option<u128>,
    outcome: Option<&str>,
    limit: i64,
    offset: i64,
) -> (q: CypherQuery)
    ensures
        q.text@ == list_retrospectives_cypher(project_id is Some, outcome is Some),
        params_view(q.params@) == list_retrospectives_params(
            project_id,
            match outcome {
                Some(o) => Some(o@),
                None => None,
            },
            limit,
            offset,
        ),
{
    let mut text: Vec<char> = Vec::new();
    extend_str(&mut text, "MATCH (r:TaskRetrospective) WHERE true ");
    if project_id.is_some() {
        extend_str(&mut text, "AND r.project_id = $project_id ");
    }
    if outcome.is_some() {
        extend_str(&mut text, "AND r.outcome = $outcome ");
    }
    extend_str(&mut text, "RETURN r ORDER BY r.created_at DESC SKIP $offset LIMIT $limit");
    proof {
        reveal_strlit("");
        assert(text@ =~= list_retrospectives_cypher(project_id is Some, outcome is Some));
    }
    let mut ps: Vec<QueryParam> = Vec::new();
    ps.push(QueryParam { name: "limit".to_string(), value: ParamValue::Int(limit) });
    ps.push(QueryParam { name: "offset".to_string(), value: ParamValue::Int(offset) });
    match project_id {
        Some(p) => {
            ps.push(QueryParam { name: "project_id".to_string(), value: ParamValue::Text(uuid_to_string(p)) });
        },
        None => {},
    }
    match outcome {
        Some(o) => {
            ps.push(QueryParam { name: "outcome".to_string(), value: ParamValue::Text(o.to_string()) });
        },
        None => {},
    }
    proof {
        assert(params_view(ps@) =~= list_retrospectives_params(
            project_id,
            match outcome {
                Some(o) => Some(o@),
                None => None,
            },
            limit,
            offset,
        ));
    }
    CypherQuery { text: string_of(text.as_slice()), params: ps }
}

/// The page of a retrospective listing: 50 by default and at most 100,
/// from offset 0 by default.
pub fn retrospective_page(limit: Option<i64>, offset: Option<i64>) -> (r: (i64, i64))
    ensures
        r.0 == (match limit {
            Some(l) => if l < 100 {
                l
            } else {
                100
            },
            None => 50,
        }),
        r.1 == (match offset {
            Some(o) => o,
            None => 0,
        }),
{
    let l = match limit {
        Some(l) => l,
        None => 50,
    };
    let l = if l < 100 {
        l
    } else {
        100
    };
    let o = match offset {
        Some(o) => o,
        None => 0,
    };
    (l, o)
}

/// The query that returns the retrospective with UUID `id`.
pub fn get_retrospective_query(id: u128) -> (q: CypherQuery)
    ensures
        q.text@ == "\n            MATCH (r:TaskRetrospective {id: $id})\n            RETURN r\n            "@,
        params_view(q.params@) == seq![("id"@, ParamData::Text(uuid_text(id)))],
{
    let mut ps: Vec<QueryParam> = Vec::new();
    ps.push(QueryParam { name: "id".to_string(), value: ParamValue::Text(uuid_to_string(id)) });
    proof {
        assert(params_view(ps@) =~= seq![("id"@, ParamData::Text(uuid_text(id)))]);
    }
    CypherQuery {
        text: "\n            MATCH (r:TaskRetrospective {id: $id})\n            RETURN r\n            ".to_string(),
        params: ps,
    }
}

/// The query that returns the latest retrospective of the task `task_id`.
pub fn retrospective_for_task_query(task_id: u128) -> (q: CypherQuery)
    ensures
        q.text@ == "\n            MATCH (r:TaskRetrospective {task_id: $task_id})\n            RETURN r\n            ORDER BY r.created_at DESC\n            LIMIT 1\n            "@,
        params_view(q.params@) == seq![("task_id"@, ParamData::Text(uuid_text(task_id)))],
{
    let mut ps: Vec<QueryParam> = Vec::new();
    ps.push(
        QueryParam { name: "task_id".to_string(), value: ParamValue::Text(uuid_to_string(task_id)) },
    );
    proof {
        assert(params_view(ps@) =~= seq![("task_id"@, ParamData::Text(uuid_text(task_id)))]);
    }
    CypherQuery {
        text: "\n            MATCH (r:TaskRetrospective {task_id: $task_id})\n            RETURN r\n            ORDER BY r.created_at DESC\n            LIMIT 1\n            ".to_string(),
        params: ps,
    }
}

/// The query that returns up to `limit` retrospectives of a project, those
/// sharing most of `files` first, then the newest (the overlap counts only
/// where `tags` is not empty).
pub fn cohort_query(project_id: u128, tags: &Vec<String>, files: &Vec<String>, limit: i64) -> (q:
    CypherQuery)
    ensures
        q.text@ == "\n            MATCH (r:TaskRetrospective {project_id: $project_id})\n            WITH r,\n                 CASE WHEN size($tags) > 0 THEN\n                    size([f IN r.files_modified WHERE f IN $files])\n                 ELSE 0 END AS file_overlap\n            RETURN r\n            ORDER BY file_overlap DESC, r.created_at DESC\n            LIMIT $limit\n            "@,
        params_view(q.params@) == seq![
            ("project_id"@, ParamData::Text(uuid_text(project_id))),
            ("tags"@, ParamData::List(string_views(tags@))),
            ("files"@, ParamData::List(string_views(files@))),
            ("limit"@, ParamData::Int(limit as int)),
        ],
{
    let mut ps: Vec<QueryParam> = Vec::new();
    ps.push(
        QueryParam {
            name: "project_id".to_string(),
            value: ParamValue::Text(uuid_to_string(project_id)),
        },
    );
    ps.push(QueryParam { name: "tags".to_string(), value: ParamValue::List(clone_strings(tags)) });
    ps.push(QueryParam { name: "files".to_string(), value: ParamValue::List(clone_strings(files)) });
    ps.push(QueryParam { name: "limit".to_string(), value: ParamValue::Int(limit) });
    proof {
        assert(params_view(ps@) =~= seq![
            ("project_id"@, ParamData::Text(uuid_text(project_id))),
            ("tags"@, ParamData::List(string_views(tags@))),
            ("files"@, ParamData::List(string_views(files@))),
            ("limit"@, ParamData::Int(limit as int)),
        ]);
    }
    CypherQuery {
        text: "\n            MATCH (r:TaskRetrospective {project_id: $project_id})\n            WITH r,\n                 CASE WHEN size($tags) > 0 THEN\n                    size([f IN r.files_modified WHERE f IN $files])\n                 ELSE 0 END AS file_overlap\n            RETURN r\n            ORDER BY file_overlap DESC, r.created_at DESC\n            LIMIT $limit\n            ".to_string(),
        params: ps,
    }
}

/// The query that computes the failure rate of each of `files` in a
/// project's retrospectives; none for no files, whose rates are empty.
pub fn file_failure_rates_query(project_id: u128, files: &Vec<String>) -> (q: Option<CypherQuery>)
    ensures
        files@.len() == 0 <==> q is None,
        q matches Some(c) ==> c.text@ == "\n            UNWIND $files AS file_path\n            OPTIONAL MATCH (r:TaskRetrospective {project_id: $project_id})\n            WHERE file_path IN r.files_modified\n            WITH file_path,\n                 count(r) AS total,\n                 sum(CASE WHEN r.outcome = 'failure' THEN 1 ELSE 0 END) AS failures\n            WHERE total > 0\n            RETURN file_path, toFloat(failures) / toFloat(total) AS failure_rate\n            "@
            && params_view(c.params@) == seq![
            ("project_id"@, ParamData::Text(uuid_text(project_id))),
            ("files"@, ParamData::List(string_views(files@))),
        ],
{
    if files.len() == 0 {
        return None;
    }
    let mut ps: Vec<QueryParam> = Vec::new();
    ps.push(
        QueryParam {
            name: "project_id".to_string(),
            value: ParamValue::Text(uuid_to_string(project_id)),
        },
    );
    ps.push(QueryParam { name: "files".to_string(), value: ParamValue::List(clone_strings(files)) });
    proof {
        assert(params_view(ps@) =~= seq![
            ("project_id"@, ParamData::Text(uuid_text(project_id))),
            ("files"@, ParamData::List(string_views(files@))),
        ]);
    }
    Some(
        CypherQuery {
            text: "\n            UNWIND $files AS file_path\n            OPTIONAL MATCH (r:TaskRetrospective {project_id: $project_id})\n            WHERE file_path IN r.files_modified\n            WITH file_path,\n                 count(r) AS total,\n                 sum(CASE WHEN r.outcome = 'failure' THEN 1 ELSE 0 END) AS failures\n            WHERE total > 0\n            RETURN file_path, toFloat(failures) / toFloat(total) AS failure_rate\n            ".to_string(),
            params: ps,
        },
    )
}

/// The query that links a generated note to its retrospective.
pub fn link_note_query(retrospective_id: u128, note_id: u128) -> (q: CypherQuery)
    ensures
        q.text@ == "\n            MATCH (r:TaskRetrospective {id: $retro_id})\n            MATCH (n:Note {id: $note_id})\n            MERGE (r)-[:GENERATED_NOTE]->(n)\n            "@,
        params_view(q.params@) == seq![
            ("retro_id"@, ParamData::Text(uuid_text(retrospective_id))),
            ("note_id"@, ParamData::Text(uuid_text(note_id))),
        ],
{
    let mut ps: Vec<QueryParam> = Vec::new();
    ps.push(
        QueryParam {
            name: "retro_id".to_string(),
            value: ParamValue::Text(uuid_to_string(retrospective_id)),
        },
    );
    ps.push(
        QueryParam { name: "note_id".to_string(), value: ParamValue::Text(uuid_to_string(note_id)) },
    );
    proof {
        assert(params_view(ps@) =~= seq![
            ("retro_id"@, ParamData::Text(uuid_text(retrospective_id))),
            ("note_id"@, ParamData::Text(uuid_text(note_id))),
        ]);
    }
    CypherQuery {
        text: "\n            MATCH (r:TaskRetrospective {id: $retro_id})\n            MATCH (n:Note {id: $note_id})\n            MERGE (r)-[:GENERATED_NOTE]->(n)\n            ".to_string(),
        params: ps,
    }
}

} // verus!
