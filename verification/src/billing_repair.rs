//! Repair of historical MCP search logs that missed downstream billing:
//! which logged request bodies were billable searches, how many credits each
//! owes, and the report of a repair run.

use vstd::prelude::*;
use crate::lines::{trim_seq, trimmed_bounds};
use crate::json::{json_member, json_text, member, parse_json, parsed_json, text_of, Json};
use crate::text::{chars_of, opt_view, str_eq};

verus! {

#[verifier::external_type_specification]
#[verifier::external_body]
pub struct ExJsonValue(serde_json::Value);

/// The members of a JSON-RPC request body that decide its billing: the
/// `method` string, whether `params` is present, the `params.name` string
/// and the `params.arguments.search_depth` string.
#[derive(Debug, Clone)]
pub struct McpToolCallFields {
    pub method: Option<String>,
    pub has_params: bool,
    pub tool_name: Option<String>,
    pub search_depth: Option<String>,
}

/// The view of the fields.
pub open spec fn tool_call_fields_view(
    f: McpToolCallFields,
) -> (Option<Seq<char>>, bool, Option<Seq<char>>, Option<Seq<char>>) {
    (opt_view(f.method), f.has_params, opt_view(f.tool_name), opt_view(f.search_depth))
}

/// The billing members of a request body: `method` and `params.name` and
/// `params.arguments.search_depth` as strings (`None` where missing or not a
/// string), and whether `params` is present at all.
pub open spec fn tool_call_fields_of(
    body: Json,
) -> (Option<Seq<char>>, bool, Option<Seq<char>>, Option<Seq<char>>) {
    let params = json_member(Some(body), "params"@);
    (
        json_text(json_member(Some(body), "method"@)),
        params is Some,
        json_text(json_member(params, "name"@)),
        json_text(json_member(json_member(params, "arguments"@), "search_depth"@)),
    )
}

/// Reads the billing members of a parsed request body.
pub fn tool_call_fields(body: &Json) -> (f: McpToolCallFields)
    ensures
        tool_call_fields_view(f) == tool_call_fields_of(*body),
{
    let params = member(Some(body), "params");
    let arguments = member(params, "arguments");
    McpToolCallFields {
        method: text_of(member(Some(body), "method")),
        has_params: params.is_some(),
        tool_name: text_of(member(params, "name")),
        search_depth: text_of(member(arguments, "search_depth")),
    }
}

/// `c` with ASCII upper case turned to lower case (`char::to_ascii_lowercase`).
pub open spec fn ascii_lower(c: char) -> char {
    if 'A' <= c && c <= 'Z' { ((c as int) + 32) as char } else { c }
}

/// `s` with ASCII upper case turned to lower case.
pub open spec fn ascii_lower_seq(s: Seq<char>) -> Seq<char> {
    s.map_values(|c: char| ascii_lower(c))
}

/// `s` with every `_` replaced by `-`.
pub open spec fn underscores_to_hyphens(s: Seq<char>) -> Seq<char> {
    s.map_values(|c: char| if c == '_' { '-' } else { c })
}

/// A tool name as the billing compares it: trimmed, lower case, with
/// hyphens for underscores.
pub open spec fn normalized_tool_name(name: Seq<char>) -> Seq<char> {
    underscores_to_hyphens(ascii_lower_seq(trim_seq(name)))
}

/// The credits a request with these fields owes: a `tools/call` of
/// `tavily-search` (in any case, with `_` or `-`) costs 2 credits at the
/// `advanced` search depth (in any case) and 1 otherwise; anything else owes
/// nothing.
pub open spec fn search_credits_of(
    f: (Option<Seq<char>>, bool, Option<Seq<char>>, Option<Seq<char>>),
) -> Option<i64> {
    if f.0 != Some("tools/call"@) || !f.1 {
        None
    } else {
        match f.2 {
            None => None,
            Some(name) => if normalized_tool_name(name) != "tavily-search"@ {
                None
            } else {
                let depth = match f.3 { Some(d) => d, None => Seq::empty() };
                if ascii_lower_seq(depth) == ascii_lower_seq("advanced"@) { Some(2i64) } else { Some(1i64) }
            },
        }
    }
}

/// `c` in ASCII lower case.
pub fn ascii_lower_char(c: char) -> (r: char)
    ensures
        r == ascii_lower(c),
{
    if 'A' <= c && c <= 'Z' {
        let b: u8 = c as u8;
        (b + 32u8) as char
    } else {
        c
    }
}

/// The characters `v[from..to]` in lower case and with hyphens for
/// underscores when `hyphenate`.
fn lowered(v: &Vec<char>, from: usize, to: usize, hyphenate: bool) -> (r: Vec<char>)
    requires
        from <= to <= v@.len(),
    ensures
        hyphenate ==> r@ == underscores_to_hyphens(ascii_lower_seq(v@.subrange(from as int, to as int))),
        !hyphenate ==> r@ == ascii_lower_seq(v@.subrange(from as int, to as int)),
{
    let mut r: Vec<char> = Vec::new();
    let mut i: usize = from;
    while i < to
        invariant
            from <= i <= to <= v@.len(),
            r@.len() == i - from,
            forall|k: int| 0 <= k < i - from ==> #[trigger] r@[k] == (if hyphenate && ascii_lower(v@[from + k]) == '_' {
                '-'
            } else {
                ascii_lower(v@[from + k])
            }),
        decreases to - i,
    {
        let mut c = ascii_lower_char(v[i]);
        if hyphenate && c == '_' {
            c = '-';
        }
        r.push(c);
        i = i + 1;
    }
    proof {
        if hyphenate {
            assert(r@ =~= underscores_to_hyphens(ascii_lower_seq(v@.subrange(from as int, to as int))));
        } else {
            assert(r@ =~= ascii_lower_seq(v@.subrange(from as int, to as int)));
        }
    }
    r
}

fn chars_equal(a: &Vec<char>, b: &Vec<char>) -> (r: bool)
    ensures
        r == (a@ == b@),
{
    if a.len() != b.len() {
        return false;
    }
    let mut i: usize = 0;
    while i < a.len()
        invariant
            a@.len() == b@.len(),
            i <= a@.len(),
            forall|k: int| 0 <= k < i ==> a@[k] == b@[k],
        decreases a@.len() - i,
    {
        if a[i] != b[i] {
            return false;
        }
        i = i + 1;
    }
    proof {
        assert(a@ =~= b@);
    }
    true
}

/// The credits owed by a request with these fields; see `search_credits_of`.
pub fn search_credits_from_fields(fields: &McpToolCallFields) -> (r: Option<i64>)
    ensures
        r == search_credits_of(tool_call_fields_view(*fields)),
{
    let is_call = match &fields.method {
        Some(m) => str_eq(m.as_str(), "tools/call"),
        None => false,
    };
    if !is_call || !fields.has_params {
        return None;
    }
    let name = match &fields.tool_name {
        Some(n) => n,
        None => return None,
    };
    let v = chars_of(name.as_str());
    let (a, b) = trimmed_bounds(&v, 0, v.len());
    proof {
        assert(v@.subrange(0, v@.len() as int) =~= name@);
    }
    let normalized = lowered(&v, a, b, true);
    let expected = chars_of("tavily-search");
    if !chars_equal(&normalized, &expected) {
        return None;
    }
    let depth: Vec<char> = match &fields.search_depth {
        Some(d) => chars_of(d.as_str()),
        None => Vec::new(),
    };
    let depth_lower = lowered(&depth, 0, depth.len(), false);
    let advanced = chars_of("advanced");
    let advanced_lower = lowered(&advanced, 0, advanced.len(), false);
    proof {
        assert(depth@.subrange(0, depth@.len() as int) =~= depth@);
        assert(advanced@.subrange(0, advanced@.len() as int) =~= advanced@);
        assert(fields.search_depth is None ==> depth@ =~= Seq::<char>::empty());
    }
    if chars_equal(&depth_lower, &advanced_lower) {
        Some(2)
    } else {
        Some(1)
    }
}

/// The search credits owed by a request body that was parsed (or not) as
/// JSON: nothing for a body that is not JSON.
pub fn expected_search_credits_from_json(parsed: &Option<Json>) -> (r: Option<i64>)
    ensures
        r == (match *parsed {
            Some(body) => search_credits_of(tool_call_fields_of(body)),
            None => None,
        }),
{
    match parsed {
        Some(body) => search_credits_from_fields(&tool_call_fields(body)),
        None => None,
    }
}

/// The search credits a logged MCP request body owes, or `None` when it is
/// not a billable search call or not JSON.
pub fn expected_search_credits_from_request_body(bytes: &[u8]) -> (r: Option<i64>)
    ensures
        r == (match parsed_json(bytes@) {
            Some(body) => search_credits_of(tool_call_fields_of(body)),
            None => None,
        }),
{
    let parsed = parse_json(bytes);
    expected_search_credits_from_json(&parsed)
}

/// A logged search that was served but never billed.
#[derive(Debug, Clone)]
pub struct RepairCandidate {
    pub id: i64,
    pub auth_token_id: String,
    pub created_at: i64,
    pub credits: i64,
}

/// A logged request as the repair reads it: id, token, time and body.
#[derive(Debug, Clone)]
pub struct RepairLogRow {
    pub id: i64,
    pub auth_token_id: String,
    pub created_at: i64,
    pub request_body: Vec<u8>,
}

/// The report of a repair run.
#[derive(Debug)]
pub struct RepairReport {
    pub dry_run: bool,
    pub from_ts: i64,
    pub to_ts: i64,
    pub token_id: Option<String>,
    pub candidate_count: usize,
    pub affected_token_count: usize,
    pub total_credits: i64,
    pub repaired_log_ids: Vec<i64>,
    pub monthly_rebase: Option<serde_json::Value>,
}

/// The rows that are billable searches, in order, each with its credits.
pub open spec fn billable_rows(rows: Seq<RepairLogRow>) -> Seq<(i64, Seq<char>, i64, i64)>
    decreases rows.len(),
{
    if rows.len() == 0 {
        Seq::empty()
    } else {
        let before = billable_rows(rows.drop_last());
        let row = rows.last();
        match parsed_json(row.request_body@) {
            Some(body) => match search_credits_of(tool_call_fields_of(body)) {
                Some(c) => before.push((row.id, row.auth_token_id@, row.created_at, c)),
                None => before,
            },
            None => before,
        }
    }
}

/// The view of candidates.
pub open spec fn candidate_views(c: Seq<RepairCandidate>) -> Seq<(i64, Seq<char>, i64, i64)> {
    c.map_values(|x: RepairCandidate| (x.id, x.auth_token_id@, x.created_at, x.credits))
}

/// The total credits owed by candidates.
pub open spec fn total_credits_of(c: Seq<RepairCandidate>) -> int
    decreases c.len(),
{
    if c.len() == 0 { 0 } else { total_credits_of(c.drop_last()) + c.last().credits }
}

/// The tokens that candidates bill.
pub open spec fn affected_tokens_of(c: Seq<RepairCandidate>) -> Set<Seq<char>> {
    c.map_values(|x: RepairCandidate| x.auth_token_id@).to_set()
}

/// The candidates among logged rows: the rows whose body is a billable
/// search, each with the credits it owes; other rows are skipped.
pub fn repair_candidates_from_rows(rows: &Vec<RepairLogRow>) -> (c: Vec<RepairCandidate>)
    ensures
        candidate_views(c@) == billable_rows(rows@),
{
    let mut c: Vec<RepairCandidate> = Vec::new();
    let mut i: usize = 0;
    while i < rows.len()
        invariant
            i <= rows@.len(),
            candidate_views(c@) == billable_rows(rows@.subrange(0, i as int)),
        decreases rows@.len() - i,
    {
        let row = &rows[i];
        proof {
            assert(rows@.subrange(0, i + 1).drop_last() =~= rows@.subrange(0, i as int));
            assert(rows@.subrange(0, i + 1).last() == rows@[i as int]);
        }
        let ghost before = candidate_views(c@);
        match expected_search_credits_from_request_body(row.request_body.as_slice()) {
            Some(credits) => {
                c.push(RepairCandidate {
                    id: row.id,
                    auth_token_id: row.auth_token_id.clone(),
                    created_at: row.created_at,
                    credits,
                });
                proof {
                    assert(candidate_views(c@) =~= before.push((row.id, row.auth_token_id@, row.created_at, credits)));
                }
            },
            None => {},
        }
        i = i + 1;
    }
    proof {
        assert(rows@.subrange(0, rows@.len() as int) =~= rows@);
    }
    c
}

/// The ids of the candidates whose billing update changed exactly one row.
pub fn repaired_log_ids(candidates: &Vec<RepairCandidate>, rows_affected: &Vec<u64>) -> (ids: Vec<i64>)
    requires
        rows_affected@.len() == candidates@.len(),
    ensures
        ids@ == candidates@.zip_with(rows_affected@).filter(|p: (RepairCandidate, u64)| p.1 == 1)
            .map_values(|p: (RepairCandidate, u64)| p.0.id),
{
    let ghost all = candidates@.zip_with(rows_affected@);
    let ghost keep = |p: (RepairCandidate, u64)| p.1 == 1;
    let ghost id_of = |p: (RepairCandidate, u64)| p.0.id;
    let mut ids: Vec<i64> = Vec::new();
    let mut i: usize = 0;
    while i < candidates.len()
        invariant
            i <= candidates@.len(),
            rows_affected@.len() == candidates@.len(),
            all == candidates@.zip_with(rows_affected@),
            keep == (|p: (RepairCandidate, u64)| p.1 == 1),
            id_of == (|p: (RepairCandidate, u64)| p.0.id),
            ids@ == all.subrange(0, i as int).filter(keep).map_values(id_of),
        decreases candidates@.len() - i,
    {
        proof {
            assert(all.subrange(0, i + 1) =~= all.subrange(0, i as int).push(all[i as int]));
            all.subrange(0, i as int).lemma_filter_push(all[i as int], keep);
        }
        if rows_affected[i] == 1 {
            ids.push(candidates[i].id);
            proof {
                assert(ids@ =~= all.subrange(0, i + 1).filter(keep).map_values(id_of));
            }
        } else {
            proof {
                assert(ids@ =~= all.subrange(0, i + 1).filter(keep).map_values(id_of));
            }
        }
        i = i + 1;
    }
    proof {
        assert(all.subrange(0, candidates@.len() as int) =~= all);
    }
    ids
}

/// The report of a run over `candidates`: how many there are, how many
/// distinct tokens they bill and how many credits they owe.
pub fn build_report(
    dry_run: bool,
    from_ts: i64,
    to_ts: i64,
    token_id: Option<String>,
    candidates: &Vec<RepairCandidate>,
    repaired_log_ids: Vec<i64>,
    monthly_rebase: Option<serde_json::Value>,
) -> (r: RepairReport)
    requires
        forall|k: int| 0 <= k <= candidates@.len() ==>
            i64::MIN <= #[trigger] total_credits_of(candidates@.subrange(0, k)) <= i64::MAX,
    ensures
        r.dry_run == dry_run,
        r.from_ts == from_ts,
        r.to_ts == to_ts,
        opt_view(r.token_id) == opt_view(token_id),
        r.candidate_count == candidates@.len(),
        r.affected_token_count == affected_tokens_of(candidates@).len(),
        r.total_credits == total_credits_of(candidates@),
        r.repaired_log_ids@ == repaired_log_ids@,
        r.monthly_rebase == monthly_rebase,
{
    let mut tokens: Vec<String> = Vec::new();
    let mut total: i64 = 0;
    let mut i: usize = 0;
    while i < candidates.len()
        invariant
            i <= candidates@.len(),
            forall|k: int| 0 <= k <= candidates@.len() ==>
                i64::MIN <= #[trigger] total_credits_of(candidates@.subrange(0, k)) <= i64::MAX,
            total == total_credits_of(candidates@.subrange(0, i as int)),
            tokens@.map_values(|s: String| s@).no_duplicates(),
            tokens@.map_values(|s: String| s@).to_set()
                == affected_tokens_of(candidates@.subrange(0, i as int)),
        decreases candidates@.len() - i,
    {
        let c = &candidates[i];
        let ghost prefix = candidates@.subrange(0, i as int);
        let ghost next = candidates@.subrange(0, i + 1);
        proof {
            assert(next.drop_last() =~= prefix);
            assert(next.last() == c);
            assert(i64::MIN <= total_credits_of(next) <= i64::MAX);
        }
        total = total + c.credits;
        let mut seen = false;
        let mut j: usize = 0;
        while j < tokens.len()
            invariant
                j <= tokens@.len(),
                seen == tokens@.map_values(|s: String| s@).subrange(0, j as int).contains(c.auth_token_id@),
            decreases tokens@.len() - j,
        {
            proof {
                let tv = tokens@.map_values(|s: String| s@);
                assert(tv.subrange(0, j + 1) =~= tv.subrange(0, j as int).push(tv[j as int]));
                broadcast use vstd::seq_lib::lemma_seq_contains_after_push;
            }
            if str_eq(tokens[j].as_str(), c.auth_token_id.as_str()) {
                seen = true;
            }
            j = j + 1;
        }
        let ghost tv_before = tokens@.map_values(|s: String| s@);
        proof {
            assert(tv_before.subrange(0, tokens@.len() as int) =~= tv_before);
            assert(next.map_values(|x: RepairCandidate| x.auth_token_id@) =~= prefix.map_values(|x: RepairCandidate| x.auth_token_id@).push(c.auth_token_id@));
            prefix.map_values(|x: RepairCandidate| x.auth_token_id@).lemma_push_to_set_commute(c.auth_token_id@);
        }
        if !seen {
            tokens.push(c.auth_token_id.clone());
            proof {
                let tv = tokens@.map_values(|s: String| s@);
                assert(tv =~= tv_before.push(c.auth_token_id@));
                tv_before.lemma_push_to_set_commute(c.auth_token_id@);
                assert forall|a: int, b: int| 0 <= a < tv.len() && 0 <= b < tv.len() && a != b
                    implies tv[a] != tv[b] by {
                    if a == tv_before.len() {
                        assert(tv_before[b] == tv[b]);
                    } else if b == tv_before.len() {
                        assert(tv_before[a] == tv[a]);
                    } else {
                        assert(tv_before[a] == tv[a] && tv_before[b] == tv[b]);
                    }
                }
            }
        } else {
            proof {
                assert(tv_before.to_set().insert(c.auth_token_id@) =~= tv_before.to_set());
            }
        }
        i = i + 1;
    }
    proof {
        assert(candidates@.subrange(0, candidates@.len() as int) =~= candidates@);
        tokens@.map_values(|s: String| s@).unique_seq_to_set();
    }
    RepairReport {
        dry_run,
        from_ts,
        to_ts,
        token_id,
        candidate_count: candidates.len(),
        affected_token_count: tokens.len(),
        total_credits: total,
        repaired_log_ids,
        monthly_rebase,
    }
}


/// A repair window is accepted when it does not end before it starts.
pub fn validate_repair_window(from_ts: i64, to_ts: i64) -> (r: Result<(), String>)
    ensures
        r is Ok <==> from_ts <= to_ts,
        r matches Err(m) ==> m@ == "--from-ts must be less than or equal to --to-ts"@,
{
    if from_ts > to_ts {
        Err(String::from_str("--from-ts must be less than or equal to --to-ts"))
    } else {
        Ok(())
    }
}

} // verus!
