//! The shared knowledge base and its search tool: approved entries whose
//! text holds the query, ignoring case.

use crate::config::{lowercase, to_lowercase};
use crate::domain::ToolError;
use crate::json::{text_field, text_field_of, u64_field, u64_field_of, JsonNumber, JsonValue};
use crate::tools::{invalid_input, ToolAction, ToolContext};
use vstd::prelude::*;

verus! {

/// Where an entry of the knowledge base stands in review.
#[derive(Debug, Clone, Copy, PartialEq, Eq, Structural)]
pub enum KnowledgeValidationStatus {
    Candidate,
    Approved,
    Rejected,
}

/// One entry of the shared knowledge base.
#[derive(Debug)]
pub struct SharedKnowledgeEntry {
    pub content: String,
    pub validation_status: KnowledgeValidationStatus,
}

/// Knowledge shared by all agents.
#[derive(Debug)]
pub struct SharedKnowledgeBase {
    pub entries: Vec<SharedKnowledgeEntry>,
}

impl SharedKnowledgeBase {
    /// An empty knowledge base.
    pub fn new() -> (k: Self)
        ensures
            k.entries@.len() == 0,
    {
        SharedKnowledgeBase { entries: Vec::new() }
    }
}

/// `hay` holds `needle` as a contiguous piece.
pub open spec fn holds_piece(hay: Seq<char>, needle: Seq<char>) -> bool {
    exists|i: int| 0 <= i && i + needle.len() <= hay.len() && #[trigger] hay.subrange(i, i + needle.len()) == needle
}

/// The entry is approved and holds the lower-cased query in its lower-cased text.
pub open spec fn matches_query(e: SharedKnowledgeEntry, query: Seq<char>) -> bool {
    e.validation_status == KnowledgeValidationStatus::Approved && holds_piece(
        lowercase(e.content@),
        lowercase(query),
    )
}

/// The texts of the matching entries, in order.
pub open spec fn matching(entries: Seq<SharedKnowledgeEntry>, query: Seq<char>) -> Seq<Seq<char>>
    decreases entries.len(),
{
    if entries.len() == 0 {
        Seq::empty()
    } else {
        let rest = matching(entries.drop_last(), query);
        if matches_query(entries.last(), query) {
            rest.push(entries.last().content@)
        } else {
            rest
        }
    }
}

/// Whether `hay` holds `needle` as a contiguous piece.
fn find_piece(hay: &Vec<char>, needle: &Vec<char>) -> (r: bool)
    ensures
        r == holds_piece(hay@, needle@),
{
    let n = needle.len();
    let h = hay.len();
    if n > h {
        return false;
    }
    let mut i: usize = 0;
    while i <= h - n
        invariant
            n == needle@.len(),
            h == hay@.len(),
            n <= h,
            i <= h - n + 1,
            forall|k: int| 0 <= k < i ==> #[trigger] hay@.subrange(k, k + n) != needle@,
        decreases h - i,
    {
        let mut j: usize = 0;
        let mut same = true;
        while j < n
            invariant
                n == needle@.len(),
                h == hay@.len(),
                i + n <= h,
                j <= n,
                same == forall|m: int| 0 <= m < j ==> hay@[i + m] == needle@[m],
            decreases n - j,
        {
            if hay[i + j] != needle[j] {
                same = false;
            }
            j = j + 1;
        }
        if same {
            assert(hay@.subrange(i as int, i + n) =~= needle@);
            return true;
        }
        proof {
            assert(hay@.subrange(i as int, i + n) != needle@) by {
                let m = choose|m: int| 0 <= m < n && hay@[i + m] != needle@[m];
                assert(hay@.subrange(i as int, i + n)[m] == hay@[i + m]);
            }
        }
        i = i + 1;
    }
    proof {
        if holds_piece(hay@, needle@) {
            let k = choose|k: int| 0 <= k && k + n <= h && #[trigger] hay@.subrange(k, k + n) == needle@;
            assert(k < i);
        }
    }
    false
}

/// The answer to a search: the query, the matching texts and their count,
/// as the object `{count, query, results}`.
pub open spec fn search_answer(v: JsonValue, query: Seq<char>, results: Seq<Seq<char>>) -> bool {
    v matches JsonValue::Object(fields) && fields.len() == 3 && fields[0].0@ == "count"@ && (
    fields[0].1 matches JsonValue::Number(n) && n.as_u64 == Some(results.len() as u64)) && fields[1].0@
        == "query"@ && (fields[1].1 matches JsonValue::Str(q) && q@ == query) && fields[2].0@
        == "results"@ && (fields[2].1 matches JsonValue::Array(items) && items.len() == results.len()
        && forall|k: int| 0 <= k < results.len() ==> (#[trigger] items[k] matches JsonValue::Str(s) && s@ == results[k]))
}

/// Searches the shared knowledge base.
pub struct KnowledgeSearchTool;

impl KnowledgeSearchTool {
    pub fn name(&self) -> (r: &'static str)
        ensures
            r@ == "knowledge_search"@,
    {
        "knowledge_search"
    }

    /// Reads `query` (required) and `limit` (default 3) and answers with the
    /// first `limit` approved entries whose text holds the query, ignoring
    /// case.
    pub fn execute(&self, input: &JsonValue, knowledge: &SharedKnowledgeBase, _ctx: &ToolContext) -> (r: Result<ToolAction, ToolError>)
        ensures
            match text_field(*input, "query"@) {
                None => invalid_input(r, "missing 'query' parameter"@),
                Some(q) => {
                    let limit = match u64_field(*input, "limit"@) {
                        Some(l) => l as usize,
                        None => 3usize,
                    };
                    let all = matching(knowledge.entries@, q);
                    let found = if all.len() <= limit {
                        all
                    } else {
                        all.take(limit as int)
                    };
                    r matches Ok(ToolAction::Direct(v)) && search_answer(v, q, found)
                },
            },
    {
        let query = match text_field_of(input, "query") {
            Some(q) => q,
            None => {
                return Err(ToolError::InvalidInput("missing 'query' parameter".to_owned()));
            },
        };
        let limit: usize = match u64_field_of(input, "limit") {
            Some(l) => l as usize,
            None => 3,
        };
        let needle = crate::text::chars_of(to_lowercase(query.as_str()).as_str());
        let mut results: Vec<JsonValue> = Vec::new();
        let ghost mut found: Seq<Seq<char>> = Seq::empty();
        let n = knowledge.entries.len();
        let mut i: usize = 0;
        while i < n && results.len() < limit
            invariant
                n == knowledge.entries@.len(),
                i <= n,
                needle@ == lowercase(query@),
                found == matching(knowledge.entries@.take(i as int), query@),
                results@.len() == found.len(),
                results@.len() <= limit,
                forall|k: int| 0 <= k < found.len() ==> (#[trigger] results@[k] matches JsonValue::Str(s) && s@ == found[k]),
            decreases n - i,
        {
            let ghost prefix = knowledge.entries@.take(i + 1);
            assert(prefix.drop_last() =~= knowledge.entries@.take(i as int));
            assert(prefix.last() == knowledge.entries@[i as int]);
            let e = &knowledge.entries[i];
            if e.validation_status == KnowledgeValidationStatus::Approved {
                let hay = crate::text::chars_of(to_lowercase(e.content.as_str()).as_str());
                if find_piece(&hay, &needle) {
                    results.push(JsonValue::Str(e.content.clone()));
                    proof {
                        found = found.push(e.content@);
                    }
                }
            }
            i = i + 1;
        }
        proof {
            let all = matching(knowledge.entries@, query@);
            lemma_matching_prefix(knowledge.entries@, query@, i as int);
            if results@.len() < limit {
                assert(knowledge.entries@.take(n as int) =~= knowledge.entries@);
                assert(i == n);
            }
        }
        let count = results.len();
        let fields: Vec<(String, JsonValue)> = vec![
            ("count".to_owned(), JsonValue::Number(JsonNumber { as_u64: Some(count as u64), as_i64: Some(count as i64) })),
            ("query".to_owned(), JsonValue::Str(query)),
            ("results".to_owned(), JsonValue::Array(results)),
        ];
        Ok(ToolAction::Direct(JsonValue::Object(fields)))
    }
}

/// The matches of a prefix are a prefix of the matches, and taking as many
/// matches as a prefix has gives that prefix's matches.
proof fn lemma_matching_prefix(entries: Seq<SharedKnowledgeEntry>, query: Seq<char>, i: int)
    requires
        0 <= i <= entries.len(),
    ensures
        matching(entries.take(i), query).len() <= matching(entries, query).len(),
        matching(entries, query).take(matching(entries.take(i), query).len() as int) == matching(
            entries.take(i),
            query,
        ),
    decreases entries.len(),
{
    if i == entries.len() {
        assert(entries.take(i) =~= entries);
        assert(matching(entries, query).take(matching(entries, query).len() as int) =~= matching(entries, query));
    } else {
        lemma_matching_prefix(entries.drop_last(), query, i);
        assert(entries.drop_last().take(i) =~= entries.take(i));
        let m = matching(entries.drop_last(), query);
        let p = matching(entries.take(i), query);
        if matches_query(entries.last(), query) {
            assert(m.push(entries.last().content@).take(p.len() as int) =~= m.take(p.len() as int));
        }
    }
}

} // verus!
