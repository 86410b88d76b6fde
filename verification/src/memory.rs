//! What is asked of a role's long-term memory, and what its answers become.

use crate::moment::LocalMoment;
use crate::role_name::{sanitize_role_name, sanitized};
use crate::text::texts;
use vstd::prelude::*;

verus! {

/// What kind of thing a memory is.
#[derive(Clone, Copy, Debug, PartialEq, Eq, Structural)]
pub enum MemoryType {
    Factual,
    Episodic,
    Relational,
    Emotional,
    Procedural,
    Opinion,
    Causal,
}

/// How a memory embeds its texts and weighs what it finds. The weights are in hundredths.
#[derive(Debug, PartialEq, Eq)]
pub struct MemorySettings {
    pub provider: String,
    pub model: String,
    pub dimensions: usize,
    pub fts_weight: u32,
    pub embedding_weight: u32,
    pub actr_weight: u32,
}

/// The provider of embeddings.
pub const EMBEDDING_PROVIDER: &'static str = "ollama";

/// The embedding model.
pub const EMBEDDING_MODEL: &'static str = "mxbai-embed-large:latest";

/// The length of an embedding.
pub const EMBEDDING_DIMENSIONS: usize = 1024;

impl MemorySettings {
    /// The settings with the shared embedding and these weights.
    pub open spec fn weighs(self, fts: u32, embedding: u32, actr: u32) -> bool {
        &&& self.provider@ == EMBEDDING_PROVIDER@
        &&& self.model@ == EMBEDDING_MODEL@
        &&& self.dimensions == EMBEDDING_DIMENSIONS
        &&& self.fts_weight == fts
        &&& self.embedding_weight == embedding
        &&& self.actr_weight == actr
    }

    /// The settings with the shared embedding and these weights.
    pub fn new(fts: u32, embedding: u32, actr: u32) -> (settings: MemorySettings)
        ensures
            settings.weighs(fts, embedding, actr),
    {
        MemorySettings {
            provider: EMBEDDING_PROVIDER.to_string(),
            model: EMBEDDING_MODEL.to_string(),
            dimensions: EMBEDDING_DIMENSIONS,
            fts_weight: fts,
            embedding_weight: embedding,
            actr_weight: actr,
        }
    }
}

/// The name of the file that holds a role's memory.
pub open spec fn memory_file_name(display_name: Seq<char>) -> Seq<char> {
    sanitized(display_name) + ".db"@
}

/// Where a role's memory lies below the data directory, one component after another.
pub open spec fn memory_location(display_name: Seq<char>) -> Seq<Seq<char>> {
    seq!["game_data"@, "memories"@, memory_file_name(display_name)]
}

/// Where a role's memory lies below the data directory, one component after another.
pub fn locate_memory(display_name: &str) -> (components: Vec<String>)
    ensures
        texts(components@) == memory_location(display_name@),
{
    let mut components: Vec<String> = Vec::new();
    components.push("game_data".to_string());
    components.push("memories".to_string());
    components.push(sanitize_role_name(display_name).concat(".db"));
    assert(texts(components@) == memory_location(display_name@));
    components
}

/// Two roles share a file exactly where their filed names are the same.
pub proof fn files_differ_as_filed_names_do(a: Seq<char>, b: Seq<char>)
    ensures
        memory_location(a) == memory_location(b) <==> sanitized(a) == sanitized(b),
{
    if memory_location(a) == memory_location(b) {
        assert(memory_location(a)[2] == memory_location(b)[2]);
        let n = sanitized(a).len() as int;
        assert(memory_file_name(a).len() == memory_file_name(b).len());
        assert(memory_file_name(a).take(n) == sanitized(a));
        assert(memory_file_name(b).take(n) == sanitized(b));
    }
}

/// Where a path that is not valid UTF-8 leads instead.
pub const FALLBACK_PATH: &'static str = "debug.json";

/// The path to open: the memory's own, or the fallback where it is not valid UTF-8.
pub fn database_path(path: Option<String>) -> (opened: String)
    ensures
        opened@ == (match path {
            Some(p) => p@,
            None => FALLBACK_PATH@,
        }),
{
    match path {
        Some(path) => path,
        None => FALLBACK_PATH.to_string(),
    }
}

/// A text to be remembered. The importance is held as the bits of a double.
#[derive(Debug, PartialEq, Eq)]
pub struct WriteRequest {
    pub summary: String,
    pub memory_type: MemoryType,
    pub importance: Option<u64>,
    pub namespace: Option<String>,
}

/// The identifier of a text that was to be remembered: empty where that failed.
pub fn written_id(outcome: Option<String>) -> (id: String)
    ensures
        id@ == (match outcome {
            Some(given) => given@,
            None => Seq::empty(),
        }),
{
    match outcome {
        Some(id) => id,
        None => String::new(),
    }
}

/// A question to a memory. The memory is first consolidated by some days, held as the bits of a
/// double, where they are given.
#[derive(Debug, PartialEq, Eq)]
pub struct RecallRequest {
    pub consolidate_days: Option<u64>,
    pub query: String,
    pub limit: usize,
    pub context: Option<Vec<String>>,
}

/// A memory that answers a question. The confidence is held as a text with two decimals.
#[derive(Debug, PartialEq, Eq)]
pub struct Recalled {
    pub confidence_label: String,
    pub confidence: String,
    pub content: String,
    pub created_at: LocalMoment,
}

/// A recalled memory as a line of text.
pub open spec fn recall_line(recalled: Recalled) -> Seq<char> {
    "[confidence = "@ + recalled.confidence_label@ + " ("@ + recalled.confidence@ + ")] "@
        + recalled.content@ + " [时间："@ + recalled.created_at.spec_stamp() + "]"@
}

/// A recalled memory as a line of text.
pub fn render_recalled(recalled: &Recalled) -> (line: String)
    ensures
        line@ == recall_line(*recalled),
{
    let mut line: String = "[confidence = ".to_string();
    line.append(recalled.confidence_label.as_str());
    line.append(" (");
    line.append(recalled.confidence.as_str());
    line.append(")] ");
    line.append(recalled.content.as_str());
    line.append(" [时间：");
    line.append(recalled.created_at.stamp().as_str());
    line.append("]");
    line
}

/// Recalled memories as lines of text.
pub open spec fn recall_lines(recalled: Seq<Recalled>) -> Seq<Seq<char>> {
    recalled.map_values(|r: Recalled| recall_line(r))
}

/// The first `n` of the recalled memories as lines of text: all of them where there are fewer,
/// and none where the memory could not be asked.
pub open spec fn first_recall_lines(outcome: Option<Vec<Recalled>>, n: nat) -> Seq<Seq<char>> {
    match outcome {
        Some(recalled) => recall_lines(
            if n < recalled@.len() {
                recalled@.take(n as int)
            } else {
                recalled@
            },
        ),
        None => Seq::empty(),
    }
}

/// The first `n` of the recalled memories as lines of text.
pub fn render_first_recalled(outcome: &Option<Vec<Recalled>>, n: usize) -> (lines: Vec<String>)
    ensures
        texts(lines@) == first_recall_lines(*outcome, n as nat),
{
    let mut lines: Vec<String> = Vec::new();
    if let Some(recalled) = outcome {
        while lines.len() < n && lines.len() < recalled.len()
            invariant
                lines@.len() <= n,
                lines@.len() <= recalled@.len(),
                texts(lines@) == recall_lines(recalled@.take(lines@.len() as int)),
            decreases recalled.len() - lines.len(),
        {
            let ghost before = lines@;
            let line: String = render_recalled(&recalled[lines.len()]);
            lines.push(line);
            assert(texts(lines@) == texts(before).push(line@));
            assert(recalled@.take(lines@.len() as int) == recalled@.take(before.len() as int).push(
                recalled@[before.len() as int],
            ));
            assert(recall_lines(recalled@.take(lines@.len() as int)) == recall_lines(
                recalled@.take(before.len() as int),
            ).push(recall_line(recalled@[before.len() as int])));
        }
        assert(recalled@.take(recalled@.len() as int) == recalled@);
    }
    assert(texts(lines@) == first_recall_lines(*outcome, n as nat));
    lines
}

/// What was found, or nothing where the search failed.
pub fn found<T>(outcome: Option<Vec<T>>) -> (items: Vec<T>)
    ensures
        items@ == (match outcome {
            Some(items) => items@,
            None => Seq::empty(),
        }),
{
    match outcome {
        Some(items) => items,
        None => Vec::new(),
    }
}

/// The memories of all roles lie in one folder, each in a file that its role's filed name and
/// nothing else names.
pub proof fn memories_lie_in_one_folder(display_name: Seq<char>)
    ensures
        memory_location(display_name).len() == 3,
        memory_location(display_name)[0] == "game_data"@,
        memory_location(display_name)[1] == "memories"@,
        memory_location(display_name)[2] == sanitized(display_name) + ".db"@,
{
}

/// Settings with given weights have these weights, and the embedding that all memories share.
pub proof fn settings_hold_their_weights(
    settings: MemorySettings,
    fts: u32,
    embedding: u32,
    actr: u32,
)
    requires
        settings.weighs(fts, embedding, actr),
    ensures
        settings.fts_weight == fts,
        settings.embedding_weight == embedding,
        settings.actr_weight == actr,
        settings.provider@ == "ollama"@,
        settings.model@ == "mxbai-embed-large:latest"@,
        settings.dimensions == 1024,
{
}

/// A recalled memory is told with all that is known of it: how sure it is, in words and as a
/// number, what it says, and when it was made.
pub proof fn lines_tell_all_of_a_memory(recalled: Recalled)
    ensures
        recall_line(recalled) == seq![
            "[confidence = "@,
            recalled.confidence_label@,
            " ("@,
            recalled.confidence@,
            ")] "@,
            recalled.content@,
            " [时间："@,
            recalled.created_at.spec_stamp(),
            "]"@,
        ].flatten(),
{
    let parts = seq![
        "[confidence = "@,
        recalled.confidence_label@,
        " ("@,
        recalled.confidence@,
        ")] "@,
        recalled.content@,
        " [时间："@,
        recalled.created_at.spec_stamp(),
        "]"@,
    ];
    parts.lemma_flatten_and_flatten_alt_are_equivalent();
    assert(parts.take(9) == parts);
    assert forall|k: int| 0 < k <= 9 implies (#[trigger] parts.take(k)).flatten_alt()
        == parts.take(k - 1).flatten_alt() + parts[k - 1] by {
        assert(parts.take(k).drop_last() == parts.take(k - 1));
    }
    assert(parts.take(0).flatten_alt() == Seq::<char>::empty());
    assert(parts.take(1).flatten_alt() == parts[0]);
    assert(parts.take(2).flatten_alt() == parts[0] + parts[1]);
    assert(parts.take(3).flatten_alt() == parts[0] + parts[1] + parts[2]);
    assert(parts.take(4).flatten_alt() == parts[0] + parts[1] + parts[2] + parts[3]);
    assert(parts.take(5).flatten_alt() == parts[0] + parts[1] + parts[2] + parts[3] + parts[4]);
    assert(parts.take(6).flatten_alt() == parts[0] + parts[1] + parts[2] + parts[3] + parts[4]
        + parts[5]);
    assert(parts.take(7).flatten_alt() == parts[0] + parts[1] + parts[2] + parts[3] + parts[4]
        + parts[5] + parts[6]);
    assert(parts.take(8).flatten_alt() == parts[0] + parts[1] + parts[2] + parts[3] + parts[4]
        + parts[5] + parts[6] + parts[7]);
    assert(parts.take(9).flatten_alt() == parts[0] + parts[1] + parts[2] + parts[3] + parts[4]
        + parts[5] + parts[6] + parts[7] + parts[8]);
}

/// As many of the recalled memories are told as are asked for, and all where there are fewer:
/// the first ones, in order, each by its own line.
pub proof fn the_first_memories_are_told_in_order(recalled: Vec<Recalled>, n: nat)
    ensures
        first_recall_lines(Some(recalled), n).len() == if n < recalled@.len() {
            n
        } else {
            recalled@.len()
        },
        forall|k: int|
            0 <= k < n && k < recalled@.len() ==> #[trigger] first_recall_lines(
                Some(recalled),
                n,
            )[k] == recall_line(recalled@[k]),
        recall_lines(recalled@) == first_recall_lines(Some(recalled), recalled@.len()),
        first_recall_lines(None, n) == Seq::<Seq<char>>::empty(),
{
}

} // verus!
