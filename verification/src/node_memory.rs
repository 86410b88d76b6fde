//! A role's memory that settles a little before every question and answers with the best half of
//! what it finds.

use crate::memory::{
    first_recall_lines, locate_memory, memory_location, render_first_recalled, MemorySettings,
    MemoryType, RecallRequest, Recalled, WriteRequest,
};
use crate::text::texts;
use vstd::prelude::*;

verus! {

/// The weight of a match of words, in hundredths.
pub const FTS_WEIGHT: u32 = 30;

/// The weight of a match of embeddings, in hundredths.
pub const EMBEDDING_WEIGHT: u32 = 50;

/// The weight of how active a memory is, in hundredths.
pub const ACTR_WEIGHT: u32 = 20;

/// The days by which the memory is consolidated before a question: the bits of the double 0.01.
pub const SETTLING_DAYS: u64 = 0x3f84_7ae1_47ae_147b;

/// A role's memory: where it lies below the data directory, and its settings.
#[derive(Debug, PartialEq, Eq)]
pub struct NodeMemory {
    pub location: Vec<String>,
    pub settings: MemorySettings,
}

impl NodeMemory {
    /// The memory of the role with this name.
    pub fn new(display_name: &str) -> (memory: NodeMemory)
        ensures
            texts(memory.location@) == memory_location(display_name@),
            memory.settings.weighs(FTS_WEIGHT, EMBEDDING_WEIGHT, ACTR_WEIGHT),
    {
        NodeMemory {
            location: locate_memory(display_name),
            settings: MemorySettings::new(FTS_WEIGHT, EMBEDDING_WEIGHT, ACTR_WEIGHT),
        }
    }

    /// What is to be written to remember a piece of dialogue.
    pub fn write(&self, summary: String, importance: Option<u64>) -> (request: WriteRequest)
        ensures
            request.summary == summary,
            request.memory_type == MemoryType::Episodic,
            request.importance == importance,
            request.namespace is None,
    {
        WriteRequest { summary, memory_type: MemoryType::Episodic, importance, namespace: None }
    }

    /// What is to be asked to recall up to `max_nodes` memories: twice as many are looked for.
    pub fn recall(&self, max_nodes: usize, query: String, context: Option<Vec<String>>) -> (request:
        RecallRequest)
        requires
            2 * max_nodes <= usize::MAX,
        ensures
            request.consolidate_days == Some(SETTLING_DAYS),
            request.query == query,
            request.limit == 2 * max_nodes,
            request.context == context,
    {
        RecallRequest {
            consolidate_days: Some(SETTLING_DAYS),
            query,
            limit: max_nodes * 2,
            context,
        }
    }

    /// The lines for what was recalled: one for each of the first `max_nodes` memories, and none
    /// where the memory could not be asked.
    pub fn recalled(&self, max_nodes: usize, outcome: &Option<Vec<Recalled>>) -> (lines: Vec<
        String,
    >)
        ensures
            texts(lines@) == first_recall_lines(*outcome, max_nodes as nat),
            lines@.len() <= max_nodes,
    {
        let lines: Vec<String> = render_first_recalled(outcome, max_nodes);
        assert(lines@.len() == texts(lines@).len());
        lines
    }
}

/// The memory of the role with this name, ready to be shared.
pub fn new_memory(display_name: &str) -> (memory: NodeMemory)
    ensures
        texts(memory.location@) == memory_location(display_name@),
        memory.settings.weighs(FTS_WEIGHT, EMBEDDING_WEIGHT, ACTR_WEIGHT),
{
    NodeMemory::new(display_name)
}

} // verus!
