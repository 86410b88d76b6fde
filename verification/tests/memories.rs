use daydream_memory::memory::{found, render_recalled, MemoryType, Recalled, WriteRequest};
use daydream_memory::moment::{LocalMoment, Moment};
use daydream_memory::node_memory;
use daydream_memory::opening::{get_or_create_mem, OpeningAction, OpeningEvent, OpeningStage};
use daydream_memory::vector_memory::{
    consolidate_memory, consolidation_due, recall_node_memory_in_range, recall_vector_memory,
    write_memory_with_type, write_vector_memory, ConsolidateCall, MemoryRegistry, NodeMemory,
    RangeCall, RecallCall,
};

fn at(secs: i64) -> Moment {
    Moment::new(secs, 0).unwrap()
}

fn recalled(content: &str) -> Recalled {
    Recalled {
        confidence_label: "likely".to_string(),
        confidence: "0.70".to_string(),
        content: content.to_string(),
        created_at: LocalMoment::new(at(1_700_000_000), 0).unwrap(),
    }
}

#[test]
fn a_recalled_memory_is_a_line() {
    assert_eq!(
        render_recalled(&recalled("喜欢猫")),
        "[confidence = likely (0.70)] 喜欢猫 [时间：23/11/14，22:13]"
    );
}

#[test]
fn node_memory_settings() {
    let memory = node_memory::NodeMemory::new("小灵");
    assert_eq!(memory.location, vec!["game_data", "memories", "小灵.db"]);
    assert_eq!(memory.settings.provider, "ollama");
    assert_eq!(memory.settings.model, "mxbai-embed-large:latest");
    assert_eq!(memory.settings.dimensions, 1024);
    assert_eq!(memory.settings.fts_weight as f64 / 100.0, 0.30);
    assert_eq!(memory.settings.embedding_weight as f64 / 100.0, 0.50);
    assert_eq!(memory.settings.actr_weight as f64 / 100.0, 0.20);
    assert_eq!(node_memory::new_memory("小灵"), memory);
}

#[test]
fn vector_memory_settings() {
    let memory = NodeMemory::new("a/b");
    assert_eq!(memory.location, vec!["game_data", "memories", "ab.db"]);
    assert_eq!(memory.settings.provider, "ollama");
    assert_eq!(memory.settings.model, "mxbai-embed-large:latest");
    assert_eq!(memory.settings.dimensions, 1024);
    assert_eq!(memory.settings.fts_weight as f64 / 100.0, 0.35);
    assert_eq!(memory.settings.embedding_weight as f64 / 100.0, 0.45);
    assert_eq!(memory.settings.actr_weight as f64 / 100.0, 0.20);
}

#[test]
fn weights_make_a_whole() {
    for settings in [node_memory::NodeMemory::new("a").settings, NodeMemory::new("a").settings] {
        assert_eq!(settings.fts_weight + settings.embedding_weight + settings.actr_weight, 100);
    }
}

#[test]
fn node_memory_asks_for_twice_as_many_and_keeps_the_first() {
    let memory = node_memory::NodeMemory::new("a");
    let request = memory.recall(2, "q".to_string(), Some(vec!["c".to_string()]));
    assert_eq!(request.limit, 4);
    assert_eq!(request.query, "q");
    assert_eq!(request.context, Some(vec!["c".to_string()]));
    assert_eq!(request.consolidate_days.map(f64::from_bits), Some(0.01));
    let outcome = Some(vec![recalled("1"), recalled("2"), recalled("3")]);
    let lines = memory.recalled(2, &outcome);
    assert_eq!(
        lines,
        vec![
            "[confidence = likely (0.70)] 1 [时间：23/11/14，22:13]",
            "[confidence = likely (0.70)] 2 [时间：23/11/14，22:13]",
        ]
    );
    assert_eq!(memory.recalled(9, &outcome).len(), 3);
    assert!(memory.recalled(0, &outcome).is_empty());
    assert!(memory.recalled(9, &None).is_empty());
}

#[test]
fn node_memory_writes_events() {
    let memory = node_memory::NodeMemory::new("a");
    assert_eq!(
        memory.write("s".to_string(), Some(0.5f64.to_bits())),
        WriteRequest {
            summary: "s".to_string(),
            memory_type: MemoryType::Episodic,
            importance: Some(0.5f64.to_bits()),
            namespace: None,
        }
    );
}

#[test]
fn vector_memory_asks_and_keeps_all() {
    let memory = NodeMemory::new("a");
    let request = memory.recall(usize::MAX, "q".to_string(), None);
    assert_eq!(request.limit, usize::MAX);
    assert_eq!(request.consolidate_days, None);
    let lines = memory.recalled(&Some(vec![recalled("1"), recalled("2")]));
    assert_eq!(lines.len(), 2);
    assert_eq!(lines[1], "[confidence = likely (0.70)] 2 [时间：23/11/14，22:13]");
    assert!(memory.recalled(&None).is_empty());
}

#[test]
fn vector_memory_writes_what_it_is_given() {
    let memory = NodeMemory::new("a");
    let request = memory.write("s".to_string(), MemoryType::Causal, None, Some("n".to_string()));
    assert_eq!(request.memory_type, MemoryType::Causal);
    assert_eq!(request.namespace, Some("n".to_string()));
    assert_eq!(request.importance, None);
    assert_eq!(request.summary, "s");
}

#[test]
fn failed_searches_find_nothing() {
    assert_eq!(found(Some(vec![1, 2])), vec![1, 2]);
    assert_eq!(found::<u8>(None), Vec::<u8>::new());
}

#[test]
fn nearest_records_come_first() {
    let created = vec![at(100), at(10), at(60), at(40), at(50)];
    let order = NodeMemory::recall_in_range(&created, &at(50), 10);
    assert_eq!(order, vec![4, 2, 3, 1, 0]);
    assert_eq!(NodeMemory::recall_in_range(&created, &at(50), 2), vec![4, 2]);
    assert!(NodeMemory::recall_in_range(&created, &at(50), 0).is_empty());
    assert!(NodeMemory::recall_in_range(&Vec::new(), &at(50), 3).is_empty());
}

#[test]
fn nearest_records_are_those_of_a_stable_sort() {
    let mut created = Vec::new();
    let mut seed: u64 = 7;
    for _ in 0..60 {
        seed = seed.wrapping_mul(6364136223846793005).wrapping_add(1442695040888963407);
        created.push(at((seed >> 33) as i64 % 40));
    }
    let time = at(20);
    let mut sorted: Vec<usize> = (0..created.len()).collect();
    sorted.sort_by_key(|i| (created[*i].secs() - 20).abs());
    for n in 0..70 {
        let mut expected = sorted.clone();
        expected.truncate(n);
        assert_eq!(NodeMemory::recall_in_range(&created, &time, n), expected);
    }
}

#[test]
fn every_role_has_one_place() {
    let mut registry = MemoryRegistry::new();
    assert_eq!(registry.lookup("a"), None);
    assert_eq!(registry.register("a"), 0);
    assert_eq!(registry.register("b"), 1);
    assert_eq!(registry.register("a"), 0);
    assert_eq!(registry.lookup("a"), Some(0));
    assert_eq!(registry.lookup("b"), Some(1));
    assert_eq!(registry.lookup("c"), None);
}

#[test]
fn a_memory_settles_after_a_tenth_of_a_day() {
    let now = at(1_000_000);
    assert_eq!(consolidation_due(None, &now), None);
    for gap in [-10, 0, 8_639, 8_640, 8_641, 86_400, 500_000] {
        let due = consolidation_due(Some(at(1_000_000 - gap)), &now);
        assert_eq!(due.is_some(), gap as f64 / 86400.0 > 0.1);
        if let Some(secs) = due {
            assert_eq!(secs, gap);
        }
    }
}

#[test]
fn calls_hold_what_they_are_given() {
    assert_eq!(
        recall_vector_memory("a", 3, "q".to_string(), None),
        RecallCall {
            display_name: "a".to_string(),
            max_nodes: 3,
            query: "q".to_string(),
            context: None,
        }
    );
    let event = write_vector_memory("a", "s".to_string(), None, None);
    assert_eq!(event.display_name, "a");
    assert_eq!(event.request.memory_type, MemoryType::Episodic);
    let opinion = write_memory_with_type("a", "s".to_string(), MemoryType::Opinion, None, None);
    assert_eq!(opinion.request.memory_type, MemoryType::Opinion);
    assert_eq!(
        consolidate_memory("a", 0.2f64.to_bits()),
        ConsolidateCall { display_name: "a".to_string(), days: 0.2f64.to_bits() }
    );
}

#[test]
fn a_look_goes_to_the_given_time_or_the_latest() {
    assert_eq!(
        recall_node_memory_in_range("a", Some(at(5)), 4, Some("n".to_string())),
        RangeCall::Nearest {
            display_name: "a".to_string(),
            time: at(5),
            max_nodes: 4,
            namespace: Some("n".to_string()),
        }
    );
    assert_eq!(
        recall_node_memory_in_range("a", None, 4, None),
        RangeCall::Recent { display_name: "a".to_string(), max_nodes: 4, namespace: None }
    );
}

#[test]
fn an_open_memory_is_used_as_it_is() {
    let mut registry = MemoryRegistry::new();
    registry.register("b");
    registry.register("a");
    let (run, action) = get_or_create_mem(&registry, "a");
    assert_eq!(action, OpeningAction::Ready { slot: 1 });
    assert_eq!(run.stage(), OpeningStage::Over);
}

#[test]
fn a_new_memory_is_created_looked_at_and_settled() {
    let mut registry = MemoryRegistry::new();
    registry.register("b");
    let (mut run, action) = get_or_create_mem(&registry, "a");
    assert_eq!(action, OpeningAction::Create(NodeMemory::new("a")));
    assert_eq!(registry.lookup("a"), None);
    let action = run.step(&mut registry, OpeningEvent::Created);
    assert_eq!(action, OpeningAction::Look { slot: 1, max_nodes: 1 });
    assert_eq!(registry.lookup("a"), Some(1));
    assert_eq!(registry.lookup("b"), Some(0));
    let looked = OpeningEvent::Looked { latest: Some(at(0)), now: at(8_641) };
    let action = run.step(&mut registry, looked);
    assert_eq!(action, OpeningAction::Consolidate { slot: 1, secs: 8_641 });
    assert_eq!(run.stage(), OpeningStage::Consolidating);
    let action = run.step(&mut registry, OpeningEvent::Consolidated);
    assert_eq!(action, OpeningAction::Ready { slot: 1 });
    assert_eq!(run.stage(), OpeningStage::Over);
    assert_eq!(get_or_create_mem(&registry, "a").1, OpeningAction::Ready { slot: 1 });
}

#[test]
fn a_memory_that_is_fresh_or_empty_does_not_settle() {
    for latest in [None, Some(at(0)), Some(at(9_000))] {
        let mut registry = MemoryRegistry::new();
        let (mut run, _) = get_or_create_mem(&registry, "a");
        run.step(&mut registry, OpeningEvent::Created);
        let action = run.step(&mut registry, OpeningEvent::Looked { latest, now: at(8_640) });
        assert_eq!(action, OpeningAction::Ready { slot: 0 });
    }
}
