use lumio_executor::executor::{execute_transactions_parallel, NeverInterrupted};
use lumio_executor::sequential::{execute_sequentially, BlockOutput};
use lumio_executor::sharding::{partition, LocalExecutorClient, ShardedBlockExecutor};
use lumio_executor::state::StateStore;
use lumio_executor::vm::{Instruction, Script, ScriptVm};

struct Generator {
    state: u64,
}

impl Generator {
    fn next(&mut self) -> u64 {
        self.state = self.state.wrapping_mul(6364136223846793005).wrapping_add(1442695040888963407);
        self.state >> 33
    }

    fn below(&mut self, bound: u64) -> u64 {
        self.next() % bound
    }

    fn instruction(&mut self) -> Instruction {
        let key = self.below(4);
        let field = 100 + self.below(2);
        match self.below(16) {
            0..=3 => Instruction::Load(key),
            4..=6 => Instruction::Add(self.below(5)),
            7..=10 => Instruction::Store(key),
            11 => Instruction::AddDelta(field, self.below(7) as i64 - 2),
            12 => Instruction::TryAdd(field, self.below(9) as i64 - 4, 6 + self.below(6)),
            13 => Instruction::LoadField(field),
            14 => match self.below(12) {
                0 => Instruction::SkipRest,
                1 => Instruction::Abort(self.below(3)),
                2 => Instruction::BreakInvariant,
                3 => Instruction::GiveUp,
                _ => Instruction::Add(1),
            },
            _ => Instruction::Load(key),
        }
    }

    fn block(&mut self) -> Vec<Script> {
        let len = self.below(13) as usize;
        (0..len)
            .map(|_| {
                let instructions = (0..self.below(7)).map(|_| self.instruction()).collect();
                Script { instructions, direct_write_set: self.below(40) == 0 }
            })
            .collect()
    }

    fn base(&mut self) -> Vec<(u64, u64)> {
        (0..self.below(4)).map(|_| (self.below(4), self.below(10))).collect()
    }
}

fn store(entries: &[(u64, u64)], field: u64) -> StateStore {
    let mut store = StateStore::new();
    for (key, value) in entries {
        store.set(*key, *value);
    }
    store.set_field(100, field);
    store
}

fn copy_of(block: &[Script]) -> Vec<Script> {
    block
        .iter()
        .map(|s| Script { instructions: s.instructions.clone(), direct_write_set: s.direct_write_set })
        .collect()
}

fn assert_same(what: &str, got: &(BlockOutput, StateStore), expected: &BlockOutput, state: &StateStore) {
    assert_eq!(got.0.outputs.len(), expected.outputs.len(), "{}", what);
    for i in 0..expected.outputs.len() {
        assert_eq!(got.0.outputs[i].writes, expected.outputs[i].writes, "{}", what);
        assert_eq!(got.0.outputs[i].deltas, expected.outputs[i].deltas, "{}", what);
    }
    assert_eq!(format!("{:?}", got.0.ending), format!("{:?}", expected.ending), "{}", what);
    for key in 0..4 {
        assert_eq!(got.1.get(key), state.get(key), "{}", what);
    }
    for field in 100..102 {
        assert_eq!(got.1.field(field), state.field(field), "{}", what);
    }
}

#[test]
fn every_way_of_executing_a_block_gives_what_sequential_execution_gives() {
    let mut generator = Generator { state: 0x5eed };
    let mut endings = std::collections::BTreeSet::new();
    for round in 0..400 {
        let block = generator.block();
        let entries = generator.base();
        let field = generator.below(8);
        let mut state = store(&entries, field);
        let expected = execute_sequentially(&ScriptVm {}, &block, &mut state);
        endings.insert(format!("{:?}", expected.ending).chars().take(12).collect::<String>());
        for width in [1usize, 2, 3, 5, 16] {
            let got = execute_transactions_parallel(
                ScriptVm {},
                copy_of(&block),
                store(&entries, field),
                width,
                None::<&NeverInterrupted>,
            );
            assert_same(&format!("block {} width {}", round, width), &got, &expected, &state);
        }
        for shards in [1usize, 2, 3, 4] {
            let keys: Vec<u64> = (0..block.len()).map(|_| generator.below(5)).collect();
            let got = ShardedBlockExecutor::new(shards, None).execute_block::<ScriptVm, LocalExecutorClient>(
                &LocalExecutorClient {},
                partition(copy_of(&block), &keys, shards),
                3,
                store(&entries, field),
            );
            assert_same(&format!("block {} shards {}", round, shards), &got, &expected, &state);
        }
    }
    // The blocks that were tried ended in every way in which a block can end by itself.
    assert!(endings.iter().any(|e| e.starts_with("Completed")));
    assert!(endings.iter().any(|e| e.starts_with("Truncated")));
    assert!(endings.iter().any(|e| e.starts_with("Failed")));
}
