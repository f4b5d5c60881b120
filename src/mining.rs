//! Search strategies: each looks for a proof value that makes a block's digest
//! start with a required prefix, and only the proof of the template varies.
use vstd::prelude::*;
use std::sync::atomic::{AtomicBool, Ordering};
use rayon::iter::{IntoParallelIterator, ParallelIterator};
use crate::block::{satisfies, Block, BlockView};

verus! {

/// `p` is the least proof at or above `start` that mines `b` for `prefix`.
pub open spec fn first_proof_from(b: BlockView, prefix: Seq<char>, start: u64, p: u64) -> bool {
    &&& start <= p
    &&& satisfies(b.with_proof(p), prefix)
    &&& forall|q: u64| start <= q < p ==> !satisfies(#[trigger] b.with_proof(q), prefix)
}

/// No proof at or above `start` mines `b` for `prefix`.
pub open spec fn none_from(b: BlockView, prefix: Seq<char>, start: u64) -> bool {
    forall|q: u64| start <= q ==> !satisfies(#[trigger] b.with_proof(q), prefix)
}

/// In a race among `workers` workers, worker `id` tests exactly the proofs
/// congruent to `id` modulo `workers`.
pub open spec fn worker_tests(id: u64, workers: u64, p: u64) -> bool {
    p % workers == id
}

/// What a racing worker does after one look at its current candidate.
#[derive(Debug, Clone, Copy, PartialEq, Eq)]
pub enum WorkerStep {
    /// The candidate failed; the proof was advanced and the worker goes on.
    Retry,
    /// The candidate is mined: the worker hands it in and ends.
    Report,
    /// Cancellation was observed, or the worker's proofs ran out: it ends
    /// without a result.
    Stop,
}

/// Relies on rayon's `find_first` over `0..=u64::MAX`: it returns the first
/// proof in ascending order for which the predicate holds, or `None` when it
/// holds for none.
#[verifier::external_body]
fn par_find_first_proof(block: &Block, prefix: &str) -> (r: Option<u64>)
    ensures
        r matches Some(p) ==> first_proof_from(block@, prefix@, 0, p),
        r is None ==> none_from(block@, prefix@, 0),
{
    (0..=u64::MAX).into_par_iter().find_first(|p| block.satisfies_with_proof(prefix, *p))
}

/// Relies on rayon's `find_any` over `0..=u64::MAX`: it returns some proof for
/// which the predicate holds, or `None` when it holds for none.
#[verifier::external_body]
fn par_find_any_proof(block: &Block, prefix: &str) -> (r: Option<u64>)
    ensures
        r matches Some(p) ==> satisfies(block@.with_proof(p), prefix@),
        r is None ==> none_from(block@, prefix@, 0),
{
    (0..=u64::MAX).into_par_iter().find_any(|p| block.satisfies_with_proof(prefix, *p))
}

proof fn lemma_same_class_gap(p: u64, q: u64, w: u64)
    requires
        w > 0,
        p <= q,
        q < p + w,
        q % w == p % w,
    ensures
        q == p,
{
    assert(q == w * (q / w) + q % w) by (nonlinear_arith)
        requires w > 0;
    assert(p == w * (p / w) + p % w) by (nonlinear_arith)
        requires w > 0;
    assert(q / w == p / w) by (nonlinear_arith)
        requires
            w > 0,
            p <= q,
            q < p + w,
            q == w * (q / w) + q % w,
            p == w * (p / w) + p % w,
            q % w == p % w,
            q % w < w,
    {
        if q / w > p / w {
            assert(w * (q / w) >= w * (p / w) + w);
        } else if q / w < p / w {
            assert(w * (q / w) + w <= w * (p / w));
        }
    }
}

proof fn lemma_class_advance(p: u64, w: u64)
    requires
        w > 0,
        p + w <= u64::MAX,
    ensures
        ((p + w) as u64) % w == p % w,
{
    vstd::arithmetic::div_mod::lemma_mod_add_multiples_vanish(p as int, w as int);
}

/// Two workers of one race never test the same proof, and every proof is
/// tested by the worker whose number is its residue.
pub proof fn lemma_workers_partition(workers: u64, i: u64, j: u64, p: u64)
    requires
        workers > 0,
        i < workers,
        j < workers,
        worker_tests(i, workers, p),
        worker_tests(j, workers, p),
    ensures
        i == j,
        worker_tests(p % workers, workers, p),
{
}

/// A search that starts from proof zero has at most one answer, so any two
/// strategies that return the least proof from zero return the same one.
pub proof fn lemma_first_proof_unique(b: BlockView, prefix: Seq<char>, start: u64, p: u64, q: u64)
    requires
        first_proof_from(b, prefix, start, p),
        first_proof_from(b, prefix, start, q),
    ensures
        p == q,
{
    if p < q {
        assert(!satisfies(b.with_proof(p), prefix));
    } else if q < p {
        assert(!satisfies(b.with_proof(q), prefix));
    }
}

/// The proof of the template does not matter to a search from zero: two
/// templates that differ only in their proof have the same answers.
pub proof fn lemma_template_proof_irrelevant(b: BlockView, proof: u64, prefix: Seq<char>, p: u64)
    ensures
        first_proof_from(b, prefix, 0, p) == first_proof_from(b.with_proof(proof), prefix, 0, p),
        none_from(b, prefix, 0) == none_from(b.with_proof(proof), prefix, 0),
{
    let c = b.with_proof(proof);
    assert forall|q: u64|
        #![trigger c.with_proof(q)]
        #![trigger b.with_proof(q)]
        c.with_proof(q) == b.with_proof(q) by {
        lemma_with_proof_twice(b, proof, q);
    }
    assert(satisfies(c.with_proof(p), prefix) == satisfies(b.with_proof(p), prefix));
}

proof fn lemma_with_proof_twice(b: BlockView, x: u64, y: u64)
    ensures
        b.with_proof(x).with_proof(y) == b.with_proof(y),
{
}

impl Block {
    /// Whether this block with its proof set to `proof` is mined for `prefix`.
    pub fn satisfies_with_proof(&self, prefix: &str, proof: u64) -> (r: bool)
        ensures
            r == satisfies(self@.with_proof(proof), prefix@),
    {
        self.with_proof(proof).is_mined(prefix)
    }

    /// Advances `block.proof` one by one from its current value until the
    /// block is mined, or until the proof reaches `u64::MAX`.
    fn search_upward(block: &mut Block, prefix: &str) -> (found: bool)
        ensures
            final(block)@ == old(block)@.with_proof(final(block).proof),
            found == satisfies(final(block)@, prefix@),
            found ==> first_proof_from(old(block)@, prefix@, old(block).proof, final(block).proof),
            !found ==> none_from(old(block)@, prefix@, old(block).proof),
    {
        let ghost start = block@;
        let ghost s0 = block.proof;
        let mut found = block.is_mined(prefix);
        while !found && block.proof < u64::MAX
            invariant
                block@ == start.with_proof(block.proof),
                s0 == start.proof,
                s0 <= block.proof,
                found == satisfies(block@, prefix@),
                forall|q: u64| s0 <= q < block.proof ==> !satisfies(#[trigger] start.with_proof(q), prefix@),
            decreases u64::MAX - block.proof,
        {
            block.proof = block.proof + 1;
            found = block.is_mined(prefix);
        }
        proof {
            if !found {
                assert forall|q: u64| s0 <= q implies !satisfies(#[trigger] start.with_proof(q), prefix@) by {
                    if q == block.proof {
                        assert(start.with_proof(q) == block@);
                    }
                }
            }
        }
        found
    }

    /// Mines `block` in place: the proof goes up by one from its current value
    /// until the block is mined. The proof stops at `u64::MAX` if none at or
    /// above the start mines the block.
    pub fn mine_single_threaded_mutably(block: &mut Block, prefix: &str)
        ensures
            final(block)@ == old(block)@.with_proof(final(block).proof),
            satisfies(final(block)@, prefix@)
                ==> first_proof_from(old(block)@, prefix@, old(block).proof, final(block).proof),
            !satisfies(final(block)@, prefix@) ==> none_from(old(block)@, prefix@, old(block).proof),
    {
        Self::search_upward(block, prefix);
    }

    /// The candidate with the least proof (counting from zero) that is mined
    /// for `prefix`, or `None` if no proof mines it.
    pub fn mine_with_iterator(block_candidate: &Block, prefix: &str) -> (r: Option<Block>)
        ensures
            r matches Some(b) ==> b@ == block_candidate@.with_proof(b.proof)
                && first_proof_from(block_candidate@, prefix@, 0, b.proof),
            r is None ==> none_from(block_candidate@, prefix@, 0),
    {
        let mut candidate = block_candidate.with_proof(0);
        let found = Self::search_upward(&mut candidate, prefix);
        proof {
            lemma_template_proof_irrelevant(block_candidate@, 0, prefix@, candidate.proof);
            lemma_with_proof_twice(block_candidate@, 0, candidate.proof);
        }
        if found {
            Some(candidate)
        } else {
            None
        }
    }

    /// As [`Block::mine_with_iterator`], with the hashing spread over threads:
    /// the least proof is still the one returned.
    pub fn mine_with_parallel_iterator_find_first(block_candidate: &Block, prefix: &str) -> (r: Option<Block>)
        ensures
            r matches Some(b) ==> b@ == block_candidate@.with_proof(b.proof)
                && first_proof_from(block_candidate@, prefix@, 0, b.proof),
            r is None ==> none_from(block_candidate@, prefix@, 0),
    {
        match par_find_first_proof(block_candidate, prefix) {
            Some(p) => Some(block_candidate.with_proof(p)),
            None => None,
        }
    }

    /// Some candidate that is mined for `prefix`, found by threads in
    /// parallel, not necessarily the one with the least proof; `None` if no
    /// proof mines it.
    pub fn mine_with_parallel_iterator_find_any(block_candidate: &Block, prefix: &str) -> (r: Option<Block>)
        ensures
            r matches Some(b) ==> b@ == block_candidate@.with_proof(b.proof)
                && satisfies(b@, prefix@),
            r is None ==> none_from(block_candidate@, prefix@, 0),
    {
        match par_find_any_proof(block_candidate, prefix) {
            Some(p) => Some(block_candidate.with_proof(p)),
            None => None,
        }
    }

    /// One step of a racing worker that holds `block` and strides by
    /// `workers`, given whether the race is still on.
    pub fn race_step(block: &mut Block, prefix: &str, workers: u64, keep_running: bool) -> (r: WorkerStep)
        requires
            workers > 0,
        ensures
            !keep_running ==> r == WorkerStep::Stop && final(block)@ == old(block)@,
            keep_running && satisfies(old(block)@, prefix@)
                ==> r == WorkerStep::Report && final(block)@ == old(block)@,
            keep_running && !satisfies(old(block)@, prefix@) && old(block).proof + workers <= u64::MAX
                ==> r == WorkerStep::Retry
                && final(block)@ == old(block)@.with_proof((old(block).proof + workers) as u64),
            keep_running && !satisfies(old(block)@, prefix@) && old(block).proof + workers > u64::MAX
                ==> r == WorkerStep::Stop && final(block)@ == old(block)@,
    {
        if !keep_running {
            WorkerStep::Stop
        } else if block.is_mined(prefix) {
            WorkerStep::Report
        } else if block.proof > u64::MAX - workers {
            WorkerStep::Stop
        } else {
            block.proof = block.proof + workers;
            WorkerStep::Retry
        }
    }

    /// The work of racing worker `worker_id` of `workers`: it tests the proofs
    /// congruent to its number, in ascending order, until one mines the block
    /// or `keep_running` is seen false. A returned block is mined, and is the
    /// least of this worker's proofs that mines it.
    pub fn race_worker(
        block_candidate: &Block,
        prefix: &str,
        worker_id: u64,
        workers: u64,
        keep_running: &AtomicBool,
    ) -> (r: Option<Block>)
        requires
            worker_id < workers,
        ensures
            r matches Some(b) ==> {
                &&& b@ == block_candidate@.with_proof(b.proof)
                &&& satisfies(b@, prefix@)
                &&& worker_tests(worker_id, workers, b.proof)
                &&& forall|q: u64|
                    q < b.proof && worker_tests(worker_id, workers, q)
                        ==> !satisfies(#[trigger] block_candidate@.with_proof(q), prefix@)
            },
    {
        let ghost start = block_candidate@;
        let mut block = block_candidate.with_proof(worker_id);
        proof {
            vstd::arithmetic::div_mod::lemma_small_mod(worker_id as nat, workers as nat);
            assert forall|q: u64| q < worker_id implies !worker_tests(worker_id, workers, q) by {
                vstd::arithmetic::div_mod::lemma_mod_decreases(q as nat, workers as nat);
            }
        }
        loop
            invariant
                workers > worker_id,
                start == block_candidate@,
                block@ == start.with_proof(block.proof),
                worker_tests(worker_id, workers, block.proof),
                forall|q: u64|
                    q < block.proof && worker_tests(worker_id, workers, q)
                        ==> !satisfies(#[trigger] start.with_proof(q), prefix@),
            decreases u64::MAX - block.proof,
        {
            let ghost before = block.proof;
            let on = keep_running.load(Ordering::SeqCst);
            match Self::race_step(&mut block, prefix, workers, on) {
                WorkerStep::Retry => {
                    proof {
                        lemma_class_advance(before, workers);
                        assert forall|q: u64|
                            q < block.proof && worker_tests(worker_id, workers, q) implies
                            !satisfies(#[trigger] start.with_proof(q), prefix@) by {
                            if q >= before {
                                lemma_same_class_gap(before, q, workers);
                            }
                        }
                    }
                },
                WorkerStep::Report => {
                    return Some(block);
                },
                WorkerStep::Stop => {
                    return None;
                },
            }
        }
    }
}

} // verus!
