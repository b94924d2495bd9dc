//! Checkpoint store: serialization of the engine's complete internal state
//! into a self-describing opaque blob, and its exact inverse.
//!
//! The blob is tagged and versioned: one format-version byte, one algorithm
//! tag byte, then the state's words encoded eight little-endian bytes each.
//! Loading an empty blob yields "no prior state" rather than an error, so the
//! first step of a resumable run starts fresh; a blob of a mismatched version
//! or algorithm, or of the wrong shape, is rejected rather than misread.

use crate::codec::{
    decode, decoded, encode, encoded, lemma_codec_round_trip, lemma_decoded_inverse,
    lemma_encoded_len,
};
use crate::engine::{BfgsModel, BfgsState, CoreModel, CoreState, SolverState, StateModel};
use vstd::prelude::*;

verus! {

/// Version byte of the blob format this library writes.
pub const FORMAT_VERSION: u8 = 1;

/// Algorithm tag of a steepest-descent state.
pub const TAG_STEEPEST_DESCENT: u8 = 1;

/// Algorithm tag of a quasi-Newton state.
pub const TAG_BFGS: u8 = 2;

/// Failure modes of loading a checkpoint blob.
#[derive(Clone, Copy, Debug, PartialEq, Eq, Structural)]
pub enum CheckpointError {
    /// The blob was written under another format version.
    BadVersion,
    /// The blob's algorithm tag names no algorithm this library runs.
    BadTag,
    /// The blob does not have the shape of a serialized state.
    Malformed,
}

/// The word a termination flag is stored as.
pub open spec fn flag_word(b: bool) -> u64 {
    if b {
        1
    } else {
        0
    }
}

/// The algorithm tag byte of a state.
pub open spec fn tag_of_model(m: StateModel) -> u8 {
    match m {
        StateModel::SteepestDescent { .. } => TAG_STEEPEST_DESCENT,
        StateModel::Bfgs { .. } => TAG_BFGS,
    }
}

/// The six header words every serialized state starts with: iteration
/// counter, iteration budget, termination flag, dimension, current cost,
/// best cost.
pub open spec fn head_words(c: CoreModel) -> Seq<u64> {
    seq![c.iter, c.max_iters, flag_word(c.terminated), c.param.len() as u64, c.cost, c.best_cost]
}

/// The word sequence a state is serialized as.
pub open spec fn words_of_model(m: StateModel) -> Seq<u64> {
    match m {
        StateModel::SteepestDescent { common } => head_words(common) + common.param
            + common.best_param,
        StateModel::Bfgs { common, extra } => head_words(common) + seq![
            extra.tol_cost,
            extra.tol_grad,
        ] + common.param + common.best_param + extra.grad + extra.inv_hessian,
    }
}

/// The blob a state is serialized as: version byte, algorithm tag byte, then
/// the state's words, eight little-endian bytes each.
pub open spec fn blob_of_model(m: StateModel) -> Seq<u8> {
    seq![FORMAT_VERSION, tag_of_model(m)] + encoded(words_of_model(m))
}

/// Reads a state back from its words, under the given algorithm tag.
/// Yields `Malformed` exactly when the words do not have the shape that the
/// tag demands, or record an impossible state (a termination flag that is
/// neither zero nor one, or an unterminated state with no budget left).
pub open spec fn parse_words(tag: u8, w: Seq<u64>) -> Result<StateModel, CheckpointError> {
    if w.len() < 6 {
        Err(CheckpointError::Malformed)
    } else if w[2] != 0 && w[2] != 1 {
        Err(CheckpointError::Malformed)
    } else if w[2] == 0 && !(w[0] < w[1]) {
        Err(CheckpointError::Malformed)
    } else {
        let n = w[3] as int;
        let common = CoreModel {
            iter: w[0],
            max_iters: w[1],
            terminated: w[2] == 1,
            cost: w[4],
            best_cost: w[5],
            param: Seq::empty(),
            best_param: Seq::empty(),
        };
        if tag == TAG_STEEPEST_DESCENT {
            if w.len() != 6 + 2 * n {
                Err(CheckpointError::Malformed)
            } else {
                Ok(
                    StateModel::SteepestDescent {
                        common: CoreModel {
                            param: w.subrange(6, 6 + n),
                            best_param: w.subrange(6 + n, 6 + 2 * n),
                            ..common
                        },
                    },
                )
            }
        } else {
            if w.len() < 8 || w.len() != 8 + 3 * n + n * n {
                Err(CheckpointError::Malformed)
            } else {
                Ok(
                    StateModel::Bfgs {
                        common: CoreModel {
                            param: w.subrange(8, 8 + n),
                            best_param: w.subrange(8 + n, 8 + 2 * n),
                            ..common
                        },
                        extra: BfgsModel {
                            tol_cost: w[6],
                            tol_grad: w[7],
                            grad: w.subrange(8 + 2 * n, 8 + 3 * n),
                            inv_hessian: w.subrange(8 + 3 * n, 8 + 3 * n + n * n),
                        },
                    },
                )
            }
        }
    }
}

/// Reads a state back from a blob. An empty blob is "no prior state"; a
/// nonempty one must carry the known version byte, a known algorithm tag,
/// and a whole number of eight-byte words that `parse_words` accepts.
pub open spec fn parse(b: Seq<u8>) -> Result<Option<StateModel>, CheckpointError> {
    if b.len() == 0 {
        Ok(None)
    } else if b.len() < 2 {
        Err(CheckpointError::Malformed)
    } else if b[0] != FORMAT_VERSION {
        Err(CheckpointError::BadVersion)
    } else if b[1] != TAG_STEEPEST_DESCENT && b[1] != TAG_BFGS {
        Err(CheckpointError::BadTag)
    } else if (b.len() - 2) % 8 != 0 {
        Err(CheckpointError::Malformed)
    } else {
        match parse_words(b[1], decoded(b.subrange(2, b.len() as int))) {
            Ok(m) => Ok(Some(m)),
            Err(e) => Err(e),
        }
    }
}

/// Serialization round trip at the word level: the words a well-formed state
/// writes read back as exactly that state.
pub proof fn lemma_words_round_trip(m: StateModel)
    requires
        m.wf(),
    ensures
        parse_words(tag_of_model(m), words_of_model(m)) == Ok::<StateModel, CheckpointError>(m),
{
    let w = words_of_model(m);
    let c = m.common();
    let n = c.param.len() as int;
    match m {
        StateModel::SteepestDescent { common } => {
            assert(w.len() == 6 + 2 * n);
            assert(w[3] == n as u64);
            assert(w.subrange(6, 6 + n) =~= common.param);
            assert(w.subrange(6 + n, 6 + 2 * n) =~= common.best_param);
            assert(flag_word(common.terminated) == 1 <==> common.terminated);
            let r = parse_words(tag_of_model(m), w);
            assert(r is Ok);
            assert(r->Ok_0 =~= m);
        },
        StateModel::Bfgs { common, extra } => {
            assert(w.len() == 8 + 3 * n + n * n);
            assert(w[3] == n as u64);
            assert(w.subrange(8, 8 + n) =~= common.param);
            assert(w.subrange(8 + n, 8 + 2 * n) =~= common.best_param);
            assert(w.subrange(8 + 2 * n, 8 + 3 * n) =~= extra.grad);
            assert(w.subrange(8 + 3 * n, 8 + 3 * n + n * n) =~= extra.inv_hessian);
            assert(flag_word(common.terminated) == 1 <==> common.terminated);
            let r = parse_words(tag_of_model(m), w);
            assert(r is Ok);
            assert(r->Ok_0 =~= m);
        },
    }
}

/// Word-level completeness: whatever words read back as a state are exactly
/// the words that state writes.
pub proof fn lemma_parse_words_complete(tag: u8, w: Seq<u64>)
    requires
        tag == TAG_STEEPEST_DESCENT || tag == TAG_BFGS,
        parse_words(tag, w) is Ok,
    ensures
        tag_of_model(parse_words(tag, w)->Ok_0) == tag,
        words_of_model(parse_words(tag, w)->Ok_0) == w,
{
    let m = parse_words(tag, w)->Ok_0;
    let n = w[3] as int;
    if tag == TAG_STEEPEST_DESCENT {
        assert(m.common().param.len() == n);
        assert(flag_word(m.common().terminated) == w[2]);
        assert(words_of_model(m) =~= w);
    } else {
        assert(m.common().param.len() == n);
        assert(flag_word(m.common().terminated) == w[2]);
        assert(words_of_model(m) =~= w);
    }
}

/// Blob-level completeness: whatever blob loads as a state is exactly the
/// blob that state saves as — the store accepts nothing it would not itself
/// write.
pub proof fn lemma_checkpoint_complete(b: Seq<u8>)
    requires
        parse(b) matches Ok(opt) && opt is Some,
    ensures
        blob_of_model(parse(b)->Ok_0->Some_0) == b,
{
    let m = parse(b)->Ok_0->Some_0;
    let rest = b.subrange(2, b.len() as int);
    lemma_parse_words_complete(b[1], decoded(rest));
    lemma_decoded_inverse(rest);
    assert(encoded(words_of_model(m)) == rest);
    assert(blob_of_model(m) =~= b);
}

/// Checkpoint round trip: the blob a well-formed state is saved as loads
/// back as exactly that state.
pub proof fn lemma_checkpoint_round_trip(m: StateModel)
    requires
        m.wf(),
    ensures
        parse(blob_of_model(m)) == Ok::<Option<StateModel>, CheckpointError>(Some(m)),
{
    let w = words_of_model(m);
    let b = blob_of_model(m);
    lemma_encoded_len(w);
    assert(b.len() == 2 + 8 * w.len());
    assert(b[0] == FORMAT_VERSION);
    assert(b[1] == tag_of_model(m));
    assert((b.len() - 2) % 8 == 0) by {
        assert(b.len() - 2 == 8 * w.len());
        assert((8 * w.len()) % 8 == 0) by (nonlinear_arith);
    }
    assert(b.subrange(2, b.len() as int) =~= encoded(w));
    lemma_codec_round_trip(w);
    lemma_words_round_trip(m);
}

/// Copies `count` words of `v` starting at `start`.
fn copy_words(v: &Vec<u64>, start: usize, count: usize) -> (r: Vec<u64>)
    requires
        start + count <= v@.len(),
    ensures
        r@ == v@.subrange(start as int, start + count),
{
    let total: usize = v.len();
    assert(v@.len() == total);
    let mut out: Vec<u64> = Vec::new();
    let mut i: usize = 0;
    while i < count
        invariant
            i <= count,
            start + count <= v@.len(),
            v@.len() <= usize::MAX,
            out@ == v@.subrange(start as int, start + i),
        decreases count - i,
    {
        out.push(v[start + i]);
        proof {
            assert(v@.subrange(start as int, start + i).push(v@[start + i]) =~= v@.subrange(
                start as int,
                start + i + 1,
            ));
        }
        i = i + 1;
    }
    out
}

/// Serializes the engine's full internal state into a self-describing blob.
pub fn save(state: &SolverState) -> (blob: Vec<u8>)
    ensures
        blob@ == blob_of_model(state.model()),
{
    let mut words: Vec<u64> = Vec::new();
    let tag: u8 = match state {
        SolverState::SteepestDescent { .. } => TAG_STEEPEST_DESCENT,
        SolverState::Bfgs { .. } => TAG_BFGS,
    };
    match state {
        SolverState::SteepestDescent { common } => {
            words.push(common.iter);
            words.push(common.max_iters);
            words.push(if common.terminated {
                1
            } else {
                0
            });
            words.push(common.param.len() as u64);
            words.push(common.cost);
            words.push(common.best_cost);
            let mut part: Vec<u64> = copy_words(&common.param, 0, common.param.len());
            words.append(&mut part);
            let mut part: Vec<u64> = copy_words(&common.best_param, 0, common.best_param.len());
            words.append(&mut part);
            proof {
                assert(common.param@.subrange(0, common.param@.len() as int) =~= common.param@);
                assert(common.best_param@.subrange(0, common.best_param@.len() as int)
                    =~= common.best_param@);
                assert(words@ =~= words_of_model(state.model()));
            }
        },
        SolverState::Bfgs { common, extra } => {
            words.push(common.iter);
            words.push(common.max_iters);
            words.push(if common.terminated {
                1
            } else {
                0
            });
            words.push(common.param.len() as u64);
            words.push(common.cost);
            words.push(common.best_cost);
            words.push(extra.tol_cost);
            words.push(extra.tol_grad);
            let mut part: Vec<u64> = copy_words(&common.param, 0, common.param.len());
            words.append(&mut part);
            let mut part: Vec<u64> = copy_words(&common.best_param, 0, common.best_param.len());
            words.append(&mut part);
            let mut part: Vec<u64> = copy_words(&extra.grad, 0, extra.grad.len());
            words.append(&mut part);
            let mut part: Vec<u64> = copy_words(&extra.inv_hessian, 0, extra.inv_hessian.len());
            words.append(&mut part);
            proof {
                assert(common.param@.subrange(0, common.param@.len() as int) =~= common.param@);
                assert(common.best_param@.subrange(0, common.best_param@.len() as int)
                    =~= common.best_param@);
                assert(extra.grad@.subrange(0, extra.grad@.len() as int) =~= extra.grad@);
                assert(extra.inv_hessian@.subrange(0, extra.inv_hessian@.len() as int)
                    =~= extra.inv_hessian@);
                assert(words@ =~= words_of_model(state.model()));
            }
        },
    }
    let mut blob: Vec<u8> = Vec::new();
    blob.push(FORMAT_VERSION);
    blob.push(tag);
    let mut payload: Vec<u8> = encode(&words);
    blob.append(&mut payload);
    proof {
        assert(blob@ =~= blob_of_model(state.model()));
    }
    blob
}

/// Deserializes a blob back into the engine state it was saved from: the
/// exact inverse of [`save`]. An empty blob yields no prior state; a blob
/// that no state writes is rejected with the error `parse` assigns it.
pub fn load(blob: &Vec<u8>) -> (r: Result<Option<SolverState>, CheckpointError>)
    ensures
        match r {
            Ok(opt) => match opt {
                None => parse(blob@) == Ok::<Option<StateModel>, CheckpointError>(None),
                Some(st) => {
                    &&& st.wf()
                    &&& parse(blob@) matches Ok(pm) && pm matches Some(m) && m == st.model()
                    &&& blob_of_model(st.model()) == blob@
                },
            },
            Err(e) => parse(blob@) matches Err(pe) && pe == e,
        },
{
    if blob.len() == 0 {
        return Ok(None);
    }
    if blob.len() < 2 {
        return Err(CheckpointError::Malformed);
    }
    if blob[0] != FORMAT_VERSION {
        return Err(CheckpointError::BadVersion);
    }
    let tag: u8 = blob[1];
    if tag != TAG_STEEPEST_DESCENT && tag != TAG_BFGS {
        return Err(CheckpointError::BadTag);
    }
    let mut bytes: Vec<u8> = Vec::new();
    let mut i: usize = 2;
    while i < blob.len()
        invariant
            2 <= i <= blob@.len(),
            bytes@ == blob@.subrange(2, i as int),
        decreases blob@.len() - i,
    {
        bytes.push(blob[i]);
        proof {
            assert(blob@.subrange(2, i as int).push(blob@[i as int]) =~= blob@.subrange(
                2,
                i + 1 as int,
            ));
        }
        i = i + 1;
    }
    proof {
        assert(bytes@ =~= blob@.subrange(2, blob@.len() as int));
    }
    if bytes.len() % 8 != 0 {
        return Err(CheckpointError::Malformed);
    }
    let words: Vec<u64> = match decode(&bytes) {
        Ok(v) => v,
        Err(_) => { return Err(CheckpointError::Malformed); },
    };
    let ghost w = decoded(blob@.subrange(2, blob@.len() as int));
    assert(words@ == w);
    proof {
        vstd::arithmetic::div_mod::lemma_fundamental_div_mod(bytes@.len() as int, 8);
        assert(8 * words@.len() == bytes@.len());
    }
    if words.len() < 6 {
        return Err(CheckpointError::Malformed);
    }
    if words[2] != 0 && words[2] != 1 {
        return Err(CheckpointError::Malformed);
    }
    if words[2] == 0 && !(words[0] < words[1]) {
        return Err(CheckpointError::Malformed);
    }
    let n64: u64 = words[3];
    if n64 > words.len() as u64 {
        // A dimension beyond the word count cannot match the blob's shape.
        proof {
            let ni = n64 as int;
            assert(ni * ni >= 0) by (nonlinear_arith);
            assert(parse_words(tag, w) == Err::<StateModel, CheckpointError>(
                CheckpointError::Malformed,
            ));
        }
        return Err(CheckpointError::Malformed);
    }
    let n: usize = n64 as usize;
    proof {
        assert((w[3] as int) * (w[3] as int) >= 0) by (nonlinear_arith);
    }
    let common = CoreState {
        iter: words[0],
        max_iters: words[1],
        terminated: words[2] == 1,
        cost: words[4],
        best_cost: words[5],
        param: Vec::new(),
        best_param: Vec::new(),
    };
    if tag == TAG_STEEPEST_DESCENT {
        // The shape demands 6 + 2n words; compare without overflowing.
        let sd_rest: usize = words.len() - 6;
        if sd_rest < n || sd_rest - n != n {
            return Err(CheckpointError::Malformed);
        }
        assert(words@.len() == 6 + 2 * n);
        let st = SolverState::SteepestDescent {
            common: CoreState {
                param: copy_words(&words, 6, n),
                best_param: copy_words(&words, 6 + n, n),
                ..common
            },
        };
        proof {
            assert(parse_words(tag, w) matches Ok(m) && m =~= st.model());
            assert(st.wf());
            lemma_checkpoint_complete(blob@);
        }
        Ok(Some(st))
    } else {
        if words.len() < 8 {
            return Err(CheckpointError::Malformed);
        }
        // The shape demands 8 + 3n + n*n words; compare without overflowing.
        let rest: usize = words.len() - 8;
        if rest < n {
            assert(parse_words(tag, w) == Err::<StateModel, CheckpointError>(CheckpointError::Malformed));
            return Err(CheckpointError::Malformed);
        }
        if rest - n < n {
            assert(parse_words(tag, w) == Err::<StateModel, CheckpointError>(CheckpointError::Malformed));
            return Err(CheckpointError::Malformed);
        }
        if rest - n - n < n {
            assert(parse_words(tag, w) == Err::<StateModel, CheckpointError>(CheckpointError::Malformed));
            return Err(CheckpointError::Malformed);
        }
        let square: usize = rest - n - n - n;
        // `square` must equal n * n; division attests it without overflow.
        if n == 0 {
            if square != 0 {
                assert(parse_words(tag, w) == Err::<StateModel, CheckpointError>(
                    CheckpointError::Malformed,
                ));
                return Err(CheckpointError::Malformed);
            }
        } else {
            if square / n != n || square % n != 0 {
                proof {
                    vstd::arithmetic::div_mod::lemma_fundamental_div_mod(square as int, n as int);
                    assert(parse_words(tag, w) == Err::<StateModel, CheckpointError>(
                        CheckpointError::Malformed,
                    )) by {
                        assert(square != n * n) by (nonlinear_arith)
                            requires
                                n > 0,
                                square / n != n || square % n != 0,
                                square == n * (square / n) + (square % n),
                                0 <= square % n < n,
                        ;
                    }
                }
                return Err(CheckpointError::Malformed);
            }
            proof {
                vstd::arithmetic::div_mod::lemma_fundamental_div_mod(square as int, n as int);
                assert(square == n * n) by (nonlinear_arith)
                    requires
                        n > 0,
                        square / n == n,
                        square % n == 0,
                        square == n * (square / n) + (square % n),
                ;
            }
        }
        assert(words@.len() == 8 + 3 * n + n * n);
        let st = SolverState::Bfgs {
            common: CoreState {
                param: copy_words(&words, 8, n),
                best_param: copy_words(&words, 8 + n, n),
                ..common
            },
            extra: BfgsState {
                tol_cost: words[6],
                tol_grad: words[7],
                grad: copy_words(&words, 8 + n + n, n),
                inv_hessian: copy_words(&words, 8 + n + n + n, square),
            },
        };
        proof {
            assert(parse_words(tag, w) matches Ok(m) && m =~= st.model());
            assert(st.wf());
            lemma_checkpoint_complete(blob@);
        }
        Ok(Some(st))
    }
}

/// Holds the most recently saved checkpoint blob, standing between runs the
/// way the engine's own state stands within one.
pub struct Checkpointer {
    /// The stored blob; empty when no state has been saved yet.
    pub blob: Vec<u8>,
}

impl Checkpointer {
    /// Serializes and stores the engine's state, replacing the blob wholesale.
    pub fn save(&mut self, state: &SolverState)
        ensures
            final(self).blob@ == blob_of_model(state.model()),
    {
        self.blob = save(state);
    }

    /// Deserializes the stored blob; yields no state when none was saved yet.
    pub fn load(&self) -> (r: Result<Option<SolverState>, CheckpointError>)
        ensures
            match r {
                Ok(opt) => match opt {
                    None => parse(self.blob@) == Ok::<Option<StateModel>, CheckpointError>(None),
                    Some(st) => {
                        &&& st.wf()
                        &&& parse(self.blob@) matches Ok(pm) && pm matches Some(m) && m
                            == st.model()
                        &&& blob_of_model(st.model()) == self.blob@
                    },
                },
                Err(e) => parse(self.blob@) matches Err(pe) && pe == e,
            },
    {
        load(&self.blob)
    }
}

} // verus!
