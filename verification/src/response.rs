//! The request and response shapes of the embedding endpoint, and the
//! order-preserving construction of a response from the computed vectors.
//!
//! The embedding payload itself is opaque to this module: the response is
//! built generically over it, so the ordering and indexing guarantees hold
//! whatever the vectors contain.

use vstd::prelude::*;

use crate::ServiceError;

verus! {

/// The body of an embedding request: which model to use, and the ordered
/// inputs, each to be embedded independently.
pub struct EmbeddingRequest {
    pub model: String,
    pub inputs: Vec<String>,
}

/// One embedded input: the computed vector, tagged with the zero-based
/// position of the input it belongs to.
pub struct Embedding<T> {
    pub object: &'static str,
    pub embedding: T,
    pub index: usize,
}

/// The body of a successful response: one embedding per input, in input
/// order.
pub struct EmbeddingResponse<T> {
    pub object: &'static str,
    pub data: Vec<Embedding<T>>,
    pub model: String,
}

/// Build the response for a computation that produced one vector per input,
/// in input order: the record at position `i` carries index `i` and the
/// `i`-th vector, whatever order the vectors were computed in internally.
pub fn build_response<T>(model: String, results: Vec<T>) -> (resp: EmbeddingResponse<T>)
    ensures
        resp.object@ == "list"@,
        resp.model == model,
        resp.data@.len() == results@.len(),
        forall|i: int|
            0 <= i < results@.len() ==> (#[trigger] resp.data@[i]).index == i
                && resp.data@[i].embedding == results@[i] && resp.data@[i].object@ == "embedding"@,
{
    let ghost all = results@;
    let mut rest = results;
    let mut data: Vec<Embedding<T>> = Vec::new();
    let mut i: usize = 0;
    while rest.len() > 0
        invariant
            i + rest@.len() == all.len(),
            i == data@.len(),
            rest@ == all.subrange(i as int, all.len() as int),
            forall|k: int|
                0 <= k < i ==> (#[trigger] data@[k]).index == k && data@[k].embedding == all[k]
                    && data@[k].object@ == "embedding"@,
        decreases rest@.len(),
    {
        let item = rest.remove(0);
        proof {
            assert(all.subrange(i as int, all.len() as int)[0] == all[i as int]);
        }
        data.push(Embedding { object: "embedding", embedding: item, index: i });
        i = data.len();
        proof {
            assert(rest@ =~= all.subrange(i as int, all.len() as int));
        }
    }
    EmbeddingResponse { object: "list", data, model }
}

impl ServiceError {
    /// The text of this error's response body.
    pub open spec fn spec_message(self) -> Seq<char> {
        match self {
            ServiceError::ConstructionFailed => "Could not construct a compute resource"@,
            ServiceError::ComputationFailed => "Could not embed input"@,
            ServiceError::SerializationFailed => "Could not encode the response"@,
        }
    }

    /// A human-readable description for the error response body.
    pub fn message(&self) -> (s: &'static str)
        ensures
            s@ == self.spec_message(),
    {
        match self {
            ServiceError::ConstructionFailed => "Could not construct a compute resource",
            ServiceError::ComputationFailed => "Could not embed input",
            ServiceError::SerializationFailed => "Could not encode the response",
        }
    }
}

/// What the caller is finally told: a successful computation whose response
/// body also encoded cleanly succeeds; a failed encoding becomes
/// `SerializationFailed`; any earlier failure passes through unchanged. No
/// partial result is ever exposed.
pub fn response_outcome(computed: Result<(), ServiceError>, encode_ok: bool) -> (r: Result<
    (),
    ServiceError,
>)
    ensures
        computed is Err ==> r == computed,
        computed is Ok && encode_ok ==> r is Ok,
        computed is Ok && !encode_ok ==> r == Err::<(), ServiceError>(
            ServiceError::SerializationFailed,
        ),
{
    match computed {
        Ok(()) => {
            if encode_ok {
                Ok(())
            } else {
                Err(ServiceError::SerializationFailed)
            }
        },
        Err(e) => Err(e),
    }
}

} // verus!
