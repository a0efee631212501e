//! Responses of the gateway endpoints.
//!
//! The transport itself is a collaborator outside the library; what is
//! assembled here is the response body of the generate endpoint, whose
//! wording and success discipline the protocol fixes.

use vstd::prelude::*;
use vstd::string::StringExecFns;
use crate::types::{error_message, VerificationError};

verus! {

/// The body returned by the generate endpoint.
pub struct GenerateProofResponse {
    pub proof_id: String,
    pub status: String,
    pub message: String,
}

/// Builds the generate endpoint's response: on success the artifact
/// reference and `success`, on failure an empty reference, `error`, and
/// the failure's wording.
pub fn build_generate_response(outcome: Result<String, VerificationError>) -> (r:
    GenerateProofResponse)
    ensures
        outcome matches Ok(p) ==> r.proof_id@ == p@ && r.status@ == "success"@ && r.message@
            == "Proof generated successfully"@,
        outcome matches Err(e) ==> r.proof_id@.len() == 0 && r.status@ == "error"@ && r.message@
            == "Failed to generate proof: "@ + error_message(e),
{
    match outcome {
        Ok(proof_id) => GenerateProofResponse {
            proof_id,
            status: "success".to_owned(),
            message: "Proof generated successfully".to_owned(),
        },
        Err(e) => {
            let mut message = "Failed to generate proof: ".to_owned();
            message.append(e.message().as_str());
            GenerateProofResponse { proof_id: String::new(), status: "error".to_owned(), message }
        },
    }
}

} // verus!
