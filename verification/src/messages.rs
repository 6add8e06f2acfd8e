//! The status line that reports how saving a file went.

use vstd::prelude::*;

verus! {

/// The outcome of a save as mathematical values: the path written to, or
/// the error's text.
pub open spec fn outcome_view(outcome: Result<String, String>) -> Result<Seq<char>, Seq<char>> {
    match outcome {
        Ok(path) => Ok(path@),
        Err(error) => Err(error@),
    }
}

/// The status message for a save: `File saved to: <path>` after a save, or
/// `Error saving file: <error>` after a failure.
pub open spec fn save_status(outcome: Result<Seq<char>, Seq<char>>) -> Seq<char> {
    match outcome {
        Ok(path) => "File saved to: "@ + path,
        Err(error) => "Error saving file: "@ + error,
    }
}

/// Builds the status message for the outcome of a save.
pub fn save_status_message(outcome: &Result<String, String>) -> (m: String)
    ensures
        m@ == save_status(outcome_view(*outcome)),
{
    match outcome {
        Ok(path) => {
            let mut m = String::from_str("File saved to: ");
            m.append(path.as_str());
            m
        },
        Err(error) => {
            let mut m = String::from_str("Error saving file: ");
            m.append(error.as_str());
            m
        },
    }
}

} // verus!
