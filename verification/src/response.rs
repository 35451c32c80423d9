//! The value a handler produces: a message and the path it answers for,
//! with its JSON rendering.

use vstd::prelude::*;

verus! {

/// A handler's result: a message and the path it answers for.
#[derive(Debug)]
pub struct ApiResponse {
    pub message: String,
    pub path: String,
}

/// The JSON text for a message and a path:
/// `{"message":"<message>","path":"<path>"}`, both values inserted
/// verbatim (no escaping is applied; the values are expected to hold
/// no `"` or `\`).
pub open spec fn json_view(message: Seq<char>, path: Seq<char>) -> Seq<char> {
    "{\"message\":\""@ + message + "\",\"path\":\""@ + path + "\"}"@
}

impl ApiResponse {
    /// The response as its JSON text.
    pub fn to_json(&self) -> (r: String)
        ensures
            r@ == json_view(self.message@, self.path@),
    {
        let mut r = String::from_str("{\"message\":\"");
        r.append(self.message.as_str());
        r.append("\",\"path\":\"");
        r.append(self.path.as_str());
        r.append("\"}");
        proof {
            assert(r@ =~= json_view(self.message@, self.path@));
        }
        r
    }
}

} // verus!
