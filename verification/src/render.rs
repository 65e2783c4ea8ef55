use vstd::prelude::*;
use vstd::string::StringExecFns;

verus! {

/// The text a refresh writes: the category heading followed by the
/// snapshot body.
pub open spec fn frame_text(title: Seq<char>, body: Seq<char>) -> Seq<char> {
    "=> "@ + title + ":\n"@ + body
}

/// Compose the screen text for one refresh: `"=> <title>:\n"` and then the
/// snapshot body.
pub fn compose_frame(title: &str, body: &str) -> (r: String)
    ensures
        r@ == frame_text(title@, body@),
{
    let mut s: String = "=> ".to_owned();
    s.append(title);
    s.append(":\n");
    s.append(body);
    s
}

} // verus!
