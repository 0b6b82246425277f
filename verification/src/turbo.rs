//! Turbo Stream fragments: HTML that tells the page which element to change.

use vstd::prelude::*;
use vstd::string::*;
use crate::text::{
    decimal, is_numeral, lemma_decimal_is_numeral, lemma_framed_decimal_injective, numeral_value,
    u64_to_decimal,
};

verus! {

/// A Turbo Stream response body.
pub struct TurboStream(pub String);

/// The media type that Turbo Stream responses carry.
pub const TURBO_STREAM_CONTENT_TYPE: &'static str = "text/vnd.turbo-stream.html";

/// The stream that removes the element `{kind}-{id}` from the page.
pub open spec fn remove_stream(kind: Seq<char>, id: u64) -> Seq<char> {
    "<turbo-stream action=\"remove\" target=\""@ + kind + "-"@ + decimal(id as nat)
        + "\"></turbo-stream>"@
}

fn remove_element(kind: &str, id: u64) -> (stream: TurboStream)
    ensures
        stream.0@ == remove_stream(kind@, id),
{
    let digits = u64_to_decimal(id);
    TurboStream(
        String::from_str("<turbo-stream action=\"remove\" target=\"").concat(kind).concat("-").concat(
            digits.as_str(),
        ).concat("\"></turbo-stream>"),
    )
}

impl TurboStream {
    /// The stream that removes the card `card_id` from the page.
    pub fn remove_card(card_id: u64) -> (stream: TurboStream)
        ensures
            stream.0@ == remove_stream("card"@, card_id),
    {
        remove_element("card", card_id)
    }

    /// The stream that removes the list `list_id` from the page.
    pub fn remove_list(list_id: u64) -> (stream: TurboStream)
        ensures
            stream.0@ == remove_stream("list"@, list_id),
    {
        remove_element("list", list_id)
    }
}

/// The stream removes the element `{kind}-{n}`, where `n` is the canonical
/// numeral of the id.
pub proof fn lemma_remove_stream_targets_id(kind: Seq<char>, id: u64)
    ensures
        exists|n: Seq<char>|
            #![trigger numeral_value(n)]
            is_numeral(n) && numeral_value(n) == id && remove_stream(kind, id)
                == "<turbo-stream action=\"remove\" target=\""@ + kind + "-"@ + n
                + "\"></turbo-stream>"@,
{
    lemma_decimal_is_numeral(id as nat);
    let n = decimal(id as nat);
    assert(numeral_value(n) == id);
}

/// The streams that remove different elements of one kind differ: a stream
/// never removes an element other than the one for its id.
pub proof fn lemma_remove_stream_distinct(kind: Seq<char>, a: u64, b: u64)
    requires
        remove_stream(kind, a) == remove_stream(kind, b),
    ensures
        a == b,
{
    let before = "<turbo-stream action=\"remove\" target=\""@ + kind + "-"@;
    let after = "\"></turbo-stream>"@;
    assert(remove_stream(kind, a) =~= before + decimal(a as nat) + after);
    assert(remove_stream(kind, b) =~= before + decimal(b as nat) + after);
    lemma_framed_decimal_injective(before, after, a as nat, b as nat);
}

} // verus!
