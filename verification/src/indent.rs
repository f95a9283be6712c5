use vstd::prelude::*;

verus! {

/// What `unindent::unindent` returns for the text `s`.
pub uninterp spec fn unindented(s: Seq<char>) -> Seq<char>;

/// Removes the common indentation of the lines of `s`.
///
/// Trusted: calls `unindent::unindent`, whose result depends on its
/// argument alone; the contract names that result `unindented` and states
/// nothing more of it (it drops a first line that is empty and removes from
/// every later line the smallest number of leading spaces or tabs among the
/// later lines that are not blank).
#[verifier::external_body]
fn unindent_text(s: &str) -> (res: String)
    ensures
        res@ == unindented(s@),
{
    unindent::unindent(s)
}

/// The sample block of the indentation tokenizer, written indented in the
/// source, with its common indentation removed.
pub fn sample_input() -> (res: String)
    ensures
        res@ == unindented("
        ....
        ....
            ...."@),
{
    unindent_text("
        ....
        ....
            ....")
}

} // verus!
