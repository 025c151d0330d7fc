//! Names of the items that the macros generate.

use convert_case::{Case, Casing};
use vstd::prelude::*;

verus! {

/// The snake-case form that `convert_case` gives to a piece of text.
pub uninterp spec fn snake_case(text: Seq<char>) -> Seq<char>;

/// Converts `text` to snake case with `convert_case::Casing::to_case(Case::Snake)`.
/// Trusted: the result is `snake_case` of the text; nothing else is claimed of it.
#[verifier::external_body]
fn to_snake_case(text: &String) -> (res: String)
    ensures
        res@ == snake_case(text@),
{
    text.to_case(Case::Snake)
}

/// The text of the name of the macro that keeps an item for the environment `variant`
/// and drops it for the others (before snake casing).
pub open spec fn macro_name_text(variant: Seq<char>) -> Seq<char> {
    "define_"@ + variant + "_p"@
}

/// The text of the name of the macro that keeps an item for every environment but
/// `variant` (before snake casing).
pub open spec fn macro_name_nonp_text(variant: Seq<char>) -> Seq<char> {
    "define_"@ + variant + "_nonp"@
}

/// The text of the name of the hidden function that holds the body of `fn_name`
/// of an impl block on a type whose tokens read `self_ty` (before snake casing).
pub open spec fn handle_name_text(self_ty: Seq<char>, fn_name: Seq<char>) -> Seq<char> {
    "_impl_"@ + self_ty + "_"@ + fn_name
}

/// Joins three pieces of text.
fn join3(a: &str, b: &String, c: &str) -> (res: String)
    ensures
        res@ == a@ + b@ + c@,
{
    let mut res = a.to_owned();
    res.append(b);
    res.append(c);
    res
}

/// The name of the macro that keeps its item only in the environment `variant`.
pub fn macro_name(variant: &String) -> (res: String)
    ensures
        res@ == snake_case(macro_name_text(variant@)),
{
    let text = join3("define_", variant, "_p");
    to_snake_case(&text)
}

/// The name of the macro that keeps its item in every environment but `variant`.
pub fn macro_name_nonp(variant: &String) -> (res: String)
    ensures
        res@ == snake_case(macro_name_nonp_text(variant@)),
{
    let text = join3("define_", variant, "_nonp");
    to_snake_case(&text)
}

/// The name of the hidden function that holds the body of the method `fn_name`
/// of an impl block whose self type reads `self_ty`.
pub fn handle_name(self_ty: &String, fn_name: &String) -> (res: String)
    ensures
        res@ == snake_case(handle_name_text(self_ty@, fn_name@)),
{
    let mut text = "_impl_".to_owned();
    text.append(self_ty);
    text.append("_");
    text.append(fn_name);
    to_snake_case(&text)
}

} // verus!
