use vstd::prelude::*;

verus! {

/// What `{:?}` writes for a list of strings.
pub uninterp spec fn debug_list_text(items: Seq<Seq<char>>) -> Seq<char>;

/// Calls std's `Debug` for `Vec<String>` through `format!("{:?}", ..)`.
/// Trusted: the text is a function of the strings alone; nothing is said of
/// how they are quoted, escaped and separated.
#[verifier::external_body]
fn debug_list(items: &Vec<String>) -> (r: String)
    ensures
        r@ == debug_list_text(items.deep_view()),
{
    format!("{:?}", items)
}

/// The answer to "did this address join?": the address as the asker wrote it,
/// then " is registered" or " is not registered".
pub fn registration_reply(address: &str, registered: bool) -> (r: String)
    ensures
        registered ==> r@ == address@ + " is registered"@,
        !registered ==> r@ == address@ + " is not registered"@,
{
    let mut r = String::from_str(address);
    if registered {
        r.append(" is registered");
    } else {
        r.append(" is not registered");
    }
    r
}

/// The answer to "who won?" before the winners are drawn.
pub fn pending_winners_reply() -> (r: String)
    ensures
        r@ == "Winners not selected yet!"@,
{
    String::from_str("Winners not selected yet!")
}

/// The answer to "who won?" once they are drawn: "Winners: " and the list
/// of their readable addresses as `{:?}` writes it.
pub fn winners_reply(names: &Vec<String>) -> (r: String)
    ensures
        r@ == "Winners: "@ + debug_list_text(names.deep_view()),
{
    let mut r = String::from_str("Winners: ");
    let list = debug_list(names);
    r.append(list.as_str());
    r
}

/// The text logged under "winners" when the raffle ends: the list of the
/// winners' readable addresses as `{:?}` writes it.
pub fn winners_log(names: &Vec<String>) -> (r: String)
    ensures
        r@ == debug_list_text(names.deep_view()),
{
    debug_list(names)
}

} // verus!
