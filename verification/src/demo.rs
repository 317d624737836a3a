//! A small demonstration of how a failure travels up through `Result`.

use vstd::prelude::*;

verus! {

/// Always fails, with the message `hoge`.
pub fn f1() -> (r: Result<i8, String>)
    ensures
        r matches Err(message) && message@ == "hoge"@,
{
    Err("hoge".to_owned())
}

/// Renders the number that `f1` returns in decimal, or hands the failure of
/// `f1` on as it is. As `f1` always fails, so does `f2`, with the same
/// message.
pub fn f2() -> (r: Result<String, String>)
    ensures
        r matches Err(message) && message@ == "hoge"@,
{
    let x = match f1() {
        Ok(x) => x,
        Err(x) => {
            return Err(x);
        },
    };
    Ok(x.to_string())
}

} // verus!
